//! Batch-resumable port-scan orchestration: host batching, resumable
//! progress tracking, scanner command construction, and normalization of
//! two scanner output grammars into one result schema.

pub mod batch;
pub mod invoke;
pub mod normalize;
pub mod orchestrate;
pub mod report;
pub mod resume;
pub mod scan;
pub mod text;
