//! Core data model: scanner choice, protocol, port scope, and the canonical
//! scan result record that both output grammars are normalized into.

use vstd::prelude::*;

verus! {

/// External scanner tool choice.
#[derive(Clone, Copy, PartialEq, Eq, Structural, Debug)]
pub enum Scanner {
    Nmap,
    Masscan,
}

/// Transport protocol of one scan invocation.
#[derive(Clone, Copy, PartialEq, Eq, Structural, Debug)]
pub enum Protocol {
    Tcp,
    Udp,
}

/// Which protocols the operator requested.
#[derive(Clone, Copy, PartialEq, Eq, Structural, Debug)]
pub enum ProtocolChoice {
    Tcp,
    Udp,
    Both,
}

/// Port-scope selector.
#[derive(Clone, Copy, PartialEq, Eq, Structural, Debug)]
pub enum PortScope {
    Top100,
    Top1000,
    Top10000,
    All,
}

impl Protocol {
    /// Upper-case protocol label used in result records.
    pub open spec fn upper_spec(self) -> Seq<char> {
        match self {
            Protocol::Tcp => "TCP"@,
            Protocol::Udp => "UDP"@,
        }
    }

    /// Lower-case protocol label used in artifact file names and flags.
    pub open spec fn lower_spec(self) -> Seq<char> {
        match self {
            Protocol::Tcp => "tcp"@,
            Protocol::Udp => "udp"@,
        }
    }

    pub fn upper_name(&self) -> (r: String)
        ensures
            r@ == self.upper_spec(),
    {
        match self {
            Protocol::Tcp => String::from_str("TCP"),
            Protocol::Udp => String::from_str("UDP"),
        }
    }

    pub fn lower_name(&self) -> (r: String)
        ensures
            r@ == self.lower_spec(),
    {
        match self {
            Protocol::Tcp => String::from_str("tcp"),
            Protocol::Udp => String::from_str("udp"),
        }
    }
}

impl ProtocolChoice {
    /// Whether a protocol was requested by this choice.
    pub open spec fn wants_spec(self, p: Protocol) -> bool {
        match self {
            ProtocolChoice::Tcp => p == Protocol::Tcp,
            ProtocolChoice::Udp => p == Protocol::Udp,
            ProtocolChoice::Both => true,
        }
    }

    pub fn wants(&self, p: Protocol) -> (r: bool)
        ensures
            r == self.wants_spec(p),
    {
        match self {
            ProtocolChoice::Tcp => matches!(p, Protocol::Tcp),
            ProtocolChoice::Udp => matches!(p, Protocol::Udp),
            ProtocolChoice::Both => true,
        }
    }

    /// The protocols to run for one batch, in order: TCP first, then UDP.
    pub fn protocols_to_run(&self) -> (r: Vec<Protocol>)
        ensures
            r@ == match *self {
                ProtocolChoice::Tcp => seq![Protocol::Tcp],
                ProtocolChoice::Udp => seq![Protocol::Udp],
                ProtocolChoice::Both => seq![Protocol::Tcp, Protocol::Udp],
            },
    {
        let mut r: Vec<Protocol> = Vec::new();
        match self {
            ProtocolChoice::Tcp => {
                r.push(Protocol::Tcp);
            },
            ProtocolChoice::Udp => {
                r.push(Protocol::Udp);
            },
            ProtocolChoice::Both => {
                r.push(Protocol::Tcp);
                r.push(Protocol::Udp);
            },
        }
        proof {
            assert(r@ =~= match *self {
                ProtocolChoice::Tcp => seq![Protocol::Tcp],
                ProtocolChoice::Udp => seq![Protocol::Udp],
                ProtocolChoice::Both => seq![Protocol::Tcp, Protocol::Udp],
            });
        }
        r
    }
}

/// Mathematical model of one scan result record.
pub ghost struct SpecScanResult {
    pub ip: Seq<char>,
    pub protocol: Seq<char>,
    pub port: u16,
    pub state: Seq<char>,
}

/// One open port observed on one host: the canonical record both scanner
/// output grammars are normalized into.
#[derive(Debug)]
pub struct ScanResult {
    pub ip: String,
    pub protocol: String,
    pub port: u16,
    pub state: String,
}

impl View for ScanResult {
    type V = SpecScanResult;

    open spec fn view(&self) -> SpecScanResult {
        SpecScanResult {
            ip: self.ip@,
            protocol: self.protocol@,
            port: self.port,
            state: self.state@,
        }
    }
}

/// The view of a vector of results as a sequence of models.
pub open spec fn results_view(s: Seq<ScanResult>) -> Seq<SpecScanResult> {
    s.map_values(|r: ScanResult| r@)
}

} // verus!
