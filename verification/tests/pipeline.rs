//! End-to-end tests of the batching, resume, invocation, normalization and
//! reporting logic on concrete values.

use segscan::batch::{chunk_hosts, select_hosts};
use segscan::invoke::{
    artifact_name, build_scan_command, masscan_port_range, nmap_port_opts, scan_supported,
    udp_warning_needed,
};
use segscan::normalize::{normalize_artifact, parse_artifact};
use segscan::orchestrate::Orchestrator;
use segscan::report::{compliance_summary, ports_joined, row_class};
use segscan::resume::ResumeState;
use segscan::scan::{PortScope, Protocol, ProtocolChoice, ScanResult, Scanner};

fn host_list(v: &[&str]) -> Vec<String> {
    v.iter().map(|s| s.to_string()).collect()
}

fn open_result(ip: &str, port: u16) -> ScanResult {
    ScanResult {
        ip: ip.to_string(),
        protocol: "TCP".to_string(),
        port,
        state: "open".to_string(),
    }
}

#[test]
fn batching_reconstructs_input() {
    let hosts = host_list(&["a", "b", "c", "d", "e"]);
    let batches = chunk_hosts(&hosts, 2);
    assert_eq!(batches.len(), 3);
    assert_eq!(batches[0], host_list(&["a", "b"]));
    assert_eq!(batches[1], host_list(&["c", "d"]));
    assert_eq!(batches[2], host_list(&["e"]));
    let concat: Vec<String> = batches.into_iter().flatten().collect();
    assert_eq!(concat, hosts);
}

#[test]
fn batching_count_is_ceiling() {
    let hosts = host_list(&["a", "b", "c", "d", "e"]);
    assert_eq!(chunk_hosts(&hosts, 20).len(), 1);
    assert_eq!(chunk_hosts(&hosts, 5).len(), 1);
    assert_eq!(chunk_hosts(&hosts, 4).len(), 2);
    assert_eq!(chunk_hosts(&hosts, 1).len(), 5);
    let none: Vec<String> = Vec::new();
    assert_eq!(chunk_hosts(&none, 20).len(), 0);
}

#[test]
fn resume_skips_completed_batches() {
    let done = vec![0usize, 1];
    let resume = ResumeState::from_indices(&done);
    let orch = Orchestrator::new(4, resume);
    assert_eq!(orch.pending_batches(), vec![2usize, 3]);
    assert!(orch.batch_done(0));
    assert!(orch.batch_done(1));
    assert!(!orch.batch_done(2));
    assert!(!orch.finished());
}

#[test]
fn fresh_resume_plans_every_batch() {
    let resume = ResumeState::new();
    let orch = Orchestrator::new(3, resume);
    assert_eq!(orch.pending_batches(), vec![0usize, 1, 2]);
}

#[test]
fn orchestrator_accumulates_and_completes() {
    let resume = ResumeState::new();
    let mut orch = Orchestrator::new(2, resume);
    orch.complete_batch(0, vec![open_result("10.0.0.1", 80)]);
    assert!(orch.batch_done(0));
    assert!(!orch.finished());
    orch.complete_batch(1, vec![open_result("10.0.0.2", 22)]);
    assert!(orch.finished());
    let results = orch.results();
    assert_eq!(results.len(), 2);
    assert_eq!(results[0].ip, "10.0.0.1");
    assert_eq!(results[0].port, 80);
    assert_eq!(results[1].ip, "10.0.0.2");
    assert_eq!(results[1].port, 22);
    let mut indices = orch.checkpoint_indices();
    indices.sort();
    assert_eq!(indices, vec![0usize, 1]);
}

#[test]
fn resume_state_collapses_duplicates() {
    let resume = ResumeState::from_indices(&vec![2usize, 2, 5]);
    assert!(resume.contains(2));
    assert!(resume.contains(5));
    assert!(!resume.contains(0));
    let mut indices = resume.to_indices();
    indices.sort();
    assert_eq!(indices, vec![2usize, 5]);
}

#[test]
fn grammar_a_line_yields_open_ports_only() {
    let line = "Host: 10.0.0.1 ()\tPorts: 80/open/tcp//http///, 443/closed/tcp//https///";
    let results = parse_artifact(line, Protocol::Tcp);
    assert_eq!(results.len(), 1);
    assert_eq!(results[0].ip, "10.0.0.1");
    assert_eq!(results[0].protocol, "TCP");
    assert_eq!(results[0].port, 80);
    assert_eq!(results[0].state, "open");
}

#[test]
fn grammar_b_line_yields_positional_fields() {
    let results = parse_artifact("open tcp 22 10.0.0.5", Protocol::Tcp);
    assert_eq!(results.len(), 1);
    assert_eq!(results[0].ip, "10.0.0.5");
    assert_eq!(results[0].protocol, "TCP");
    assert_eq!(results[0].port, 22);
    assert_eq!(results[0].state, "open");
}

#[test]
fn grammar_b_port_falls_back_to_zero() {
    let results = parse_artifact("open tcp banner 10.0.0.5", Protocol::Udp);
    assert_eq!(results.len(), 1);
    assert_eq!(results[0].ip, "10.0.0.5");
    assert_eq!(results[0].protocol, "UDP");
    assert_eq!(results[0].port, 0);
}

#[test]
fn malformed_lines_are_skipped() {
    let content = "garbage\n\nHost: 10.0.0.1\nHost: 10.0.0.2 () Ports: 70000/open/tcp////\nopen tcp 22\nclosed tcp 22 10.0.0.9";
    let results = parse_artifact(content, Protocol::Tcp);
    assert!(results.is_empty());
}

#[test]
fn port_range_boundary() {
    let content = "Host: 10.0.0.1 () Ports: 65535/open/tcp////, 65536/open/tcp////";
    let results = parse_artifact(content, Protocol::Tcp);
    assert_eq!(results.len(), 1);
    assert_eq!(results[0].port, 65535);
    let b = parse_artifact("open tcp 65536 10.0.0.5", Protocol::Tcp);
    assert_eq!(b.len(), 1);
    assert_eq!(b[0].port, 0);
}

#[test]
fn ports_marker_wins_over_open_prefix() {
    // A line holding "Ports:" is read as Grammar A even when it starts with
    // "open"; with no "Host:" field it yields nothing.
    let results = parse_artifact("open tcp 22 10.0.0.5 Ports:", Protocol::Tcp);
    assert!(results.is_empty());
}

#[test]
fn multi_line_artifact_keeps_line_order() {
    let content = "Host: 10.0.0.1 () Ports: 80/open/tcp//http///, 8080/open/tcp////\nopen tcp 22 10.0.0.5";
    let results = parse_artifact(content, Protocol::Tcp);
    assert_eq!(results.len(), 3);
    assert_eq!((results[0].ip.as_str(), results[0].port), ("10.0.0.1", 80));
    assert_eq!((results[1].ip.as_str(), results[1].port), ("10.0.0.1", 8080));
    assert_eq!((results[2].ip.as_str(), results[2].port), ("10.0.0.5", 22));
}

#[test]
fn missing_artifact_yields_no_results() {
    let results = normalize_artifact(&None, Protocol::Tcp);
    assert!(results.is_empty());
    let present = normalize_artifact(&Some("open tcp 22 10.0.0.5".to_string()), Protocol::Tcp);
    assert_eq!(present.len(), 1);
}

#[test]
fn masscan_udp_is_skipped_with_warning() {
    assert!(!scan_supported(Scanner::Masscan, Protocol::Udp));
    assert!(scan_supported(Scanner::Masscan, Protocol::Tcp));
    assert!(scan_supported(Scanner::Nmap, Protocol::Udp));
    assert!(udp_warning_needed(Scanner::Masscan));
    assert!(!udp_warning_needed(Scanner::Nmap));
    let hosts = host_list(&["10.0.0.1"]);
    let cmd = build_scan_command(Scanner::Masscan, PortScope::Top100, Protocol::Udp, &hosts, 0);
    assert!(cmd.is_none());
}

#[test]
fn nmap_command_is_exact() {
    let hosts = host_list(&["10.0.0.1", "10.0.0.2"]);
    let cmd = build_scan_command(Scanner::Nmap, PortScope::Top100, Protocol::Tcp, &hosts, 0);
    assert_eq!(
        cmd.unwrap(),
        "nmap -sS -Pn -T4  --top-ports 100 10.0.0.1 10.0.0.2 -oG scan_batch0_tcp.txt"
    );
    let cmd = build_scan_command(Scanner::Nmap, PortScope::Top1000, Protocol::Udp, &hosts, 7);
    assert_eq!(
        cmd.unwrap(),
        "nmap -sU -Pn -T4  10.0.0.1 10.0.0.2 -oG scan_batch7_udp.txt"
    );
}

#[test]
fn masscan_command_is_exact() {
    let hosts = host_list(&["10.0.0.1"]);
    let cmd = build_scan_command(Scanner::Masscan, PortScope::Top100, Protocol::Tcp, &hosts, 3);
    assert_eq!(
        cmd.unwrap(),
        "masscan 10.0.0.1 -p0-1024 --rate 1000 -oL scan_batch3_tcp.txt"
    );
    let cmd = build_scan_command(Scanner::Masscan, PortScope::All, Protocol::Tcp, &hosts, 0);
    assert_eq!(
        cmd.unwrap(),
        "masscan 10.0.0.1 -p0-65535 --rate 1000 -oL scan_batch0_tcp.txt"
    );
}

#[test]
fn port_scope_mappings_match_table() {
    assert_eq!(nmap_port_opts(PortScope::Top100), " --top-ports 100");
    assert_eq!(nmap_port_opts(PortScope::Top1000), "");
    assert_eq!(nmap_port_opts(PortScope::Top10000), " --top-ports 10000");
    assert_eq!(nmap_port_opts(PortScope::All), " -p-");
    assert_eq!(masscan_port_range(PortScope::Top100), "0-1024");
    assert_eq!(masscan_port_range(PortScope::Top1000), "0-65535");
    assert_eq!(masscan_port_range(PortScope::Top10000), "0-65535");
    assert_eq!(masscan_port_range(PortScope::All), "0-65535");
}

#[test]
fn artifact_names_are_keyed_by_batch_and_protocol() {
    assert_eq!(artifact_name(0, Protocol::Tcp), "scan_batch0_tcp.txt");
    assert_eq!(artifact_name(12, Protocol::Udp), "scan_batch12_udp.txt");
    assert_eq!(artifact_name(105, Protocol::Tcp), "scan_batch105_tcp.txt");
}

#[test]
fn protocol_choice_orders_tcp_first() {
    assert_eq!(
        ProtocolChoice::Both.protocols_to_run(),
        vec![Protocol::Tcp, Protocol::Udp]
    );
    assert_eq!(ProtocolChoice::Tcp.protocols_to_run(), vec![Protocol::Tcp]);
    assert_eq!(ProtocolChoice::Udp.protocols_to_run(), vec![Protocol::Udp]);
    assert!(ProtocolChoice::Both.wants(Protocol::Udp));
    assert!(!ProtocolChoice::Tcp.wants(Protocol::Udp));
}

#[test]
fn compliance_summary_keeps_every_open_port() {
    let hosts = host_list(&["10.0.0.1", "10.0.0.2"]);
    let results = vec![
        open_result("10.0.0.1", 80),
        open_result("10.0.0.2", 443),
        open_result("10.0.0.1", 80),
        open_result("10.0.0.1", 8080),
    ];
    let summary = compliance_summary(&hosts, &results);
    assert_eq!(summary.len(), 2);
    assert_eq!(summary[0].ip, "10.0.0.1");
    assert_eq!(summary[0].open_count, 3);
    assert_eq!(summary[0].ports, vec![80u16, 80, 8080]);
    assert!(!summary[0].pass);
    assert_eq!(summary[1].ip, "10.0.0.2");
    assert_eq!(summary[1].open_count, 1);
    assert_eq!(summary[1].ports, vec![443u16]);
    assert!(!summary[1].pass);
}

#[test]
fn host_without_open_ports_passes() {
    let hosts = host_list(&["10.0.0.1", "10.0.0.3"]);
    let results = vec![open_result("10.0.0.1", 80)];
    let summary = compliance_summary(&hosts, &results);
    assert_eq!(summary.len(), 2);
    assert_eq!(summary[0].ip, "10.0.0.1");
    assert!(!summary[0].pass);
    assert_eq!(summary[1].ip, "10.0.0.3");
    assert_eq!(summary[1].open_count, 0);
    assert!(summary[1].ports.is_empty());
    assert!(summary[1].pass);
}

#[test]
fn clean_host_listed_once_despite_duplicates() {
    let hosts = host_list(&["10.0.0.3", "10.0.0.3"]);
    let summary = compliance_summary(&hosts, &Vec::new());
    assert_eq!(summary.len(), 1);
    assert_eq!(summary[0].ip, "10.0.0.3");
    assert!(summary[0].pass);
}

#[test]
fn compliance_summary_of_nothing_is_empty() {
    let summary = compliance_summary(&Vec::new(), &Vec::new());
    assert!(summary.is_empty());
}

#[test]
fn port_list_renders_in_order() {
    assert_eq!(ports_joined(&vec![80u16, 80, 8080]), "80, 80, 8080");
    assert_eq!(ports_joined(&vec![443u16]), "443");
    assert_eq!(ports_joined(&Vec::new()), "");
}

#[test]
fn html_row_class_follows_state() {
    let open = open_result("10.0.0.1", 80);
    assert_eq!(row_class(&open), "fail");
    let mut closed = open_result("10.0.0.1", 80);
    closed.state = "closed".to_string();
    assert_eq!(row_class(&closed), "pass");
}

#[test]
fn select_hosts_drops_blank_lines() {
    let lines = host_list(&["10.0.0.1", "", "web01", ""]);
    assert_eq!(select_hosts(&lines), host_list(&["10.0.0.1", "web01"]));
}
