//! Scan invoker: builds the exact external command line for one
//! (batch, protocol) invocation and the name of its output artifact.
//! Execution of the command is left to the caller; masscan + UDP is an
//! unsupported combination and yields no command.

use vstd::prelude::*;

use crate::scan::{PortScope, Protocol, Scanner};
use crate::text::{chars_to_string, dec_str, join, join_strings, strings_view, usize_dec_chars};

verus! {

/// nmap's port-scope option, with its leading space (empty for the default
/// scope, which is nmap's own top-1000 default).
pub open spec fn nmap_port_opts_spec(scope: PortScope) -> Seq<char> {
    match scope {
        PortScope::Top100 => " --top-ports 100"@,
        PortScope::Top1000 => ""@,
        PortScope::Top10000 => " --top-ports 10000"@,
        PortScope::All => " -p-"@,
    }
}

pub fn nmap_port_opts(scope: PortScope) -> (r: String)
    ensures
        r@ == nmap_port_opts_spec(scope),
{
    match scope {
        PortScope::Top100 => String::from_str(" --top-ports 100"),
        PortScope::Top1000 => String::from_str(""),
        PortScope::Top10000 => String::from_str(" --top-ports 10000"),
        PortScope::All => String::from_str(" -p-"),
    }
}

/// masscan's port range for a scope: only the top-100 scope narrows it.
pub open spec fn masscan_port_range_spec(scope: PortScope) -> Seq<char> {
    match scope {
        PortScope::Top100 => "0-1024"@,
        PortScope::Top1000 => "0-65535"@,
        PortScope::Top10000 => "0-65535"@,
        PortScope::All => "0-65535"@,
    }
}

pub fn masscan_port_range(scope: PortScope) -> (r: String)
    ensures
        r@ == masscan_port_range_spec(scope),
{
    match scope {
        PortScope::Top100 => String::from_str("0-1024"),
        _ => String::from_str("0-65535"),
    }
}

/// Whether a scanner supports a protocol: masscan cannot scan UDP.
pub open spec fn scan_supported_spec(scanner: Scanner, protocol: Protocol) -> bool {
    !(scanner == Scanner::Masscan && protocol == Protocol::Udp)
}

pub fn scan_supported(scanner: Scanner, protocol: Protocol) -> (r: bool)
    ensures
        r == scan_supported_spec(scanner, protocol),
{
    !(matches!(scanner, Scanner::Masscan) && matches!(protocol, Protocol::Udp))
}

/// Whether a UDP request must surface the unsupported-scanner warning.
pub fn udp_warning_needed(scanner: Scanner) -> (r: bool)
    ensures
        r == (scanner == Scanner::Masscan),
{
    matches!(scanner, Scanner::Masscan)
}

/// Artifact file name for one (batch, protocol) invocation; unique per pair.
pub open spec fn artifact_name_spec(batch_index: int, protocol: Protocol) -> Seq<char> {
    "scan_batch"@ + dec_str(batch_index) + "_"@ + protocol.lower_spec() + ".txt"@
}

pub fn artifact_name(batch_index: usize, protocol: Protocol) -> (r: String)
    ensures
        r@ == artifact_name_spec(batch_index as int, protocol),
{
    let mut s = String::from_str("scan_batch");
    let digits = usize_dec_chars(batch_index);
    let ds = chars_to_string(&digits);
    s.append(ds.as_str());
    s.append("_");
    let p = protocol.lower_name();
    s.append(p.as_str());
    s.append(".txt");
    proof {
        assert(s@ =~= artifact_name_spec(batch_index as int, protocol));
    }
    s
}

/// The full shell command of one invocation, or nothing when the scanner
/// does not support the protocol.
pub open spec fn scan_command_spec(
    scanner: Scanner,
    scope: PortScope,
    protocol: Protocol,
    hosts: Seq<Seq<char>>,
    batch_index: int,
) -> Option<Seq<char>> {
    if scanner == Scanner::Nmap {
        let flag = if protocol == Protocol::Tcp {
            "-sS"@
        } else {
            "-sU"@
        };
        Some(
            "nmap "@ + flag + " -Pn -T4 "@ + nmap_port_opts_spec(scope) + " "@ + join(hosts, " "@)
                + " -oG "@ + artifact_name_spec(batch_index, protocol),
        )
    } else if protocol == Protocol::Tcp {
        Some(
            "masscan "@ + join(hosts, " "@) + " -p"@ + masscan_port_range_spec(scope)
                + " --rate 1000 -oL "@ + artifact_name_spec(batch_index, protocol),
        )
    } else {
        None
    }
}

/// Builds the external scanner command for one batch. Returns a command for
/// every supported (scanner, protocol) pair; masscan + UDP returns nothing
/// (the caller surfaces the warning and skips execution).
pub fn build_scan_command(
    scanner: Scanner,
    scope: PortScope,
    protocol: Protocol,
    hosts: &Vec<String>,
    batch_index: usize,
) -> (r: Option<String>)
    ensures
        match r {
            Some(cmd) => scan_command_spec(
                scanner,
                scope,
                protocol,
                strings_view(hosts@),
                batch_index as int,
            ) == Some(cmd@),
            None => scan_command_spec(
                scanner,
                scope,
                protocol,
                strings_view(hosts@),
                batch_index as int,
            ) is None,
        },
{
    let hostlist = join_strings(hosts, " ");
    let outfile = artifact_name(batch_index, protocol);
    match scanner {
        Scanner::Nmap => {
            let mut cmd = String::from_str("nmap ");
            let flag = match protocol {
                Protocol::Tcp => String::from_str("-sS"),
                Protocol::Udp => String::from_str("-sU"),
            };
            cmd.append(flag.as_str());
            cmd.append(" -Pn -T4 ");
            let opts = nmap_port_opts(scope);
            cmd.append(opts.as_str());
            cmd.append(" ");
            cmd.append(hostlist.as_str());
            cmd.append(" -oG ");
            cmd.append(outfile.as_str());
            proof {
                assert(scan_command_spec(
                    scanner,
                    scope,
                    protocol,
                    strings_view(hosts@),
                    batch_index as int,
                ) == Some(cmd@)) by {
                    assert(cmd@ =~= "nmap "@ + (if protocol == Protocol::Tcp {
                        "-sS"@
                    } else {
                        "-sU"@
                    }) + " -Pn -T4 "@ + nmap_port_opts_spec(scope) + " "@ + join(
                        strings_view(hosts@),
                        " "@,
                    ) + " -oG "@ + artifact_name_spec(batch_index as int, protocol));
                }
            }
            Some(cmd)
        },
        Scanner::Masscan => {
            match protocol {
                Protocol::Tcp => {
                    let mut cmd = String::from_str("masscan ");
                    cmd.append(hostlist.as_str());
                    cmd.append(" -p");
                    let range = masscan_port_range(scope);
                    cmd.append(range.as_str());
                    cmd.append(" --rate 1000 -oL ");
                    cmd.append(outfile.as_str());
                    proof {
                        assert(scan_command_spec(
                            scanner,
                            scope,
                            protocol,
                            strings_view(hosts@),
                            batch_index as int,
                        ) == Some(cmd@)) by {
                            assert(cmd@ =~= "masscan "@ + join(strings_view(hosts@), " "@)
                                + " -p"@ + masscan_port_range_spec(scope) + " --rate 1000 -oL "@
                                + artifact_name_spec(batch_index as int, protocol));
                        }
                    }
                    Some(cmd)
                },
                Protocol::Udp => None,
            }
        },
    }
}

} // verus!
