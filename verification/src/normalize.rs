//! Output normalizer: parses the raw text artifact of one scanner invocation
//! into canonical scan results. Two grammars are supported.
//!
//! Grammar A (grep-able list style): lines `Host: <ip> ... Ports:
//! <port>/<state>/..., <port>/<state>/..., ...`; only tuples whose state field
//! is `open` yield a result.
//!
//! Grammar B (list-output style): lines `open <proto> <port> <ip>`; the port
//! falls back to 0 when its token does not parse, preserving the observed
//! behavior of the list format.
//!
//! Malformed lines are skipped. A missing artifact yields no results.

use vstd::prelude::*;

use crate::scan::{Protocol, ScanResult, SpecScanResult, results_view};
use crate::text::{
    chars_to_string, eq_str, find_from, find_str, lemma_find_from_some, parse_port,
    parse_port_exec, pieces_view, split_char, split_char_exec, starts_with, starts_with_exec,
    str_to_chars, subvec, trim, trim_exec, words, words_exec,
};

verus! {

/// Result of one `port/state/...` tuple of Grammar A: a record iff the state
/// field is `open` and the port token parses.
pub open spec fn tuple_result(chunk: Seq<char>, ip: Seq<char>, proto: Seq<char>) -> Seq<
    SpecScanResult,
> {
    let fields = split_char(trim(chunk), '/');
    if fields.len() > 1 && fields[1] == "open"@ {
        match parse_port(fields[0]) {
            Some(p) => seq![
                SpecScanResult { ip: ip, protocol: proto, port: p, state: "open"@ },
            ],
            None => Seq::empty(),
        }
    } else {
        Seq::empty()
    }
}

/// Results of all tuples of one Grammar A line, in order.
pub open spec fn tuples_results(chunks: Seq<Seq<char>>, ip: Seq<char>, proto: Seq<char>) -> Seq<
    SpecScanResult,
>
    decreases chunks.len(),
{
    if chunks.len() == 0 {
        Seq::empty()
    } else {
        tuples_results(chunks.drop_last(), ip, proto) + tuple_result(chunks.last(), ip, proto)
    }
}

/// The text between the first `Ports:` marker and the next one (or the end
/// of the line), if the marker is present.
pub open spec fn port_section(line: Seq<char>) -> Option<Seq<char>> {
    match find_from(line, "Ports:"@, 0) {
        None => None,
        Some(i) => {
            let rest = line.skip(i + "Ports:"@.len() as int);
            match find_from(rest, "Ports:"@, 0) {
                None => Some(rest),
                Some(j) => Some(rest.take(j)),
            }
        },
    }
}

/// Results of one Grammar A line: requires at least five whitespace-separated
/// fields, the first being `Host:`; the second field is the IP.
pub open spec fn grammar_a_results(line: Seq<char>, proto: Seq<char>) -> Seq<SpecScanResult> {
    let parts = words(line);
    if parts.len() > 4 && parts[0] == "Host:"@ {
        match port_section(line) {
            None => Seq::empty(),
            Some(sec) => tuples_results(split_char(sec, ','), parts[1], proto),
        }
    } else {
        Seq::empty()
    }
}

/// Result of one Grammar B line: requires at least four whitespace-separated
/// fields; the port is field 2 (0 when unparseable) and the IP is field 3.
pub open spec fn grammar_b_result(line: Seq<char>, proto: Seq<char>) -> Seq<SpecScanResult> {
    let parts = words(line);
    if parts.len() >= 4 {
        let port = match parse_port(parts[2]) {
            Some(p) => p,
            None => 0u16,
        };
        seq![SpecScanResult { ip: parts[3], protocol: proto, port: port, state: "open"@ }]
    } else {
        Seq::empty()
    }
}

/// Results of one artifact line. A line that starts with `Host:` or contains
/// `Ports:` is tried as Grammar A; otherwise a line that starts with `open`
/// is tried as Grammar B; every other line is skipped.
pub open spec fn line_results(line: Seq<char>, proto: Seq<char>) -> Seq<SpecScanResult> {
    if starts_with(line, "Host:"@) || find_from(line, "Ports:"@, 0) is Some {
        grammar_a_results(line, proto)
    } else if starts_with(line, "open"@) {
        grammar_b_result(line, proto)
    } else {
        Seq::empty()
    }
}

/// Results of a sequence of lines, in order.
pub open spec fn lines_results(ls: Seq<Seq<char>>, proto: Seq<char>) -> Seq<SpecScanResult>
    decreases ls.len(),
{
    if ls.len() == 0 {
        Seq::empty()
    } else {
        lines_results(ls.drop_last(), proto) + line_results(ls.last(), proto)
    }
}

/// Results of a whole artifact text: its newline-separated lines, in order.
pub open spec fn parse_artifact_spec(content: Seq<char>, proto: Seq<char>) -> Seq<
    SpecScanResult,
> {
    lines_results(split_char(content, '\n'), proto)
}

/// Parses one tuple of Grammar A.
fn tuple_result_exec(chunk: &Vec<char>, ip: &Vec<char>, protocol: Protocol) -> (r: Option<
    ScanResult,
>)
    ensures
        match r {
            Some(res) => tuple_result(chunk@, ip@, protocol.upper_spec()) == seq![res@],
            None => tuple_result(chunk@, ip@, protocol.upper_spec()) == Seq::<
                SpecScanResult,
            >::empty(),
        },
{
    let trimmed = trim_exec(chunk);
    let fields = split_char_exec(&trimmed, '/');
    if fields.len() > 1 && eq_str(&fields[1], "open") {
        match parse_port_exec(&fields[0]) {
            Some(p) => {
                let res = ScanResult {
                    ip: chars_to_string(ip),
                    protocol: protocol.upper_name(),
                    port: p,
                    state: String::from_str("open"),
                };
                proof {
                    assert(tuple_result(chunk@, ip@, protocol.upper_spec()) =~= seq![res@]);
                }
                Some(res)
            },
            None => None,
        }
    } else {
        None
    }
}

/// Parses one artifact line into zero or more results.
#[verifier::loop_isolation(false)]
fn line_results_exec(line: &Vec<char>, protocol: Protocol) -> (r: Vec<ScanResult>)
    ensures
        results_view(r@) == line_results(line@, protocol.upper_spec()),
{
    let ghost proto = protocol.upper_spec();
    let mut r: Vec<ScanResult> = Vec::new();
    let has_ports = match find_str(line, "Ports:") {
        Some(_) => true,
        None => false,
    };
    if starts_with_exec(line, "Host:") || has_ports {
        let parts = words_exec(line);
        if parts.len() > 4 && eq_str(&parts[0], "Host:") {
            match find_str(line, "Ports:") {
                Some(i) => {
                    let llen = line.len();
                    proof {
                        reveal_strlit("Ports:");
                        lemma_find_from_some(line@, "Ports:"@, 0, i as int);
                    }
                    let rest = subvec(line, i + 6, llen);
                    proof {
                        assert(rest@ =~= line@.skip(i + "Ports:"@.len() as int));
                    }
                    let sec = match find_str(&rest, "Ports:") {
                        None => rest,
                        Some(j) => {
                            proof {
                                lemma_find_from_some(rest@, "Ports:"@, 0, j as int);
                            }
                            subvec(&rest, 0, j)
                        },
                    };
                    proof {
                        assert(port_section(line@) == Some(sec@));
                    }
                    let chunks = split_char_exec(&sec, ',');
                    let ghost cs = pieces_view(chunks@);
                    let mut k: usize = 0;
                    proof {
                        assert(cs.take(0) =~= Seq::<Seq<char>>::empty());
                        assert(results_view(r@) =~= Seq::<SpecScanResult>::empty());
                    }
                    while k < chunks.len()
                        invariant
                            k <= chunks.len(),
                            cs == pieces_view(chunks@),
                            results_view(r@) == tuples_results(cs.take(k as int), parts@[1]@, proto),
                        decreases chunks.len() - k,
                    {
                        let ghost r0 = r@;
                        match tuple_result_exec(&chunks[k], &parts[1], protocol) {
                            Some(res) => {
                                r.push(res);
                                proof {
                                    assert(results_view(r@) =~= results_view(r0).push(r@.last()@));
                                }
                            },
                            None => {},
                        }
                        proof {
                            assert(cs.take(k + 1).drop_last() =~= cs.take(k as int));
                            assert(cs.take(k + 1).last() == cs[k as int]);
                            assert(results_view(r@) =~= tuples_results(
                                cs.take(k + 1),
                                parts@[1]@,
                                proto,
                            ));
                        }
                        k += 1;
                    }
                    proof {
                        assert(cs.take(cs.len() as int) =~= cs);
                    }
                },
                None => {},
            }
        }
        proof {
            assert(results_view(r@) =~= line_results(line@, proto));
        }
    } else if starts_with_exec(line, "open") {
        let parts = words_exec(line);
        if parts.len() >= 4 {
            let port = match parse_port_exec(&parts[2]) {
                Some(p) => p,
                None => 0u16,
            };
            let res = ScanResult {
                ip: chars_to_string(&parts[3]),
                protocol: protocol.upper_name(),
                port,
                state: String::from_str("open"),
            };
            r.push(res);
        }
        proof {
            assert(results_view(r@) =~= line_results(line@, proto));
        }
    } else {
        proof {
            assert(results_view(r@) =~= line_results(line@, proto));
        }
    }
    r
}

/// Parses a whole artifact text into the results of all its lines, in order.
#[verifier::loop_isolation(false)]
pub fn parse_artifact(content: &str, protocol: Protocol) -> (r: Vec<ScanResult>)
    ensures
        results_view(r@) == parse_artifact_spec(content@, protocol.upper_spec()),
{
    let ghost proto = protocol.upper_spec();
    let chars = str_to_chars(content);
    let lines = split_char_exec(&chars, '\n');
    let ghost ls = pieces_view(lines@);
    let mut r: Vec<ScanResult> = Vec::new();
    let mut i: usize = 0;
    proof {
        assert(ls.take(0) =~= Seq::<Seq<char>>::empty());
        assert(results_view(r@) =~= Seq::<SpecScanResult>::empty());
    }
    while i < lines.len()
        invariant
            i <= lines.len(),
            ls == pieces_view(lines@),
            results_view(r@) == lines_results(ls.take(i as int), proto),
        decreases lines.len() - i,
    {
        let ghost r0 = r@;
        let mut one = line_results_exec(&lines[i], protocol);
        let ghost one0 = one@;
        r.append(&mut one);
        proof {
            assert(results_view(r@) =~= results_view(r0) + results_view(one0));
            assert(ls.take(i + 1).drop_last() =~= ls.take(i as int));
            assert(ls.take(i + 1).last() == ls[i as int]);
            assert(results_view(r@) =~= lines_results(ls.take(i + 1), proto));
        }
        i += 1;
    }
    proof {
        assert(ls.take(ls.len() as int) =~= ls);
    }
    r
}

/// Normalizes the artifact of one (batch, protocol) invocation. A missing
/// artifact (`None`) yields no results rather than an error: a scanner that
/// found nothing may produce no file at all.
pub fn normalize_artifact(content: &Option<String>, protocol: Protocol) -> (r: Vec<ScanResult>)
    ensures
        results_view(r@) == (match content {
            Some(c) => parse_artifact_spec(c@, protocol.upper_spec()),
            None => Seq::<SpecScanResult>::empty(),
        }),
{
    match content {
        Some(c) => parse_artifact(c.as_str(), protocol),
        None => {
            let r: Vec<ScanResult> = Vec::new();
            proof {
                assert(results_view(r@) =~= Seq::<SpecScanResult>::empty());
            }
            r
        },
    }
}

} // verus!
