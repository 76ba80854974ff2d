//! Per-host compliance summary: one row per host. Hosts that appear in the
//! results are listed first, in first-appearance order, with every observed
//! open port (duplicates included) and a FAIL status; scanned hosts with no
//! open-port result follow, each with an empty port list and a PASS status.

use vstd::prelude::*;

use crate::scan::{ScanResult, SpecScanResult, results_view};
use crate::text::{chars_to_string, dec_str, join, join_strings, strings_view, usize_dec_chars};

verus! {

/// The distinct host IPs of `rs`, in order of first appearance.
pub open spec fn distinct_ips(rs: Seq<SpecScanResult>) -> Seq<Seq<char>>
    decreases rs.len(),
{
    if rs.len() == 0 {
        Seq::empty()
    } else {
        let d = distinct_ips(rs.drop_last());
        if d.contains(rs.last().ip) {
            d
        } else {
            d.push(rs.last().ip)
        }
    }
}

/// All ports reported for `ip` in `rs`, in order, duplicates kept.
pub open spec fn ports_of(rs: Seq<SpecScanResult>, ip: Seq<char>) -> Seq<u16>
    decreases rs.len(),
{
    if rs.len() == 0 {
        Seq::empty()
    } else {
        let p = ports_of(rs.drop_last(), ip);
        if rs.last().ip == ip {
            p.push(rs.last().port)
        } else {
            p
        }
    }
}

/// The scanned hosts with no reported port, in host-list order, each once.
pub open spec fn clean_hosts(hosts: Seq<String>, rs: Seq<SpecScanResult>) -> Seq<Seq<char>>
    decreases hosts.len(),
{
    if hosts.len() == 0 {
        Seq::empty()
    } else {
        let c = clean_hosts(hosts.drop_last(), rs);
        let h = hosts.last()@;
        if ports_of(rs, h).len() == 0 && !c.contains(h) {
            c.push(h)
        } else {
            c
        }
    }
}

/// The IPs of the summary's rows, in order: hosts appearing in the results
/// first, then scanned hosts with no reported port.
pub open spec fn summary_ips(hosts: Seq<String>, rs: Seq<SpecScanResult>) -> Seq<Seq<char>> {
    distinct_ips(rs) + clean_hosts(hosts, rs)
}

/// The IPs that appear in the results are each listed once, and each has at
/// least one port reported.
proof fn lemma_distinct_ips_covers(rs: Seq<SpecScanResult>)
    ensures
        forall|ip: Seq<char>|
            #[trigger] distinct_ips(rs).contains(ip) <==> exists|i: int|
                0 <= i < rs.len() && (#[trigger] rs[i]).ip == ip,
        forall|ip: Seq<char>|
            #[trigger] distinct_ips(rs).contains(ip) ==> ports_of(rs, ip).len() > 0,
        forall|i: int, j: int|
            0 <= i < j < distinct_ips(rs).len() ==> distinct_ips(rs)[i] != distinct_ips(rs)[j],
    decreases rs.len(),
{
    if rs.len() > 0 {
        let prefix = rs.drop_last();
        lemma_distinct_ips_covers(prefix);
        let d0 = distinct_ips(prefix);
        let d = distinct_ips(rs);
        assert forall|ip: Seq<char>| #[trigger] d.contains(ip) implies exists|i: int|
            0 <= i < rs.len() && (#[trigger] rs[i]).ip == ip by {
            let w = choose|w: int| 0 <= w < d.len() && d[w] == ip;
            if w < d0.len() {
                assert(d0[w] == ip);
                assert(d0.contains(ip));
                let i = choose|i: int| 0 <= i < prefix.len() && prefix[i].ip == ip;
                assert(rs[i].ip == ip);
            } else {
                assert(rs[rs.len() - 1].ip == ip);
            }
        };
        assert forall|ip: Seq<char>| (exists|i: int|
            0 <= i < rs.len() && (#[trigger] rs[i]).ip == ip) implies #[trigger] d.contains(
            ip,
        ) by {
            let i = choose|i: int| 0 <= i < rs.len() && rs[i].ip == ip;
            if i < rs.len() - 1 {
                assert(prefix[i].ip == ip);
                assert(d0.contains(ip));
                let w = choose|w: int| 0 <= w < d0.len() && d0[w] == ip;
                assert(d[w] == ip);
            } else {
                if d0.contains(rs.last().ip) {
                    let w = choose|w: int| 0 <= w < d0.len() && d0[w] == ip;
                    assert(d[w] == ip);
                } else {
                    assert(d[d.len() - 1] == ip);
                }
            }
        };
        assert forall|ip: Seq<char>| #[trigger] d.contains(ip) implies ports_of(rs, ip).len()
            > 0 by {
            if rs.last().ip == ip {
                assert(ports_of(rs, ip).len() == ports_of(prefix, ip).len() + 1);
            } else {
                let i = choose|i: int| 0 <= i < rs.len() && rs[i].ip == ip;
                assert(prefix[i].ip == ip);
                assert(d0.contains(ip));
            }
        };
    }
}

/// The hosts with no reported port are each listed once, exactly those
/// named in `hosts` whose port list is empty.
proof fn lemma_clean_hosts_covers(hosts: Seq<String>, rs: Seq<SpecScanResult>)
    ensures
        forall|ip: Seq<char>|
            #[trigger] clean_hosts(hosts, rs).contains(ip) <==> ((exists|h: int|
                0 <= h < hosts.len() && (#[trigger] hosts[h])@ == ip) && ports_of(rs, ip).len()
                == 0),
        forall|i: int, j: int|
            0 <= i < j < clean_hosts(hosts, rs).len() ==> clean_hosts(hosts, rs)[i]
                != clean_hosts(hosts, rs)[j],
    decreases hosts.len(),
{
    if hosts.len() > 0 {
        let prefix = hosts.drop_last();
        lemma_clean_hosts_covers(prefix, rs);
        let c0 = clean_hosts(prefix, rs);
        let c = clean_hosts(hosts, rs);
        assert forall|ip: Seq<char>| #[trigger] c.contains(ip) implies ((exists|h: int|
            0 <= h < hosts.len() && (#[trigger] hosts[h])@ == ip) && ports_of(rs, ip).len()
            == 0) by {
            let w = choose|w: int| 0 <= w < c.len() && c[w] == ip;
            if w < c0.len() {
                assert(c0[w] == ip);
                assert(c0.contains(ip));
                let h = choose|h: int| 0 <= h < prefix.len() && prefix[h]@ == ip;
                assert(hosts[h]@ == ip);
            } else {
                assert(hosts[hosts.len() - 1]@ == ip);
            }
        };
        assert forall|ip: Seq<char>| ((exists|h: int|
            0 <= h < hosts.len() && (#[trigger] hosts[h])@ == ip) && ports_of(rs, ip).len()
            == 0) implies #[trigger] c.contains(ip) by {
            let h = choose|h: int| 0 <= h < hosts.len() && hosts[h]@ == ip;
            if h < hosts.len() - 1 {
                assert(prefix[h]@ == ip);
                assert(c0.contains(ip));
                let w = choose|w: int| 0 <= w < c0.len() && c0[w] == ip;
                assert(c[w] == ip);
            } else {
                if c0.contains(ip) {
                    let w = choose|w: int| 0 <= w < c0.len() && c0[w] == ip;
                    assert(c[w] == ip);
                } else {
                    assert(c[c.len() - 1] == ip);
                }
            }
        };
    }
}

/// Law: the summary lists each host exactly once — every host that appears
/// in the results (necessarily with at least one open port, hence FAIL),
/// and every scanned host with no open-port result (an empty port list,
/// hence PASS) — and no other row.
pub proof fn lemma_summary_covers_hosts(hosts: Seq<String>, rs: Seq<SpecScanResult>)
    ensures
        forall|ip: Seq<char>|
            #[trigger] summary_ips(hosts, rs).contains(ip) <==> ((exists|i: int|
                0 <= i < rs.len() && (#[trigger] rs[i]).ip == ip) || ((exists|h: int|
                0 <= h < hosts.len() && (#[trigger] hosts[h])@ == ip) && ports_of(rs, ip).len()
                == 0)),
        forall|i: int, j: int|
            0 <= i < j < summary_ips(hosts, rs).len() ==> summary_ips(hosts, rs)[i]
                != summary_ips(hosts, rs)[j],
{
    lemma_distinct_ips_covers(rs);
    lemma_clean_hosts_covers(hosts, rs);
    let d = distinct_ips(rs);
    let c = clean_hosts(hosts, rs);
    let s = summary_ips(hosts, rs);
    assert forall|ip: Seq<char>| #[trigger] s.contains(ip) implies (d.contains(ip) || c.contains(
        ip,
    )) by {
        let w = choose|w: int| 0 <= w < s.len() && s[w] == ip;
        if w < d.len() {
            assert(d[w] == ip);
        } else {
            assert(c[w - d.len()] == ip);
        }
    };
    assert forall|ip: Seq<char>| (d.contains(ip) || c.contains(ip)) implies #[trigger] s.contains(
        ip,
    ) by {
        if d.contains(ip) {
            let w = choose|w: int| 0 <= w < d.len() && d[w] == ip;
            assert(s[w] == ip);
        } else {
            let w = choose|w: int| 0 <= w < c.len() && c[w] == ip;
            assert(s[d.len() + w] == ip);
        }
    };
    assert forall|i: int, j: int| 0 <= i < j < s.len() implies s[i] != s[j] by {
        if i < d.len() && j >= d.len() {
            assert(s[i] == d[i]);
            assert(s[j] == c[j - d.len()]);
            assert(d.contains(d[i]));
            assert(c.contains(c[j - d.len()]));
        }
    };
}

/// One row of the compliance summary.
pub struct HostSummary {
    pub ip: String,
    pub open_count: usize,
    pub ports: Vec<u16>,
    pub pass: bool,
}

/// The distinct host IPs of `results`, in order of first appearance.
#[verifier::loop_isolation(false)]
fn distinct_ips_exec(results: &Vec<ScanResult>) -> (r: Vec<String>)
    ensures
        r@.map_values(|s: String| s@) == distinct_ips(results_view(results@)),
{
    let ghost rv = results_view(results@);
    let mut r: Vec<String> = Vec::new();
    let mut i: usize = 0;
    proof {
        assert(rv.take(0) =~= Seq::<SpecScanResult>::empty());
        assert(r@.map_values(|s: String| s@) =~= Seq::<Seq<char>>::empty());
    }
    while i < results.len()
        invariant
            i <= results.len(),
            r@.map_values(|s: String| s@) == distinct_ips(rv.take(i as int)),
        decreases results.len() - i,
    {
        let ghost d = distinct_ips(rv.take(i as int));
        let mut found = false;
        let mut k: usize = 0;
        while k < r.len()
            invariant
                k <= r.len(),
                found ==> d.contains(rv[i as int].ip),
                !found ==> forall|j: int| 0 <= j < k ==> r@[j]@ != rv[i as int].ip,
            decreases r.len() - k,
        {
            if r[k] == results[i].ip {
                proof {
                    assert(d[k as int] == r@[k as int]@);
                }
                found = true;
                k = r.len();
            } else {
                k += 1;
            }
        }
        proof {
            assert(rv.take(i + 1).drop_last() =~= rv.take(i as int));
            assert(rv.take(i + 1).last() == rv[i as int]);
        }
        if !found {
            proof {
                assert(!d.contains(rv[i as int].ip)) by {
                    if d.contains(rv[i as int].ip) {
                        let w = choose|w: int| 0 <= w < d.len() && d[w] == rv[i as int].ip;
                        assert(r@[w]@ == rv[i as int].ip);
                    }
                }
            }
            let ghost r0 = r@;
            r.push(results[i].ip.clone());
            proof {
                assert(r@.map_values(|s: String| s@) =~= r0.map_values(|s: String| s@).push(
                    rv[i as int].ip,
                ));
            }
        }
        proof {
            assert(r@.map_values(|s: String| s@) =~= distinct_ips(rv.take(i + 1)));
        }
        i += 1;
    }
    proof {
        assert(rv.take(rv.len() as int) =~= rv);
    }
    r
}

/// All ports reported for `ip`, in order, duplicates kept.
#[verifier::loop_isolation(false)]
fn ports_for_ip(results: &Vec<ScanResult>, ip: &String) -> (r: Vec<u16>)
    ensures
        r@ == ports_of(results_view(results@), ip@),
{
    let ghost rv = results_view(results@);
    let mut r: Vec<u16> = Vec::new();
    let mut i: usize = 0;
    proof {
        assert(rv.take(0) =~= Seq::<SpecScanResult>::empty());
    }
    while i < results.len()
        invariant
            i <= results.len(),
            r@ == ports_of(rv.take(i as int), ip@),
        decreases results.len() - i,
    {
        proof {
            assert(rv.take(i + 1).drop_last() =~= rv.take(i as int));
            assert(rv.take(i + 1).last() == rv[i as int]);
        }
        if results[i].ip == *ip {
            r.push(results[i].port);
        }
        i += 1;
    }
    proof {
        assert(rv.take(rv.len() as int) =~= rv);
    }
    r
}

/// Builds the per-host compliance summary: one row per IP of
/// `summary_ips(hosts@, results)` — the hosts appearing in `results`, in
/// first-appearance order, then the scanned hosts with no reported port, in
/// host-list order, each once. A row's port list is exactly the ports
/// reported for that IP, in order and with duplicates kept; its count is the
/// list's length; and it passes iff no open port was reported for the IP.
#[verifier::loop_isolation(false)]
pub fn compliance_summary(hosts: &Vec<String>, results: &Vec<ScanResult>) -> (r: Vec<HostSummary>)
    ensures
        r@.len() == summary_ips(hosts@, results_view(results@)).len(),
        forall|i: int| 0 <= i < r@.len() ==> {
            let rv = results_view(results@);
            let ips = summary_ips(hosts@, rv);
            &&& (#[trigger] r@[i]).ip@ == ips[i]
            &&& r@[i].ports@ == ports_of(rv, ips[i])
            &&& r@[i].open_count == ports_of(rv, ips[i]).len()
            &&& r@[i].pass == (ports_of(rv, ips[i]).len() == 0)
        },
{
    let ghost rv = results_view(results@);
    let mut ips = distinct_ips_exec(results);
    let base = ips.len();
    let mut h: usize = 0;
    proof {
        assert(clean_hosts(hosts@.take(0), rv) =~= Seq::<Seq<char>>::empty());
        assert(ips@.map_values(|s: String| s@) =~= distinct_ips(rv) + clean_hosts(
            hosts@.take(0),
            rv,
        ));
    }
    while h < hosts.len()
        invariant
            h <= hosts.len(),
            base <= ips.len(),
            base == distinct_ips(rv).len(),
            ips@.map_values(|s: String| s@) == distinct_ips(rv) + clean_hosts(
                hosts@.take(h as int),
                rv,
            ),
        decreases hosts.len() - h,
    {
        let ghost c = clean_hosts(hosts@.take(h as int), rv);
        proof {
            assert(hosts@.take(h + 1).drop_last() =~= hosts@.take(h as int));
            assert(hosts@.take(h + 1).last() == hosts@[h as int]);
        }
        let ports = ports_for_ip(results, &hosts[h]);
        if ports.len() == 0 {
            let mut found = false;
            let mut k: usize = base;
            while k < ips.len()
                invariant
                    base <= k <= ips.len(),
                    found ==> c.contains(hosts@[h as int]@),
                    !found ==> forall|j: int| base <= j < k ==> ips@[j]@ != hosts@[h as int]@,
                decreases ips.len() - k,
            {
                if ips[k] == hosts[h] {
                    proof {
                        assert(ips@.map_values(|s: String| s@)[k as int] == ips@[k as int]@);
                        assert((distinct_ips(rv) + c)[k as int] == c[k - base]);
                        assert(c.contains(c[k - base]));
                    }
                    found = true;
                    k = ips.len();
                } else {
                    k += 1;
                }
            }
            if !found {
                proof {
                    assert(!c.contains(hosts@[h as int]@)) by {
                        if c.contains(hosts@[h as int]@) {
                            let w = choose|w: int| 0 <= w < c.len() && c[w] == hosts@[h as int]@;
                            assert(ips@.map_values(|s: String| s@).len() == ips@.len());
                            assert(ips@.map_values(|s: String| s@)[base + w] == ips@[base + w]@);
                            assert((distinct_ips(rv) + c)[base + w] == c[w]);
                            assert(ips@[base + w]@ == hosts@[h as int]@);
                        }
                    }
                }
                let ghost ips0 = ips@;
                ips.push(hosts[h].clone());
                proof {
                    assert(ips@.map_values(|s: String| s@) =~= ips0.map_values(
                        |s: String| s@,
                    ).push(hosts@[h as int]@));
                    assert(ips@.map_values(|s: String| s@) =~= distinct_ips(rv) + clean_hosts(
                        hosts@.take(h + 1),
                        rv,
                    ));
                }
            } else {
                proof {
                    assert(ips@.map_values(|s: String| s@) =~= distinct_ips(rv) + clean_hosts(
                        hosts@.take(h + 1),
                        rv,
                    ));
                }
            }
        } else {
            proof {
                assert(ips@.map_values(|s: String| s@) =~= distinct_ips(rv) + clean_hosts(
                    hosts@.take(h + 1),
                    rv,
                ));
            }
        }
        h += 1;
    }
    proof {
        assert(hosts@.take(hosts@.len() as int) =~= hosts@);
        assert(ips@.map_values(|s: String| s@) == summary_ips(hosts@, rv));
    }
    let mut r: Vec<HostSummary> = Vec::new();
    let mut k: usize = 0;
    while k < ips.len()
        invariant
            k <= ips.len(),
            r@.len() == k,
            ips@.map_values(|s: String| s@) == summary_ips(hosts@, rv),
            forall|i: int| 0 <= i < k ==> {
                let sips = summary_ips(hosts@, rv);
                &&& (#[trigger] r@[i]).ip@ == sips[i]
                &&& r@[i].ports@ == ports_of(rv, sips[i])
                &&& r@[i].open_count == ports_of(rv, sips[i]).len()
                &&& r@[i].pass == (ports_of(rv, sips[i]).len() == 0)
            },
        decreases ips.len() - k,
    {
        let ports = ports_for_ip(results, &ips[k]);
        let open_count = ports.len();
        let pass = open_count == 0;
        let row = HostSummary { ip: ips[k].clone(), open_count, ports, pass };
        r.push(row);
        k += 1;
    }
    r
}

/// A summary row's port list rendered as decimal numbers joined with
/// `", "`, in order.
#[verifier::loop_isolation(false)]
pub fn ports_joined(ports: &Vec<u16>) -> (r: String)
    ensures
        r@ == join(ports@.map_values(|p: u16| dec_str(p as int)), ", "@),
{
    let mut parts: Vec<String> = Vec::new();
    let mut i: usize = 0;
    proof {
        assert(strings_view(parts@) =~= ports@.take(0).map_values(|p: u16| dec_str(p as int)));
    }
    while i < ports.len()
        invariant
            i <= ports.len(),
            strings_view(parts@) == ports@.take(i as int).map_values(
                |p: u16| dec_str(p as int),
            ),
        decreases ports.len() - i,
    {
        let digits = usize_dec_chars(ports[i] as usize);
        let ghost parts0 = parts@;
        parts.push(chars_to_string(&digits));
        proof {
            let f = |p: u16| dec_str(p as int);
            assert(strings_view(parts@) =~= strings_view(parts0).push(
                dec_str(ports@[i as int] as int),
            ));
            assert(ports@.take(i + 1).map_values(f) =~= ports@.take(i as int).map_values(f).push(
                f(ports@[i as int]),
            ));
            assert(strings_view(parts@) =~= ports@.take(i + 1).map_values(f));
        }
        i += 1;
    }
    proof {
        assert(ports@.take(ports@.len() as int) =~= ports@);
    }
    join_strings(&parts, ", ")
}

/// The style class of one HTML report row: `fail` for an open port,
/// `pass` otherwise.
pub fn row_class(result: &ScanResult) -> (c: String)
    ensures
        result@.state == "open"@ ==> c@ == "fail"@,
        result@.state != "open"@ ==> c@ == "pass"@,
{
    let open_label = String::from_str("open");
    if result.state == open_label {
        String::from_str("fail")
    } else {
        String::from_str("pass")
    }
}

} // verus!
