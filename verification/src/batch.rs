//! Host batching: split an ordered host list into fixed-size groups,
//! preserving order, so that concatenating the groups reproduces the input.

use vstd::prelude::*;

verus! {

/// Concatenation of a sequence of batches, in order.
pub open spec fn concat_batches(batches: Seq<Seq<String>>) -> Seq<String>
    decreases batches.len(),
{
    if batches.len() == 0 {
        Seq::empty()
    } else {
        concat_batches(batches.drop_last()) + batches.last()
    }
}

/// The view of a vector of batches as a sequence of sequences.
pub open spec fn batches_view(batches: Seq<Vec<String>>) -> Seq<Seq<String>> {
    batches.map_values(|b: Vec<String>| b@)
}

/// The non-empty lines of a host-list file, in order: the host tokens.
pub open spec fn nonempty_lines(ls: Seq<String>) -> Seq<String>
    decreases ls.len(),
{
    if ls.len() == 0 {
        Seq::empty()
    } else {
        nonempty_lines(ls.drop_last()) + (if ls.last()@.len() == 0 {
            Seq::<String>::empty()
        } else {
            seq![ls.last()]
        })
    }
}

/// Selects the host tokens from the lines of a host-list file: every
/// non-empty line, in order; blank lines are ignored.
#[verifier::loop_isolation(false)]
pub fn select_hosts(lines: &Vec<String>) -> (r: Vec<String>)
    ensures
        r@ == nonempty_lines(lines@),
{
    let mut r: Vec<String> = Vec::new();
    let mut i: usize = 0;
    proof {
        assert(lines@.take(0) =~= Seq::<String>::empty());
    }
    while i < lines.len()
        invariant
            i <= lines.len(),
            r@ == nonempty_lines(lines@.take(i as int)),
        decreases lines.len() - i,
    {
        proof {
            assert(lines@.take(i + 1).drop_last() =~= lines@.take(i as int));
            assert(lines@.take(i + 1).last() == lines@[i as int]);
        }
        if !lines[i].as_str().is_empty() {
            r.push(lines[i].clone());
            proof {
                assert(r@ =~= nonempty_lines(lines@.take(i + 1)));
            }
        } else {
            proof {
                assert(r@ =~= nonempty_lines(lines@.take(i + 1)));
            }
        }
        i += 1;
    }
    proof {
        assert(lines@.take(lines@.len() as int) =~= lines@);
    }
    r
}

/// Splits `hosts` into consecutive groups of exactly `chunk_size` elements,
/// except that the last group may be shorter (but never empty).
///
/// Concatenating the groups in order reproduces `hosts` exactly, and the
/// number of groups is `ceil(hosts.len() / chunk_size)`.
pub fn chunk_hosts(hosts: &Vec<String>, chunk_size: usize) -> (r: Vec<Vec<String>>)
    requires
        chunk_size > 0,
    ensures
        concat_batches(batches_view(r@)) == hosts@,
        forall|i: int| 0 <= i < r@.len() - 1 ==> #[trigger] r@[i]@.len() == chunk_size,
        r@.len() > 0 ==> 0 < r@.last()@.len() <= chunk_size,
        r@.len() == (hosts@.len() + chunk_size - 1) / (chunk_size as int),
        forall|i: int| 0 <= i < r@.len() ==> #[trigger] r@[i]@.len() > 0,
{
    let mut r: Vec<Vec<String>> = Vec::new();
    let mut start: usize = 0;
    while start < hosts.len()
        invariant
            start <= hosts.len(),
            chunk_size > 0,
            concat_batches(batches_view(r@)) == hosts@.take(start as int),
            forall|i: int| 0 <= i < r@.len() - 1 ==> #[trigger] r@[i]@.len() == chunk_size,
            r@.len() > 0 ==> 0 < r@.last()@.len() <= chunk_size,
            forall|i: int| 0 <= i < r@.len() ==> #[trigger] r@[i]@.len() > 0,
            start < hosts.len() ==> (forall|i: int|
                0 <= i < r@.len() ==> #[trigger] r@[i]@.len() == chunk_size),
            start < hosts.len() ==> start == r@.len() * chunk_size,
            start == hosts.len() ==> start <= r@.len() * chunk_size,
            r@.len() > 0 ==> (r@.len() - 1) * chunk_size < start,
            r@.len() == 0 ==> start == 0,
        decreases hosts.len() - start,
    {
        let end: usize = if hosts.len() - start < chunk_size {
            hosts.len()
        } else {
            start + chunk_size
        };
        let mut group: Vec<String> = Vec::new();
        let mut j: usize = start;
        while j < end
            invariant
                start <= j <= end <= hosts.len(),
                group@ == hosts@.subrange(start as int, j as int),
            decreases end - j,
        {
            group.push(hosts[j].clone());
            j += 1;
        }
        let ghost r0 = r@;
        let ghost k = r@.len() as int;
        proof {
            assert(group@ == hosts@.subrange(start as int, end as int));
            assert((k + 1) * chunk_size == k * chunk_size + chunk_size) by (nonlinear_arith);
        }
        r.push(group);
        proof {
            assert(batches_view(r@) =~= batches_view(r0).push(group@));
            assert(batches_view(r@).drop_last() =~= batches_view(r0));
            assert(batches_view(r@).last() == group@);
            assert(concat_batches(batches_view(r@)) == concat_batches(batches_view(r0))
                + group@);
            assert(hosts@.take(start as int) + hosts@.subrange(start as int, end as int)
                =~= hosts@.take(end as int));
        }
        start = end;
    }
    proof {
        assert(hosts@.take(hosts@.len() as int) =~= hosts@);
        let n = hosts@.len() as int;
        let c = chunk_size as int;
        let k = r@.len() as int;
        if k == 0 {
            assert(n == 0);
            assert((n + c - 1) / c == 0) by (nonlinear_arith)
                requires n == 0 && c > 0;
        } else {
            assert((k - 1) * c < n <= k * c);
            assert(k == (n + c - 1) / c) by (nonlinear_arith)
                requires c > 0 && (k - 1) * c < n <= k * c;
        }
    }
    r
}

} // verus!
