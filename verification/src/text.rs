//! Verified text utilities over character sequences: substring search,
//! splitting, whitespace handling, decimal parsing and formatting, joining.
//!
//! Executable code works on `Vec<char>`; every function is specified against
//! a spec function over `Seq<char>`.

use vstd::prelude::*;

verus! {

/// Whitespace characters recognized when splitting fields (ASCII whitespace).
pub open spec fn is_space(c: char) -> bool {
    c == ' ' || c == '\t' || c == '\n' || c == '\r' || c == '\u{0b}' || c == '\u{0c}'
}

pub fn is_space_exec(c: char) -> (r: bool)
    ensures
        r == is_space(c),
{
    c == ' ' || c == '\t' || c == '\n' || c == '\r' || c == '\u{0b}' || c == '\u{0c}'
}

/// ASCII decimal digit.
pub open spec fn is_digit(c: char) -> bool {
    48 <= c as u32 <= 57
}

pub open spec fn digit_val(c: char) -> int {
    c as u32 - 48
}

/// The view of a vector of character vectors as a sequence of sequences.
pub open spec fn pieces_view(r: Seq<Vec<char>>) -> Seq<Seq<char>> {
    r.map_values(|v: Vec<char>| v@)
}

/// The view of a vector of strings as a sequence of character sequences.
pub open spec fn strings_view(r: Seq<String>) -> Seq<Seq<char>> {
    r.map_values(|v: String| v@)
}

/// Copies `v[from..to]` into a fresh vector.
pub fn subvec(v: &Vec<char>, from: usize, to: usize) -> (r: Vec<char>)
    requires
        from <= to <= v.len(),
    ensures
        r@ == v@.subrange(from as int, to as int),
{
    let mut r: Vec<char> = Vec::new();
    let mut i: usize = from;
    while i < to
        invariant
            from <= i <= to <= v.len(),
            r@ == v@.subrange(from as int, i as int),
        decreases to - i,
    {
        r.push(v[i]);
        proof {
            assert(r@ =~= v@.subrange(from as int, i + 1 as int));
        }
        i += 1;
    }
    r
}

/// Converts a string slice to the vector of its characters.
pub fn str_to_chars(s: &str) -> (r: Vec<char>)
    ensures
        r@ == s@,
{
    let n = s.unicode_len();
    let mut r: Vec<char> = Vec::new();
    let mut i: usize = 0;
    while i < n
        invariant
            i <= n,
            n == s@.len(),
            r@ == s@.take(i as int),
        decreases n - i,
    {
        r.push(s.get_char(i));
        proof {
            assert(r@ =~= s@.take(i + 1 as int));
        }
        i += 1;
    }
    proof {
        assert(s@.take(n as int) =~= s@);
    }
    r
}

/// Builds a `String` from a vector of characters.
///
/// Relies on `String`'s `FromIterator<&char>` implementation: collecting an
/// in-order iterator over characters yields the string of exactly those
/// characters, in order.
#[verifier::external_body]
pub fn chars_to_string(v: &Vec<char>) -> (r: String)
    ensures
        r@ == v@,
{
    v.iter().collect()
}

/// True iff `v` holds exactly the characters of `s`.
pub fn eq_str(v: &Vec<char>, s: &str) -> (r: bool)
    ensures
        r == (v@ == s@),
{
    let n = s.unicode_len();
    if n != v.len() {
        return false;
    }
    let mut i: usize = 0;
    while i < n
        invariant
            i <= n,
            n == s@.len() == v@.len(),
            forall|k: int| 0 <= k < i ==> v@[k] == s@[k],
        decreases n - i,
    {
        if v[i] != s.get_char(i) {
            return false;
        }
        i += 1;
    }
    proof {
        assert(v@ =~= s@);
    }
    true
}

/// True iff `p` is a prefix of `s`.
pub open spec fn starts_with(s: Seq<char>, p: Seq<char>) -> bool {
    p.len() <= s.len() && s.take(p.len() as int) == p
}

pub fn starts_with_exec(v: &Vec<char>, p: &str) -> (r: bool)
    ensures
        r == starts_with(v@, p@),
{
    let n = p.unicode_len();
    if n > v.len() {
        return false;
    }
    let mut i: usize = 0;
    while i < n
        invariant
            i <= n,
            n == p@.len(),
            n <= v@.len(),
            forall|k: int| 0 <= k < i ==> v@[k] == p@[k],
        decreases n - i,
    {
        if v[i] != p.get_char(i) {
            proof {
                assert(v@.take(n as int)[i as int] != p@[i as int]);
            }
            return false;
        }
        i += 1;
    }
    proof {
        assert(v@.take(n as int) =~= p@);
    }
    true
}

/// Index of the first occurrence of `p` in `s` at or after position `i`.
pub open spec fn find_from(s: Seq<char>, p: Seq<char>, i: int) -> Option<int>
    decreases s.len() - i,
{
    if i < 0 || i + p.len() > s.len() {
        None
    } else if p.len() == 0 {
        Some(i)
    } else if s.subrange(i, i + p.len() as int) == p {
        Some(i)
    } else {
        find_from(s, p, i + 1)
    }
}

pub proof fn lemma_find_from_some(s: Seq<char>, p: Seq<char>, i: int, j: int)
    requires
        0 <= i,
        find_from(s, p, i) == Some(j),
    ensures
        i <= j,
        j + p.len() <= s.len(),
        p.len() > 0 ==> s.subrange(j, j + p.len() as int) == p,
    decreases s.len() - i,
{
    if i + p.len() <= s.len() && p.len() != 0 && s.subrange(i, i + p.len() as int) != p {
        lemma_find_from_some(s, p, i + 1, j);
    }
}

/// First occurrence of `p` in `v`, if any (leftmost match).
pub fn find_str(v: &Vec<char>, p: &str) -> (r: Option<usize>)
    ensures
        match r {
            Some(i) => find_from(v@, p@, 0) == Some(i as int),
            None => find_from(v@, p@, 0) is None,
        },
{
    let n = p.unicode_len();
    if n > v.len() {
        return None;
    }
    if n == 0 {
        return Some(0);
    }
    let last = v.len() - n;
    let mut i: usize = 0;
    loop
        invariant
            i <= last + 1,
            n == p@.len(),
            1 <= n <= v@.len(),
            v@.len() <= usize::MAX,
            last == v@.len() - n,
            find_from(v@, p@, 0) == find_from(v@, p@, i as int),
        decreases last + 1 - i,
    {
        if i > last {
            return None;
        }
        let mut j: usize = 0;
        let mut matched = true;
        while j < n
            invariant
                j <= n,
                i <= last,
                n == p@.len(),
                1 <= n <= v@.len(),
                v@.len() <= usize::MAX,
                last == v@.len() - n,
                matched ==> forall|k: int| 0 <= k < j ==> v@[i + k] == p@[k],
                !matched ==> v@.subrange(i as int, i + n as int) != p@,
            decreases n - j,
        {
            if v[i + j] != p.get_char(j) {
                proof {
                    assert(v@.subrange(i as int, i + n as int)[j as int] != p@[j as int]);
                }
                matched = false;
                j = n;
            } else {
                j += 1;
            }
        }
        if matched {
            proof {
                assert(v@.subrange(i as int, i + n as int) =~= p@);
            }
            return Some(i);
        }
        i += 1;
    }
}

/// Pieces of `s` split at `sep`, with `cur` the piece read so far.
pub open spec fn split_acc(s: Seq<char>, sep: char, cur: Seq<char>) -> Seq<Seq<char>>
    decreases s.len(),
{
    if s.len() == 0 {
        seq![cur]
    } else if s[0] == sep {
        seq![cur] + split_acc(s.drop_first(), sep, Seq::empty())
    } else {
        split_acc(s.drop_first(), sep, cur.push(s[0]))
    }
}

/// Splits `s` at every occurrence of `sep`; a string with `k` separators
/// yields `k + 1` pieces (empty pieces are kept).
pub open spec fn split_char(s: Seq<char>, sep: char) -> Seq<Seq<char>> {
    split_acc(s, sep, Seq::empty())
}

pub fn split_char_exec(v: &Vec<char>, sep: char) -> (r: Vec<Vec<char>>)
    ensures
        pieces_view(r@) == split_char(v@, sep),
{
    let mut r: Vec<Vec<char>> = Vec::new();
    let mut cur: Vec<char> = Vec::new();
    let mut i: usize = 0;
    proof {
        assert(v@.skip(0) =~= v@);
        assert(pieces_view(r@) + split_acc(v@, sep, cur@) =~= split_acc(v@, sep, Seq::empty()));
    }
    while i < v.len()
        invariant
            i <= v.len(),
            pieces_view(r@) + split_acc(v@.skip(i as int), sep, cur@) == split_char(v@, sep),
        decreases v.len() - i,
    {
        let ghost t = v@.skip(i as int);
        proof {
            assert(t.drop_first() =~= v@.skip(i + 1));
            assert(t[0] == v@[i as int]);
        }
        let c = v[i];
        if c == sep {
            let ghost r0 = r@;
            let ghost w = cur@;
            r.push(cur);
            cur = Vec::new();
            proof {
                assert(pieces_view(r@) =~= pieces_view(r0).push(w));
                assert(pieces_view(r@) + split_acc(v@.skip(i + 1), sep, Seq::empty())
                    =~= pieces_view(r0) + (seq![w] + split_acc(
                    v@.skip(i + 1),
                    sep,
                    Seq::empty(),
                )));
            }
        } else {
            cur.push(c);
        }
        i += 1;
    }
    proof {
        assert(v@.skip(v@.len() as int) =~= Seq::<char>::empty());
    }
    let ghost r0 = r@;
    let ghost w = cur@;
    r.push(cur);
    proof {
        assert(pieces_view(r@) =~= pieces_view(r0).push(w));
        assert(pieces_view(r@) =~= pieces_view(r0) + seq![w]);
    }
    r
}

/// Whitespace-separated words of `s`, with `cur` the word read so far.
pub open spec fn words_acc(s: Seq<char>, cur: Seq<char>) -> Seq<Seq<char>>
    decreases s.len(),
{
    if s.len() == 0 {
        if cur.len() == 0 {
            Seq::empty()
        } else {
            seq![cur]
        }
    } else if is_space(s[0]) {
        if cur.len() == 0 {
            words_acc(s.drop_first(), Seq::empty())
        } else {
            seq![cur] + words_acc(s.drop_first(), Seq::empty())
        }
    } else {
        words_acc(s.drop_first(), cur.push(s[0]))
    }
}

/// The whitespace-separated words of `s`, in order, with no empty words.
pub open spec fn words(s: Seq<char>) -> Seq<Seq<char>> {
    words_acc(s, Seq::empty())
}

pub fn words_exec(v: &Vec<char>) -> (r: Vec<Vec<char>>)
    ensures
        pieces_view(r@) == words(v@),
{
    let mut r: Vec<Vec<char>> = Vec::new();
    let mut cur: Vec<char> = Vec::new();
    let mut i: usize = 0;
    proof {
        assert(v@.skip(0) =~= v@);
        assert(pieces_view(r@) + words_acc(v@, cur@) =~= words_acc(v@, Seq::empty()));
    }
    while i < v.len()
        invariant
            i <= v.len(),
            pieces_view(r@) + words_acc(v@.skip(i as int), cur@) == words(v@),
        decreases v.len() - i,
    {
        let ghost t = v@.skip(i as int);
        proof {
            assert(t.drop_first() =~= v@.skip(i + 1));
            assert(t[0] == v@[i as int]);
        }
        let c = v[i];
        if is_space_exec(c) {
            if cur.len() > 0 {
                let ghost r0 = r@;
                let ghost w = cur@;
                r.push(cur);
                cur = Vec::new();
                proof {
                    assert(pieces_view(r@) =~= pieces_view(r0).push(w));
                    assert(pieces_view(r@) + words_acc(v@.skip(i + 1), Seq::empty())
                        =~= pieces_view(r0) + (seq![w] + words_acc(
                        v@.skip(i + 1),
                        Seq::empty(),
                    )));
                }
            } else {
                proof {
                    assert(cur@ =~= Seq::<char>::empty());
                }
            }
        } else {
            cur.push(c);
        }
        i += 1;
    }
    proof {
        assert(v@.skip(v@.len() as int) =~= Seq::<char>::empty());
    }
    if cur.len() > 0 {
        let ghost r0 = r@;
        let ghost w = cur@;
        r.push(cur);
        proof {
            assert(pieces_view(r@) =~= pieces_view(r0).push(w));
            assert(pieces_view(r@) =~= pieces_view(r0) + seq![w]);
        }
    } else {
        proof {
            assert(pieces_view(r@) + words_acc(Seq::<char>::empty(), cur@) =~= pieces_view(r@));
        }
    }
    r
}

/// `s` without leading and trailing whitespace.
pub open spec fn trim(s: Seq<char>) -> Seq<char>
    decreases s.len(),
{
    if s.len() == 0 {
        s
    } else if is_space(s[0]) {
        trim(s.drop_first())
    } else if is_space(s.last()) {
        trim(s.drop_last())
    } else {
        s
    }
}

pub fn trim_exec(v: &Vec<char>) -> (r: Vec<char>)
    ensures
        r@ == trim(v@),
{
    let mut lo: usize = 0;
    let mut hi: usize = v.len();
    proof {
        assert(v@.subrange(0, v@.len() as int) =~= v@);
    }
    loop
        invariant
            lo <= hi <= v.len(),
            trim(v@.subrange(lo as int, hi as int)) == trim(v@),
        ensures
            lo <= hi <= v.len(),
            v@.subrange(lo as int, hi as int) == trim(v@),
        decreases hi - lo,
    {
        let ghost t = v@.subrange(lo as int, hi as int);
        if lo < hi && is_space_exec(v[lo]) {
            proof {
                assert(t.drop_first() =~= v@.subrange(lo + 1, hi as int));
            }
            lo += 1;
        } else if lo < hi && is_space_exec(v[hi - 1]) {
            proof {
                assert(t.drop_last() =~= v@.subrange(lo as int, hi - 1));
            }
            hi -= 1;
        } else {
            break;
        }
    }
    subvec(v, lo, hi)
}

/// Value of a sequence of decimal digits.
pub open spec fn digits_val(s: Seq<char>) -> int
    decreases s.len(),
{
    if s.len() == 0 {
        0
    } else {
        digits_val(s.drop_last()) * 10 + digit_val(s.last())
    }
}

/// True iff `s` is one or more decimal digits.
pub open spec fn is_digits(s: Seq<char>) -> bool {
    s.len() > 0 && forall|i: int| 0 <= i < s.len() ==> is_digit(#[trigger] s[i])
}

/// A port token parses iff it is all digits and its value fits in a `u16`.
pub open spec fn parse_port(s: Seq<char>) -> Option<u16> {
    if is_digits(s) && digits_val(s) <= 65535 {
        Some(digits_val(s) as u16)
    } else {
        None
    }
}

pub fn parse_port_exec(v: &Vec<char>) -> (r: Option<u16>)
    ensures
        r == parse_port(v@),
{
    if v.len() == 0 {
        return None;
    }
    let mut val: u32 = 0;
    let mut over = false;
    let mut i: usize = 0;
    while i < v.len()
        invariant
            i <= v.len(),
            forall|k: int| 0 <= k < i ==> is_digit(#[trigger] v@[k]),
            !over ==> val as int == digits_val(v@.take(i as int)) && val <= 65535,
            over ==> digits_val(v@.take(i as int)) > 65535,
        decreases v.len() - i,
    {
        let ghost pre = v@.take(i as int);
        let c = v[i];
        let cv = c as u32;
        if cv < 48 || cv > 57 {
            return None;
        }
        let d: u32 = cv - 48;
        proof {
            assert(v@.take(i + 1).drop_last() =~= pre);
            assert(v@.take(i + 1).last() == v@[i as int]);
            assert(digits_val(v@.take(i + 1)) == digits_val(pre) * 10 + d);
        }
        if !over {
            let nv = val * 10 + d;
            if nv > 65535 {
                over = true;
            } else {
                val = nv;
            }
        } else {
            proof {
                assert(digits_val(pre) * 10 >= digits_val(pre)) by (nonlinear_arith)
                    requires digits_val(pre) >= 0;
            }
        }
        i += 1;
    }
    proof {
        assert(v@.take(v@.len() as int) =~= v@);
    }
    if over {
        None
    } else {
        Some(val as u16)
    }
}

/// The decimal digit character for `d` in `0..=9`.
pub open spec fn digit_char(d: int) -> char {
    if d == 0 { '0' }
    else if d == 1 { '1' }
    else if d == 2 { '2' }
    else if d == 3 { '3' }
    else if d == 4 { '4' }
    else if d == 5 { '5' }
    else if d == 6 { '6' }
    else if d == 7 { '7' }
    else if d == 8 { '8' }
    else { '9' }
}

fn digit_char_exec(d: usize) -> (c: char)
    requires
        d <= 9,
    ensures
        c == digit_char(d as int),
{
    match d {
        0 => '0',
        1 => '1',
        2 => '2',
        3 => '3',
        4 => '4',
        5 => '5',
        6 => '6',
        7 => '7',
        8 => '8',
        _ => '9',
    }
}

/// Decimal representation of a nonnegative number, without leading zeros.
pub open spec fn dec_str(n: int) -> Seq<char>
    decreases n,
{
    if n <= 9 {
        seq![digit_char(n)]
    } else {
        dec_str(n / 10).push(digit_char(n % 10))
    }
}

/// The decimal digits of `n`.
pub fn usize_dec_chars(n: usize) -> (r: Vec<char>)
    ensures
        r@ == dec_str(n as int),
    decreases n,
{
    if n <= 9 {
        let mut r: Vec<char> = Vec::new();
        r.push(digit_char_exec(n));
        proof {
            assert(r@ =~= seq![digit_char(n as int)]);
        }
        r
    } else {
        let mut r = usize_dec_chars(n / 10);
        r.push(digit_char_exec(n % 10));
        r
    }
}

/// The pieces of `parts` joined with `sep` between consecutive pieces.
pub open spec fn join(parts: Seq<Seq<char>>, sep: Seq<char>) -> Seq<char>
    decreases parts.len(),
{
    if parts.len() == 0 {
        Seq::empty()
    } else if parts.len() == 1 {
        parts[0]
    } else {
        join(parts.drop_last(), sep) + sep + parts.last()
    }
}

/// Joins a list of strings with the separator `sep`.
pub fn join_strings(parts: &Vec<String>, sep: &str) -> (r: String)
    ensures
        r@ == join(strings_view(parts@), sep@),
{
    let mut r = String::new();
    let mut i: usize = 0;
    while i < parts.len()
        invariant
            i <= parts.len(),
            r@ == join(strings_view(parts@.take(i as int)), sep@),
        decreases parts.len() - i,
    {
        if i > 0 {
            r.append(sep);
        }
        r.append(parts[i].as_str());
        proof {
            let pv = strings_view(parts@.take(i + 1));
            assert(pv.drop_last() =~= strings_view(parts@.take(i as int)));
            assert(pv.last() == parts@[i as int]@);
        }
        i += 1;
    }
    proof {
        assert(parts@.take(parts@.len() as int) =~= parts@);
    }
    r
}

} // verus!
