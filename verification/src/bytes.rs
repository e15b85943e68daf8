//! Byte-sequence algorithms underlying the assertion helpers: equality,
//! substring search, line splitting in the style of a text tool (segments
//! separated by a line feed, no empty segment after a trailing line feed),
//! counting matching lines, and decimal parsing.

use vstd::prelude::*;
use vstd::slice::slice_subrange;
use vstd::slice::slice_to_vec;

verus! {

broadcast use vstd::slice::axiom_spec_len;

/// The needle `n` occurs in `h` starting at position `i`.
pub open spec fn contains_at(h: Seq<u8>, n: Seq<u8>, i: int) -> bool {
    0 <= i && i + n.len() <= h.len() && h.subrange(i, i + n.len()) == n
}

/// The needle `n` occurs somewhere in `h`.
pub open spec fn contains_seq(h: Seq<u8>, n: Seq<u8>) -> bool {
    exists|i: int| contains_at(h, n, i)
}

/// An owned copy of a byte vector.
pub fn copy_bytes(v: &Vec<u8>) -> (r: Vec<u8>)
    ensures
        r@ == v@,
{
    slice_to_vec(v.as_slice())
}

/// Byte-for-byte equality of two slices.
pub fn bytes_eq(a: &[u8], b: &[u8]) -> (r: bool)
    ensures
        r == (a@ == b@),
{
    if a.len() != b.len() {
        return false;
    }
    let mut i: usize = 0;
    while i < a.len()
        invariant
            i <= a@.len(),
            a@.len() == b@.len(),
            forall|j: int| 0 <= j < i ==> a@[j] == b@[j],
        decreases a@.len() - i,
    {
        if a[i] != b[i] {
            return false;
        }
        i = i + 1;
    }
    proof {
        assert(a@ =~= b@);
    }
    true
}

/// Whether `n` occurs in `h` exactly at position `i`.
fn matches_at(h: &[u8], n: &[u8], i: usize) -> (r: bool)
    requires
        i + n@.len() <= h@.len(),
    ensures
        r == contains_at(h@, n@, i as int),
{
    let mut j: usize = 0;
    while j < n.len()
        invariant
            j <= n@.len(),
            i + n@.len() <= h.len(),
            forall|k: int| 0 <= k < j ==> h@[i + k] == n@[k],
        decreases n@.len() - j,
    {
        if h[i + j] != n[j] {
            proof {
                assert(h@.subrange(i as int, i + n@.len())[j as int] == h@[i + j]);
            }
            return false;
        }
        j = j + 1;
    }
    proof {
        assert(h@.subrange(i as int, i + n@.len()) =~= n@);
    }
    true
}

/// Substring search: does the needle occur anywhere in the haystack?
/// An empty needle occurs in every haystack.
pub fn contains_slice(h: &[u8], n: &[u8]) -> (r: bool)
    ensures
        r == contains_seq(h@, n@),
{
    if n.len() > h.len() {
        proof {
            assert(forall|i: int| !contains_at(h@, n@, i));
        }
        return false;
    }
    if n.len() == 0 {
        proof {
            assert(h@.subrange(0, 0) =~= n@);
            assert(contains_at(h@, n@, 0));
        }
        return true;
    }
    let mut i: usize = 0;
    let last = h.len() - n.len();
    while i <= last
        invariant
            last == h.len() - n@.len(),
            1 <= n@.len() <= h.len(),
            i <= last + 1,
            forall|k: int| 0 <= k < i ==> !contains_at(h@, n@, k),
        decreases last + 1 - i,
    {
        if matches_at(h, n, i) {
            return true;
        }
        i = i + 1;
    }
    proof {
        assert(forall|k: int| k > last ==> !contains_at(h@, n@, k));
    }
    false
}

/// Index of the first occurrence of `b` in `t`, or `t.len()` if there is
/// none.
pub open spec fn first_byte(t: Seq<u8>, b: u8) -> int
    decreases t.len(),
{
    if t.len() == 0 {
        0
    } else if t[0] == b {
        0
    } else {
        1 + first_byte(t.drop_first(), b)
    }
}

pub proof fn lemma_first_byte_is(t: Seq<u8>, b: u8, k: int)
    requires
        0 <= k <= t.len(),
        forall|j: int| 0 <= j < k ==> t[j] != b,
        k < t.len() ==> t[k] == b,
    ensures
        first_byte(t, b) == k,
    decreases t.len(),
{
    if t.len() == 0 {
    } else if t[0] == b {
        assert(k == 0);
    } else {
        assert(k >= 1);
        let d = t.drop_first();
        assert forall|j: int| 0 <= j < k - 1 implies d[j] != b by {
            assert(d[j] == t[j + 1]);
        }
        if k - 1 < d.len() {
            assert(d[k - 1] == t[k]);
        }
        lemma_first_byte_is(d, b, k - 1);
    }
}

/// Find the first occurrence of `b` in `t`; `t.len()` if there is none.
pub fn find_byte(t: &[u8], b: u8) -> (r: usize)
    ensures
        r == first_byte(t@, b),
        r <= t@.len(),
        forall|j: int| 0 <= j < r ==> t@[j] != b,
        r < t@.len() ==> t@[r as int] == b,
{
    let mut i: usize = 0;
    while i < t.len()
        invariant
            i <= t@.len(),
            forall|j: int| 0 <= j < i ==> t@[j] != b,
        decreases t@.len() - i,
    {
        if t[i] == b {
            proof {
                lemma_first_byte_is(t@, b, i as int);
            }
            return i;
        }
        i = i + 1;
    }
    proof {
        lemma_first_byte_is(t@, b, t@.len() as int);
    }
    i
}

/// Index of the first line feed in `t`, or `t.len()` if there is none.
pub open spec fn first_nl(t: Seq<u8>) -> int {
    first_byte(t, 10u8)
}

proof fn lemma_first_nl_is(t: Seq<u8>, k: int)
    requires
        0 <= k <= t.len(),
        forall|j: int| 0 <= j < k ==> t[j] != 10u8,
        k < t.len() ==> t[k] == 10u8,
    ensures
        first_nl(t) == k,
{
    lemma_first_byte_is(t, 10u8, k);
}

/// No two entries hold the same bytes.
pub open spec fn spec_all_distinct(s: Seq<Seq<u8>>) -> bool {
    forall|i: int, j: int| 0 <= i < j < s.len() ==> s[i] != s[j]
}

/// Search a list of byte strings for a repeated entry; a copy of one that
/// occurs twice, or `None` when all entries are distinct.
pub fn find_duplicate(v: &Vec<Vec<u8>>) -> (r: Option<Vec<u8>>)
    ensures
        r is None <==> spec_all_distinct(v.deep_view()),
        r is Some ==> exists|i: int, j: int|
            0 <= i < j < v.deep_view().len() && v.deep_view()[i] == v.deep_view()[j]
                && v.deep_view()[i] == r->0@,
{
    let ghost dv = v.deep_view();
    let mut i: usize = 0;
    while i < v.len()
        invariant
            dv == v.deep_view(),
            i <= v@.len(),
            forall|a: int, b: int| 0 <= a < b < v@.len() && a < i ==> dv[a] != dv[b],
        decreases v@.len() - i,
    {
        let mut j: usize = i + 1;
        while j < v.len()
            invariant
                dv == v.deep_view(),
                i < j || i + 1 == j,
                i < v@.len(),
                j >= i + 1,
                j <= v@.len(),
                forall|b: int| i < b < j ==> dv[i as int] != dv[b],
            decreases v@.len() - j,
        {
            if bytes_eq(v[i].as_slice(), v[j].as_slice()) {
                proof {
                    assert(v@[i as int].deep_view() =~= v@[i as int]@);
                    assert(v@[j as int].deep_view() =~= v@[j as int]@);
                    assert(dv[i as int] == dv[j as int]);
                }
                return Some(copy_bytes(&v[i]));
            }
            proof {
                assert(v@[i as int].deep_view() =~= v@[i as int]@);
                assert(v@[j as int].deep_view() =~= v@[j as int]@);
            }
            j = j + 1;
        }
        i = i + 1;
    }
    None
}

/// The lines of `t`: maximal segments separated by a line feed. A final
/// line feed closes the last line without opening an empty one, so the
/// result for `"a\n"` is one line, and for `""` no line at all.
pub open spec fn spec_lines(t: Seq<u8>) -> Seq<Seq<u8>>
    decreases t.len(),
{
    if t.len() == 0 {
        Seq::empty()
    } else {
        let k = first_nl(t);
        if 0 <= k < t.len() {
            seq![t.subrange(0, k)] + spec_lines(t.subrange(k + 1, t.len() as int))
        } else {
            seq![t]
        }
    }
}

/// Split `t` into its lines.
pub fn lines_of(t: &[u8]) -> (r: Vec<Vec<u8>>)
    ensures
        r.deep_view() == spec_lines(t@),
{
    let mut r: Vec<Vec<u8>> = Vec::new();
    let mut start: usize = 0;
    let mut i: usize = 0;
    proof {
        assert(t@.subrange(0, t.len() as int) =~= t@);
        assert(r.deep_view() + spec_lines(t@) =~~= spec_lines(t@));
    }
    while i < t.len()
        invariant
            start <= i <= t.len(),
            forall|j: int| start <= j < i ==> t@[j] != 10u8,
            spec_lines(t@) == r.deep_view() + spec_lines(
                t@.subrange(start as int, t.len() as int),
            ),
        decreases t.len() - i,
    {
        if t[i] == 10u8 {
            let line = slice_to_vec(slice_subrange(t, start, i));
            proof {
                let rest = t@.subrange(start as int, t.len() as int);
                assert forall|j: int| 0 <= j < i - start implies rest[j] != 10u8 by {
                    assert(rest[j] == t@[start + j]);
                }
                assert(rest[i - start] == t@[i as int]);
                lemma_first_nl_is(rest, i - start);
                assert(rest.subrange(0, i - start) =~= t@.subrange(start as int, i as int));
                assert(rest.subrange(i - start + 1, rest.len() as int) =~= t@.subrange(
                    i + 1,
                    t.len() as int,
                ));
                assert(spec_lines(rest) == seq![line@] + spec_lines(
                    t@.subrange(i + 1, t.len() as int),
                ));
            }
            let ghost old_dv = r.deep_view();
            r.push(line);
            proof {
                assert(r.deep_view() =~~= old_dv + seq![line@]);
                assert(r.deep_view() + spec_lines(t@.subrange(i + 1, t.len() as int)) =~~= (
                old_dv + seq![line@]) + spec_lines(t@.subrange(i + 1, t.len() as int)));
                assert((old_dv + seq![line@]) + spec_lines(t@.subrange(i + 1, t.len() as int))
                    =~~= old_dv + (seq![line@] + spec_lines(t@.subrange(i + 1, t.len() as int))));
            }
            start = i + 1;
        }
        i = i + 1;
    }
    let ghost rest = t@.subrange(start as int, t.len() as int);
    if start < t.len() {
        let line = slice_to_vec(slice_subrange(t, start, t.len()));
        proof {
            assert forall|j: int| 0 <= j < rest.len() implies rest[j] != 10u8 by {
                assert(rest[j] == t@[start + j]);
            }
            lemma_first_nl_is(rest, rest.len() as int);
            assert(spec_lines(rest) == seq![rest]);
            assert(line@ =~= rest);
        }
        let ghost old_dv = r.deep_view();
        r.push(line);
        proof {
            assert(r.deep_view() =~~= old_dv + seq![rest]);
            assert(old_dv + seq![rest] =~~= old_dv + spec_lines(rest));
        }
    } else {
        proof {
            assert(rest.len() == 0);
            assert(spec_lines(rest) =~~= Seq::<Seq<u8>>::empty());
            assert(r.deep_view() + spec_lines(rest) =~~= r.deep_view());
        }
    }
    r
}

/// How many of the given lines contain the needle `n`.
pub open spec fn count_matching(ls: Seq<Seq<u8>>, n: Seq<u8>) -> nat
    decreases ls.len(),
{
    if ls.len() == 0 {
        0
    } else {
        count_matching(ls.drop_last(), n) + if contains_seq(ls.last(), n) {
            1nat
        } else {
            0nat
        }
    }
}

/// Count the lines of `t` that contain the needle `n`.
pub fn count_lines_containing(t: &[u8], n: &[u8]) -> (r: usize)
    ensures
        r == count_matching(spec_lines(t@), n@),
{
    let lines = lines_of(t);
    let ghost all = spec_lines(t@);
    let mut count: usize = 0;
    let mut i: usize = 0;
    proof {
        assert(all.subrange(0, 0) =~~= Seq::<Seq<u8>>::empty());
    }
    while i < lines.len()
        invariant
            i <= lines.len(),
            lines.deep_view() == all,
            count <= i,
            count == count_matching(all.subrange(0, i as int), n@),
        decreases lines.len() - i,
    {
        proof {
            assert(lines@[i as int].deep_view() =~= lines@[i as int]@);
            assert(all.subrange(0, i + 1).drop_last() =~~= all.subrange(0, i as int));
            assert(all.subrange(0, i + 1).last() == lines@[i as int]@);
        }
        if contains_slice(lines[i].as_slice(), n) {
            count = count + 1;
        }
        i = i + 1;
    }
    proof {
        assert(all.subrange(0, lines@.len() as int) =~~= all);
    }
    count
}

/// A decimal digit.
pub open spec fn is_digit(b: u8) -> bool {
    48 <= b <= 57
}

/// Every byte of `s` is a decimal digit.
pub open spec fn all_digits(s: Seq<u8>) -> bool {
    forall|i: int| 0 <= i < s.len() ==> is_digit(#[trigger] s[i])
}

/// The value of `s` read as a decimal numeral.
pub open spec fn dec_value(s: Seq<u8>) -> nat
    decreases s.len(),
{
    if s.len() == 0 {
        0
    } else {
        dec_value(s.drop_last()) * 10 + (s.last() - 48) as nat
    }
}

proof fn lemma_dec_value_prefix_le(s: Seq<u8>, i: int, j: int)
    requires
        0 <= i <= j <= s.len(),
    ensures
        dec_value(s.subrange(0, i)) <= dec_value(s.subrange(0, j)),
    decreases j - i,
{
    if i < j {
        lemma_dec_value_prefix_le(s, i, j - 1);
        let b = s.subrange(0, j);
        assert(b.drop_last() =~= s.subrange(0, j - 1));
        assert(dec_value(s.subrange(0, j - 1)) * 10 >= dec_value(s.subrange(0, j - 1)));
    }
}

/// Parse `s` as a decimal `u64`: every byte must be a digit, at least one
/// byte must be present, and the value must fit.
pub fn parse_u64(s: &[u8]) -> (r: Option<u64>)
    ensures
        r is Some ==> s@.len() > 0 && all_digits(s@) && dec_value(s@) <= u64::MAX && r->0
            == dec_value(s@),
        r is None ==> s@.len() == 0 || !all_digits(s@) || dec_value(s@) > u64::MAX,
{
    if s.len() == 0 {
        return None;
    }
    let mut acc: u64 = 0;
    let mut i: usize = 0;
    proof {
        assert(s@.subrange(0, 0) =~= Seq::<u8>::empty());
    }
    while i < s.len()
        invariant
            i <= s.len(),
            all_digits(s@.subrange(0, i as int)),
            acc == dec_value(s@.subrange(0, i as int)),
        decreases s.len() - i,
    {
        let b = s[i];
        if b < 48 || b > 57 {
            return None;
        }
        let d = (b - 48) as u64;
        let ghost pre = s@.subrange(0, i as int);
        let ghost ext = s@.subrange(0, i + 1);
        proof {
            assert(ext.drop_last() =~= pre);
            assert(ext.last() == s@[i as int]);
            assert(dec_value(ext) == dec_value(pre) * 10 + d);
            assert forall|j: int| 0 <= j < ext.len() implies is_digit(ext[j]) by {
                if j < i {
                    assert(ext[j] == pre[j]);
                }
            }
        }
        let q = (u64::MAX - d) / 10;
        if acc > q {
            proof {
                assert(acc * 10 + d > u64::MAX) by (nonlinear_arith)
                    requires
                        acc > (u64::MAX - d) / 10,
                        d <= u64::MAX,
                ;
                lemma_dec_value_prefix_le(s@, i + 1, s@.len() as int);
                assert(s@.subrange(0, s@.len() as int) =~= s@);
            }
            return None;
        }
        proof {
            assert(acc * 10 + d <= u64::MAX) by (nonlinear_arith)
                requires
                    acc <= (u64::MAX - d) / 10,
                    d <= u64::MAX,
            ;
        }
        acc = acc * 10 + d;
        i = i + 1;
    }
    proof {
        assert(s@.subrange(0, s@.len() as int) =~= s@);
    }
    Some(acc)
}

/// Trailing-newline stripping, as a text tool's output is usually shown.
pub open spec fn spec_trim_trailing_nl(s: Seq<u8>) -> Seq<u8> {
    if s.len() > 0 && s.last() == 10u8 {
        s.drop_last()
    } else {
        s
    }
}

/// Copy `s`, dropping one final line feed if there is one.
pub fn trim_trailing_nl(s: &[u8]) -> (r: Vec<u8>)
    ensures
        r@ == spec_trim_trailing_nl(s@),
{
    if s.len() > 0 && s[s.len() - 1] == 10u8 {
        let r = slice_to_vec(slice_subrange(s, 0, s.len() - 1));
        proof {
            assert(r@ =~= s@.drop_last());
        }
        r
    } else {
        slice_to_vec(s)
    }
}

} // verus!
