//! Character-level helpers on strings: equality, backwards searches, and
//! building a `String` from pieces, each proved against its `Seq<char>` view.

use vstd::prelude::*;

verus! {

broadcast use vstd::slice::group_slice_axioms;

/// True iff the two string slices hold the same characters.
pub fn str_eq(a: &str, b: &str) -> (r: bool)
    ensures
        r == (a@ == b@),
{
    let alen = a.unicode_len();
    let blen = b.unicode_len();
    if alen != blen {
        return false;
    }
    let mut i: usize = 0;
    while i < alen
        invariant
            alen == a@.len(),
            blen == b@.len(),
            alen == blen,
            i <= alen,
            forall|j: int| 0 <= j < i ==> a@[j] == b@[j],
        decreases alen - i,
    {
        if a.get_char(i) != b.get_char(i) {
            return false;
        }
        i += 1;
    }
    proof {
        assert(a@ =~= b@);
    }
    true
}

/// Index one past the last occurrence of `c` in `s`, or 0 when `c` does not
/// occur: the start of the portion of `s` that follows the final `c`.
pub open spec fn after_last(s: Seq<char>, c: char) -> int
    decreases s.len(),
{
    if s.len() == 0 {
        0
    } else if s.last() == c {
        s.len() as int
    } else {
        after_last(s.drop_last(), c)
    }
}

pub proof fn lemma_after_last(s: Seq<char>, c: char)
    ensures
        0 <= after_last(s, c) <= s.len(),
        after_last(s, c) > 0 ==> s[after_last(s, c) - 1] == c,
        forall|j: int| after_last(s, c) <= j < s.len() ==> s[j] != c,
    decreases s.len(),
{
    if s.len() > 0 && s.last() != c {
        lemma_after_last(s.drop_last(), c);
        assert(forall|j: int| 0 <= j < s.len() - 1 ==> s[j] == s.drop_last()[j]);
    }
}

/// `after_last` is the unique position with the properties of
/// `lemma_after_last`: no `c` at or after it, and a `c` right before it
/// unless it is 0.
pub proof fn lemma_after_last_unique(s: Seq<char>, c: char, i: int)
    requires
        0 <= i <= s.len(),
        i > 0 ==> s[i - 1] == c,
        forall|j: int| i <= j < s.len() ==> s[j] != c,
    ensures
        i == after_last(s, c),
{
    lemma_after_last(s, c);
    let a = after_last(s, c);
    if i < a {
        assert(s[a - 1] == c);
        assert(false);
    } else if i > a {
        assert(s[i - 1] != c);
        assert(false);
    }
}

/// Scan `s` backwards from `end` (exclusive) for `c`, stopping at position
/// `start`: returns one past the last occurrence of `c` inside
/// `[start, end)`, or `start` when there is none.
pub fn scan_back(s: &str, start: usize, end: usize, c: char) -> (r: usize)
    requires
        start <= end <= s@.len(),
    ensures
        start <= r <= end,
        r == start + after_last(s@.subrange(start as int, end as int), c),
{
    let mut i: usize = end;
    while i > start
        invariant
            start <= i <= end <= s@.len(),
            forall|j: int| i <= j < end ==> s@[j] != c,
        decreases i,
    {
        if s.get_char(i - 1) == c {
            proof {
                let sub = s@.subrange(start as int, end as int);
                assert(forall|j: int| 0 <= j < sub.len() ==> sub[j] == s@[start + j]);
                assert(sub[i - 1 - start] == c);
                assert(forall|j: int| i - start <= j < sub.len() ==> sub[j] != c);
                lemma_after_last_unique(sub, c, i - start);
            }
            return i;
        }
        i -= 1;
    }
    proof {
        let sub = s@.subrange(start as int, end as int);
        assert(forall|j: int| 0 <= j < sub.len() ==> sub[j] == s@[start + j]);
        assert(forall|j: int| 0 <= j < sub.len() ==> sub[j] != c);
        lemma_after_last_unique(sub, c, 0);
    }
    start
}

/// The view of an optional string slice.
pub open spec fn opt_str_view(o: Option<&str>) -> Option<Seq<char>> {
    match o {
        Some(s) => Some(s@),
        None => None,
    }
}

/// Append clones of all strings in `src` to `dst`, in order.
pub fn push_all(dst: &mut Vec<String>, src: &[String])
    ensures
        final(dst).deep_view() == old(dst).deep_view() + src.deep_view(),
{
    let ghost base = dst.deep_view();
    let mut i: usize = 0;
    while i < src.len()
        invariant
            i <= src@.len(),
            dst.deep_view() =~= base + src.deep_view().take(i as int),
        decreases src@.len() - i,
    {
        let ghost prev = dst.deep_view();
        let item = src[i].clone();
        proof {
            assert(item@ == src.deep_view()[i as int]);
        }
        dst.push(item);
        i += 1;
        proof {
            let lhs = dst.deep_view();
            let rhs = base + src.deep_view().take(i as int);
            assert(forall|j: int| 0 <= j < prev.len() ==> lhs[j] == prev[j]);
            assert(dst@.len() == prev.len() + 1);
            assert(rhs.len() == base.len() + i);
            assert(lhs[prev.len() as int] == item@);
            assert(lhs =~= rhs);
        }
    }
    proof {
        assert(src.deep_view().take(src@.len() as int) =~= src.deep_view());
        assert(dst.deep_view() =~= base + src.deep_view());
    }
}

/// A fresh `String` holding `s` followed by `t`.
pub fn concat2(s: &str, t: &str) -> (r: String)
    ensures
        r@ == s@ + t@,
{
    let mut r = String::from_str(s);
    r.append(t);
    r
}

} // verus!
