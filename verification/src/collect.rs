//! Discovering the media files of a batch run: parsing the allow-list of
//! extensions, matching a file's extension against it without regard to
//! ASCII case, and the collector that walks a directory tree as a
//! work-list.  The caller supplies directory listings; every decision about
//! them is made and verified here.

use vstd::prelude::*;

use crate::paths::{extension_of, spec_extension};
use crate::strutil::{push_all, str_eq};

verus! {

broadcast use vstd::slice::group_slice_axioms;

/// `c` lowered to ASCII lower case; any other character is unchanged.
pub open spec fn spec_lower_char(c: char) -> char {
    match c {
        'A' => 'a',
        'B' => 'b',
        'C' => 'c',
        'D' => 'd',
        'E' => 'e',
        'F' => 'f',
        'G' => 'g',
        'H' => 'h',
        'I' => 'i',
        'J' => 'j',
        'K' => 'k',
        'L' => 'l',
        'M' => 'm',
        'N' => 'n',
        'O' => 'o',
        'P' => 'p',
        'Q' => 'q',
        'R' => 'r',
        'S' => 's',
        'T' => 't',
        'U' => 'u',
        'V' => 'v',
        'W' => 'w',
        'X' => 'x',
        'Y' => 'y',
        'Z' => 'z',
        _ => c,
    }
}

/// `s` with every character lowered to ASCII lower case.
pub open spec fn spec_lower(s: Seq<char>) -> Seq<char> {
    s.map_values(|c: char| spec_lower_char(c))
}

/// Equality without regard to ASCII case.
pub open spec fn ci_eq(a: Seq<char>, b: Seq<char>) -> bool {
    spec_lower(a) == spec_lower(b)
}

/// `c` lowered to ASCII lower case.
pub fn lower_char(c: char) -> (r: char)
    ensures
        r == spec_lower_char(c),
{
    match c {
        'A' => 'a',
        'B' => 'b',
        'C' => 'c',
        'D' => 'd',
        'E' => 'e',
        'F' => 'f',
        'G' => 'g',
        'H' => 'h',
        'I' => 'i',
        'J' => 'j',
        'K' => 'k',
        'L' => 'l',
        'M' => 'm',
        'N' => 'n',
        'O' => 'o',
        'P' => 'p',
        'Q' => 'q',
        'R' => 'r',
        'S' => 's',
        'T' => 't',
        'U' => 'u',
        'V' => 'v',
        'W' => 'w',
        'X' => 'x',
        'Y' => 'y',
        'Z' => 'z',
        _ => c,
    }
}

/// True iff `a` and `b` are equal without regard to ASCII case.
pub fn str_eq_ci(a: &str, b: &str) -> (r: bool)
    ensures
        r == ci_eq(a@, b@),
{
    let alen = a.unicode_len();
    let blen = b.unicode_len();
    if alen != blen {
        proof {
            assert(spec_lower(a@).len() == a@.len());
            assert(spec_lower(b@).len() == b@.len());
        }
        return false;
    }
    let mut i: usize = 0;
    while i < alen
        invariant
            alen == a@.len(),
            blen == b@.len(),
            alen == blen,
            i <= alen,
            forall|j: int| 0 <= j < i ==> spec_lower_char(a@[j]) == spec_lower_char(b@[j]),
        decreases alen - i,
    {
        if lower_char(a.get_char(i)) != lower_char(b.get_char(i)) {
            proof {
                assert(spec_lower(a@)[i as int] != spec_lower(b@)[i as int]);
            }
            return false;
        }
        i += 1;
    }
    proof {
        assert(spec_lower(a@) =~= spec_lower(b@));
    }
    true
}

/// A file takes part in a batch iff it has an extension and that extension
/// matches an entry of the allow-list, case-insensitively.
pub open spec fn spec_ext_matches(p: Seq<char>, allowed: Seq<Seq<char>>) -> bool {
    match spec_extension(p) {
        Some(e) => exists|k: int| 0 <= k < allowed.len() && ci_eq(allowed[k], e),
        None => false,
    }
}

/// Whether the extension of `p` matches an entry of `allowed`.
pub fn has_allowed_extension(p: &str, allowed: &Vec<String>) -> (r: bool)
    ensures
        r == spec_ext_matches(p@, allowed.deep_view()),
{
    let ext = match extension_of(p) {
        Some(e) => e,
        None => {
            return false;
        },
    };
    let mut k: usize = 0;
    while k < allowed.len()
        invariant
            k <= allowed@.len(),
            spec_extension(p@) == Some(ext@),
            forall|j: int| 0 <= j < k ==> !ci_eq(allowed.deep_view()[j], ext@),
        decreases allowed@.len() - k,
    {
        if str_eq_ci(allowed[k].as_str(), ext.as_str()) {
            proof {
                assert(ci_eq(allowed.deep_view()[k as int], ext@));
            }
            return true;
        }
        k += 1;
    }
    false
}

/// Index of the first occurrence of `c` in `s`, or `s.len()` when absent.
pub open spec fn first_at(s: Seq<char>, c: char) -> int
    decreases s.len(),
{
    if s.len() == 0 {
        0
    } else if s[0] == c {
        0
    } else {
        1 + first_at(s.subrange(1, s.len() as int), c)
    }
}

pub proof fn lemma_first_at(s: Seq<char>, c: char)
    ensures
        0 <= first_at(s, c) <= s.len(),
        first_at(s, c) < s.len() ==> s[first_at(s, c)] == c,
        forall|j: int| 0 <= j < first_at(s, c) ==> s[j] != c,
    decreases s.len(),
{
    if s.len() > 0 && s[0] != c {
        let tail = s.subrange(1, s.len() as int);
        lemma_first_at(tail, c);
        assert forall|j: int| 0 <= j < first_at(s, c) implies s[j] != c by {
            if j >= 1 {
                assert(tail[j - 1] == s[j]);
                assert(tail[j - 1] != c);
            }
        }
    }
}

/// `first_at` is the unique position with the properties of
/// `lemma_first_at`.
pub proof fn lemma_first_at_unique(s: Seq<char>, c: char, i: int)
    requires
        0 <= i <= s.len(),
        i < s.len() ==> s[i] == c,
        forall|j: int| 0 <= j < i ==> s[j] != c,
    ensures
        i == first_at(s, c),
{
    lemma_first_at(s, c);
    let f = first_at(s, c);
    if i < f {
        assert(s[i] != c);
        assert(false);
    } else if f < i {
        assert(s[f] != c);
        assert(false);
    }
}

/// `s` with leading spaces removed.
pub open spec fn spec_trim_start(s: Seq<char>) -> Seq<char>
    decreases s.len(),
{
    if s.len() > 0 && s[0] == ' ' {
        spec_trim_start(s.subrange(1, s.len() as int))
    } else {
        s
    }
}

/// `s` with trailing spaces removed.
pub open spec fn spec_trim_end(s: Seq<char>) -> Seq<char>
    decreases s.len(),
{
    if s.len() > 0 && s.last() == ' ' {
        spec_trim_end(s.drop_last())
    } else {
        s
    }
}

/// `s` with leading and trailing spaces removed.
pub open spec fn spec_trimmed(s: Seq<char>) -> Seq<char> {
    spec_trim_end(spec_trim_start(s))
}

/// A fresh string holding `s[from..to]` with surrounding spaces removed.
fn trimmed_substring(s: &str, from: usize, to: usize) -> (r: String)
    requires
        from <= to <= s@.len(),
    ensures
        r@ == spec_trimmed(s@.subrange(from as int, to as int)),
{
    let mut a = from;
    while a < to && s.get_char(a) == ' '
        invariant
            from <= a <= to <= s@.len(),
            spec_trim_start(s@.subrange(from as int, to as int)) == spec_trim_start(
                s@.subrange(a as int, to as int),
            ),
        decreases to - a,
    {
        proof {
            let cur = s@.subrange(a as int, to as int);
            assert(cur[0] == ' ');
            assert(cur.subrange(1, cur.len() as int) =~= s@.subrange(a + 1, to as int));
        }
        a += 1;
    }
    proof {
        let cur = s@.subrange(a as int, to as int);
        if a < to {
            assert(cur[0] == s@[a as int]);
        }
        assert(spec_trim_start(cur) == cur);
    }
    let mut b = to;
    while b > a && s.get_char(b - 1) == ' '
        invariant
            from <= a <= b <= to <= s@.len(),
            spec_trim_end(s@.subrange(a as int, to as int)) == spec_trim_end(
                s@.subrange(a as int, b as int),
            ),
        decreases b,
    {
        proof {
            let cur = s@.subrange(a as int, b as int);
            assert(cur.last() == ' ');
            assert(cur.drop_last() =~= s@.subrange(a as int, b - 1));
        }
        b -= 1;
    }
    proof {
        let cur = s@.subrange(a as int, b as int);
        if b > a {
            assert(cur.last() == s@[b - 1]);
        }
        assert(spec_trim_end(cur) == cur);
    }
    String::from_str(s.substring_char(a, b))
}

/// The comma-separated fields of `s`, in order, separators removed.
pub open spec fn spec_fields(s: Seq<char>) -> Seq<Seq<char>>
    decreases s.len(),
{
    let k = first_at(s, ',');
    if 0 <= k < s.len() {
        seq![s.subrange(0, k)] + spec_fields(s.subrange(k + 1, s.len() as int))
    } else {
        seq![s]
    }
}

/// The extension allow-list denoted by a comma-separated string: its
/// fields, each with surrounding spaces removed.
pub open spec fn spec_extension_list(csv: Seq<char>) -> Seq<Seq<char>> {
    spec_fields(csv).map_values(|f: Seq<char>| spec_trimmed(f))
}

/// Parse and append the fields of `csv[pos..]`, trimmed, to `out`.
fn parse_fields_into(csv: &str, pos: usize, out: &mut Vec<String>)
    requires
        pos <= csv@.len(),
    ensures
        final(out).deep_view() == old(out).deep_view() + spec_extension_list(
            csv@.subrange(pos as int, csv@.len() as int),
        ),
    decreases csv@.len() - pos,
{
    let ghost base = out.deep_view();
    let n = csv.unicode_len();
    let mut k: usize = pos;
    while k < n && csv.get_char(k) != ','
        invariant
            pos <= k <= n,
            n == csv@.len(),
            forall|j: int| pos <= j < k ==> csv@[j] != ',',
        decreases n - k,
    {
        k += 1;
    }
    let ghost rem = csv@.subrange(pos as int, n as int);
    proof {
        assert(forall|j: int| 0 <= j < rem.len() ==> rem[j] == csv@[pos + j]);
        if k < n {
            assert(rem[k - pos] == ',');
        }
        lemma_first_at_unique(rem, ',', k - pos);
    }
    let field = trimmed_substring(csv, pos, k);
    proof {
        assert(rem.subrange(0, k - pos) =~= csv@.subrange(pos as int, k as int));
    }
    out.push(field);
    let ghost after_push = out.deep_view();
    proof {
        assert(after_push =~= base + seq![spec_trimmed(rem.subrange(0, k - pos))]);
    }
    if k < n {
        parse_fields_into(csv, k + 1, out);
        proof {
            let rest = csv@.subrange(k + 1, n as int);
            assert(rem.subrange(k - pos + 1, rem.len() as int) =~= rest);
            assert(spec_fields(rem) == seq![rem.subrange(0, k - pos)] + spec_fields(rest));
            assert(spec_extension_list(rem) =~= seq![spec_trimmed(rem.subrange(0, k - pos))]
                + spec_extension_list(rest));
            assert(out.deep_view() =~= base + spec_extension_list(rem));
        }
    } else {
        proof {
            assert(rem.subrange(0, k - pos) =~= rem);
            assert(spec_fields(rem) == seq![rem]);
            assert(spec_extension_list(rem) =~= seq![spec_trimmed(rem)]);
            assert(out.deep_view() =~= base + spec_extension_list(rem));
        }
    }
}

/// Parse a comma-separated extension allow-list, trimming spaces around
/// each entry.
pub fn parse_extensions(csv: &str) -> (r: Vec<String>)
    ensures
        r.deep_view() == spec_extension_list(csv@),
{
    let mut r: Vec<String> = Vec::new();
    parse_fields_into(csv, 0, &mut r);
    proof {
        assert(csv@.subrange(0, csv@.len() as int) =~= csv@);
        assert(r.deep_view() =~= spec_extension_list(csv@));
    }
    r
}

/// The files among `files` whose extension matches the allow-list, in
/// their original order.
pub open spec fn spec_matching(files: Seq<Seq<char>>, allowed: Seq<Seq<char>>) -> Seq<Seq<char>> {
    files.filter(|f: Seq<char>| spec_ext_matches(f, allowed))
}

/// Append the files with an allowed extension to `dst`, in order.
fn append_matching(dst: &mut Vec<String>, files: &Vec<String>, allowed: &Vec<String>)
    ensures
        final(dst).deep_view() == old(dst).deep_view() + spec_matching(
            files.deep_view(),
            allowed.deep_view(),
        ),
{
    let ghost base = dst.deep_view();
    let ghost fdv = files.deep_view();
    let ghost adv = allowed.deep_view();
    let mut i: usize = 0;
    while i < files.len()
        invariant
            i <= files@.len(),
            fdv == files.deep_view(),
            adv == allowed.deep_view(),
            dst.deep_view() =~= base + spec_matching(fdv.take(i as int), adv),
        decreases files@.len() - i,
    {
        let ghost prev = dst.deep_view();
        let matched = has_allowed_extension(files[i].as_str(), allowed);
        proof {
            reveal(Seq::filter);
            assert(fdv.take(i + 1).drop_last() =~= fdv.take(i as int));
            assert(fdv.take(i + 1).last() == fdv[i as int]);
        }
        if matched {
            let item = files[i].clone();
            proof {
                assert(item@ == fdv[i as int]);
            }
            dst.push(item);
            proof {
                let lhs = dst.deep_view();
                assert(forall|j: int| 0 <= j < prev.len() ==> lhs[j] == prev[j]);
                assert(dst@.len() == prev.len() + 1);
                assert(lhs[prev.len() as int] == item@);
                assert(lhs =~= prev.push(fdv[i as int]));
            }
        }
        i += 1;
        proof {
            assert(dst.deep_view() =~= base + spec_matching(fdv.take(i as int), adv));
        }
    }
    proof {
        assert(fdv.take(files@.len() as int) =~= fdv);
        assert(dst.deep_view() =~= base + spec_matching(fdv, adv));
    }
}

/// Every found file has an extension on the allow-list.
pub open spec fn all_match(files: Seq<Seq<char>>, allowed: Seq<Seq<char>>) -> bool {
    forall|i: int| 0 <= i < files.len() ==> spec_ext_matches(#[trigger] files[i], allowed)
}

/// A work-list walk over a directory tree.  The caller reads each listing
/// from the filesystem and hands it in as plain values; which directories
/// are visited next and which files are kept is decided here.
pub struct MediaCollector {
    pending: Vec<String>,
    found: Vec<String>,
}

impl MediaCollector {
    /// Directories still to visit, in visiting order.
    pub closed spec fn pending_dirs(self) -> Seq<Seq<char>> {
        self.pending.deep_view()
    }

    /// Media files found so far, in discovery order.
    pub closed spec fn found_files(self) -> Seq<Seq<char>> {
        self.found.deep_view()
    }

    /// A collector ready to walk the tree rooted at `root`.
    pub fn new(root: String) -> (r: Self)
        ensures
            r.pending_dirs() == seq![root@],
            r.found_files() == Seq::<Seq<char>>::empty(),
    {
        let mut pending: Vec<String> = Vec::new();
        pending.push(root);
        let r = MediaCollector { pending, found: Vec::new() };
        proof {
            assert(r.pending_dirs() =~= seq![root@]);
            assert(r.found_files() =~= Seq::<Seq<char>>::empty());
        }
        r
    }

    /// Whether every directory has been visited.
    pub fn is_done(&self) -> (r: bool)
        ensures
            r == (self.pending_dirs().len() == 0),
    {
        self.pending.len() == 0
    }

    /// The next directory to visit, removed from the work list; `None`
    /// exactly when the walk is complete.
    pub fn next_dir(&mut self) -> (r: Option<String>)
        ensures
            old(self).pending_dirs().len() == 0 ==> r is None && *final(self) == *old(self),
            old(self).pending_dirs().len() > 0 ==> (r matches Some(d) && d@ == old(
                self,
            ).pending_dirs()[0] && final(self).pending_dirs() == old(self).pending_dirs().skip(1)
                && final(self).found_files() == old(self).found_files()),
    {
        if self.pending.len() == 0 {
            None
        } else {
            let d = self.pending.remove(0);
            proof {
                assert(self.pending_dirs() =~= old(self).pending_dirs().skip(1));
            }
            Some(d)
        }
    }

    /// Record one directory's listing: its subdirectories join the work
    /// list in order, and its files with an allowed extension join the
    /// found list in order.  Files already found are never dropped, and a
    /// found list whose entries all matched the allow-list stays that way.
    pub fn record_listing(&mut self, subdirs: &Vec<String>, files: &Vec<String>, allowed: &Vec<String>)
        ensures
            final(self).pending_dirs() == old(self).pending_dirs() + subdirs.deep_view(),
            final(self).found_files() == old(self).found_files() + spec_matching(
                files.deep_view(),
                allowed.deep_view(),
            ),
            all_match(old(self).found_files(), allowed.deep_view()) ==> all_match(
                final(self).found_files(),
                allowed.deep_view(),
            ),
    {
        push_all(&mut self.pending, subdirs.as_slice());
        append_matching(&mut self.found, files, allowed);
        proof {
            let adv = allowed.deep_view();
            let added = spec_matching(files.deep_view(), adv);
            assert(forall|i: int|
                0 <= i < added.len() ==> spec_ext_matches(#[trigger] added[i], adv)) by {
                broadcast use vstd::seq::Seq::lemma_filter_pred;

            }
        }
    }

    /// The files found, handing the collector's storage to the caller.
    pub fn into_files(self) -> (r: Vec<String>)
        ensures
            r.deep_view() == self.found_files(),
    {
        self.found
    }
}

} // verus!
