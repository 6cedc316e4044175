//! A lexical model of filesystem paths as character sequences with `/` as
//! the separator, and the output-path rules built on it: the `_transcoded`
//! sibling used to avoid writing a transcode over its own input, extension
//! replacement, joining, and re-rooting a file under a new directory.
//!
//! Canonicalization (resolving symlinks and relative segments) is the one
//! filesystem-dependent step; it sits behind a single trusted call and every
//! decision taken on its result is verified.

use vstd::prelude::*;

use crate::strutil::{after_last, concat2, lemma_after_last, opt_str_view, scan_back, str_eq};

verus! {

/// Index where the file name of `p` begins: one past the last `/`.
pub open spec fn file_name_start(p: Seq<char>) -> int {
    after_last(p, '/')
}

/// The file-name portion of `p`: everything after the last `/`.
pub open spec fn file_part(p: Seq<char>) -> Seq<char> {
    p.subrange(file_name_start(p), p.len() as int)
}

/// Length of the stem of a file name: everything before the final `.`,
/// except that a name without a dot, or with its only dot first (a hidden
/// file), is all stem.
pub open spec fn stem_len(name: Seq<char>) -> int {
    let d = after_last(name, '.');
    if d <= 1 {
        name.len() as int
    } else {
        d - 1
    }
}

/// Index in `p` where the stem of its file name ends.
pub open spec fn stem_end(p: Seq<char>) -> int {
    file_name_start(p) + stem_len(file_part(p))
}

/// `.` followed by `ext`, or nothing when `ext` is empty.
pub open spec fn dotted(ext: Seq<char>) -> Seq<char> {
    if ext.len() == 0 {
        Seq::empty()
    } else {
        seq!['.'] + ext
    }
}

/// The collision-safe sibling of `p`: `<dir>/<stem>_transcoded.<ext>`.
pub open spec fn spec_suffixed(p: Seq<char>, ext: Seq<char>) -> Seq<char> {
    p.subrange(0, stem_end(p)) + "_transcoded"@ + dotted(ext)
}

/// `p` with its extension replaced by `ext` (or appended when `p` has none).
pub open spec fn spec_with_extension(p: Seq<char>, ext: Seq<char>) -> Seq<char> {
    p.subrange(0, stem_end(p)) + dotted(ext)
}

/// `dir` and `name` joined with a single `/` between them.
pub open spec fn spec_joined(dir: Seq<char>, name: Seq<char>) -> Seq<char> {
    if dir.len() == 0 {
        name
    } else if dir.last() == '/' {
        dir + name
    } else {
        dir + seq!['/'] + name
    }
}

/// A path is absolute when it starts with the separator.
pub open spec fn spec_is_absolute(p: Seq<char>) -> bool {
    p.len() > 0 && p[0] == '/'
}

/// A relative path interpreted against `cwd`; an absolute one stands alone.
pub open spec fn spec_absolutized(p: Seq<char>, cwd: Seq<char>) -> Seq<char> {
    if spec_is_absolute(p) {
        p
    } else {
        spec_joined(cwd, p)
    }
}

/// The path of `file` relative to the directory `root`: `Some` exactly when
/// `root` is a prefix of `file` ending at a separator boundary.
pub open spec fn spec_rel_under(file: Seq<char>, root: Seq<char>) -> Option<Seq<char>> {
    if root.len() == 0 {
        Some(file)
    } else if file.len() >= root.len() && file.subrange(0, root.len() as int) == root {
        if root.last() == '/' {
            Some(file.subrange(root.len() as int, file.len() as int))
        } else if file.len() == root.len() {
            Some(Seq::<char>::empty())
        } else if file[root.len() as int] == '/' {
            Some(file.subrange(root.len() as int + 1, file.len() as int))
        } else {
            None
        }
    } else {
        None
    }
}

/// The stem ends inside `p` only at a dot; otherwise it ends at the end.
pub proof fn lemma_stem_end(p: Seq<char>)
    ensures
        0 <= stem_end(p) <= p.len(),
        stem_end(p) < p.len() ==> p[stem_end(p)] == '.',
{
    lemma_after_last(p, '/');
    let fs = file_name_start(p);
    let name = file_part(p);
    lemma_after_last(name, '.');
    let d = after_last(name, '.');
    if d > 1 {
        assert(name[d - 1] == '.');
        assert(p[fs + d - 1] == name[d - 1]);
    }
}

/// The safety behind every fallback: the `_transcoded` sibling of a path is
/// never the path itself, whatever the path and extension.
pub proof fn lemma_suffixed_differs(p: Seq<char>, ext: Seq<char>)
    ensures
        spec_suffixed(p, ext) != p,
{
    reveal_strlit("_transcoded");
    lemma_stem_end(p);
    let e = stem_end(p);
    let r = spec_suffixed(p, ext);
    assert(("_transcoded"@).len() == 11);
    if e == p.len() {
        assert(r.len() > p.len());
        if r == p {
            assert(r.len() == p.len());
        }
    } else {
        assert(p[e] == '.');
        assert(r[e] == ("_transcoded"@)[0]);
        assert(("_transcoded"@)[0] == '_');
        if r == p {
            assert(p[e] == '_');
        }
    }
}

/// Where the stem of `p@` ends, as an index usable for slicing.
pub(crate) fn stem_end_exec(p: &str) -> (r: usize)
    ensures
        r == stem_end(p@),
        r <= p@.len(),
{
    let n = p.unicode_len();
    proof {
        assert(p@.subrange(0, n as int) =~= p@);
    }
    let fs = scan_back(p, 0, n, '/');
    proof {
        assert(p@.subrange(fs as int, n as int) =~= file_part(p@));
    }
    let d = scan_back(p, fs, n, '.');
    if d - fs <= 1 {
        n
    } else {
        d - 1
    }
}

/// The extension of `p`'s file name, when it has one: what follows the dot
/// at which the stem ends.
pub open spec fn spec_extension(p: Seq<char>) -> Option<Seq<char>> {
    if stem_end(p) < p.len() {
        Some(p.subrange(stem_end(p) + 1, p.len() as int))
    } else {
        None
    }
}

/// The extension of `p`'s file name, or `None` when it has none.
pub fn extension_of(p: &str) -> (r: Option<String>)
    ensures
        match r {
            Some(e) => spec_extension(p@) == Some(e@),
            None => spec_extension(p@) is None,
        },
{
    let n = p.unicode_len();
    let e = stem_end_exec(p);
    if e < n {
        Some(String::from_str(p.substring_char(e + 1, n)))
    } else {
        None
    }
}

/// The collision-safe sibling of `input_path`: same directory, same stem,
/// `_transcoded` inserted, and `out_ext` as the extension.
pub fn suffixed_output(input_path: &str, out_ext: &str) -> (r: String)
    ensures
        r@ == spec_suffixed(input_path@, out_ext@),
        r@ != input_path@,
{
    let e = stem_end_exec(input_path);
    let head = input_path.substring_char(0, e);
    let mut r = String::from_str(head);
    r.append("_transcoded");
    if out_ext.unicode_len() > 0 {
        r.append(".");
        proof {
            reveal_strlit(".");
            assert("."@ =~= seq!['.']);
        }
        r.append(out_ext);
    }
    proof {
        assert(r@ =~= spec_suffixed(input_path@, out_ext@));
        lemma_suffixed_differs(input_path@, out_ext@);
    }
    r
}

/// `path` with its extension replaced by `ext`.
pub fn with_extension(path: &str, ext: &str) -> (r: String)
    ensures
        r@ == spec_with_extension(path@, ext@),
{
    let e = stem_end_exec(path);
    let head = path.substring_char(0, e);
    let mut r = String::from_str(head);
    if ext.unicode_len() > 0 {
        r.append(".");
        proof {
            reveal_strlit(".");
            assert("."@ =~= seq!['.']);
        }
        r.append(ext);
    }
    proof {
        assert(r@ =~= spec_with_extension(path@, ext@));
    }
    r
}

/// `dir` and `name` joined with a single separator between them.
pub fn joined(dir: &str, name: &str) -> (r: String)
    ensures
        r@ == spec_joined(dir@, name@),
{
    let n = dir.unicode_len();
    if n == 0 {
        String::from_str(name)
    } else if dir.get_char(n - 1) == '/' {
        concat2(dir, name)
    } else {
        let mut r = String::from_str(dir);
        r.append("/");
        proof {
            reveal_strlit("/");
            assert("/"@ =~= seq!['/']);
        }
        r.append(name);
        proof {
            assert(r@ =~= spec_joined(dir@, name@));
        }
        r
    }
}

/// True iff `p` starts with the separator.
pub fn is_absolute(p: &str) -> (r: bool)
    ensures
        r == spec_is_absolute(p@),
{
    p.unicode_len() > 0 && p.get_char(0) == '/'
}

/// `p` made absolute against `cwd` when it is not already.
pub fn absolutized(p: &str, cwd: &str) -> (r: String)
    ensures
        r@ == spec_absolutized(p@, cwd@),
{
    if is_absolute(p) {
        String::from_str(p)
    } else {
        joined(cwd, p)
    }
}

/// The path of `file` relative to the directory `root`, or `None` when
/// `file` does not lie under `root`.
pub fn strip_root(file: &str, root: &str) -> (r: Option<String>)
    ensures
        match r {
            Some(rel) => spec_rel_under(file@, root@) == Some(rel@),
            None => spec_rel_under(file@, root@) is None,
        },
{
    let flen = file.unicode_len();
    let rlen = root.unicode_len();
    if rlen == 0 {
        return Some(String::from_str(file));
    }
    if flen < rlen {
        return None;
    }
    let head = file.substring_char(0, rlen);
    if !str_eq(head, root) {
        return None;
    }
    if root.get_char(rlen - 1) == '/' {
        return Some(String::from_str(file.substring_char(rlen, flen)));
    }
    if flen == rlen {
        proof {
            assert(file@.subrange(rlen as int, flen as int) =~= Seq::<char>::empty());
        }
        return Some(String::new());
    }
    if file.get_char(rlen) == '/' {
        return Some(String::from_str(file.substring_char(rlen + 1, flen)));
    }
    None
}

/// Relies on `std::path::Path::canonicalize` to resolve symlinks and
/// relative segments to an absolute form.  The result depends on the state
/// of the filesystem, so no contract is claimed; when canonicalization
/// fails (for instance because the path does not exist yet) the path is
/// returned as given.
#[verifier::external_body]
fn canonical_or_self(p: &str) -> String {
    match std::path::Path::new(p).canonicalize() {
        Ok(c) => c.to_string_lossy().into_owned(),
        Err(_) => p.to_string(),
    }
}

/// Whether two paths name the same file: their canonical forms agree, a
/// path that cannot be canonicalized standing for itself.  The answer
/// depends on the filesystem, so nothing further is claimed of it.
pub fn paths_equivalent(a: &str, b: &str) -> bool {
    let ca = canonical_or_self(a);
    let cb = canonical_or_self(b);
    str_eq(ca.as_str(), cb.as_str())
}

/// The extension the collision fallback uses: the one the requested output
/// carries when it has one, else the default.
pub open spec fn spec_fallback_ext(requested: Seq<char>, default_ext: Seq<char>) -> Seq<char> {
    match spec_extension(requested) {
        Some(e) => e,
        None => default_ext,
    }
}

/// The output path chosen for a single-file transcode, given the already
/// resolved input and the already settled question whether the requested
/// output names the input file.
pub open spec fn spec_resolve_output(
    input_resolved: Seq<char>,
    output_abs: Option<Seq<char>>,
    equals_input: bool,
    default_ext: Seq<char>,
) -> Seq<char> {
    match output_abs {
        None => spec_suffixed(input_resolved, default_ext),
        Some(o) => if equals_input {
            spec_suffixed(input_resolved, spec_fallback_ext(o, default_ext))
        } else {
            o
        },
    }
}

/// Decide the single-file output path from plain answers: the resolved
/// input, the absolutized requested output (if any), and whether that
/// output names the input.  When no output was requested the `_transcoded`
/// sibling with the default extension is used; when the requested one
/// collides with the input, the sibling keeps the extension the request
/// carried.  Either sibling is never the input itself.
pub fn resolve_output_with(
    input_resolved: &str,
    output_abs: Option<&str>,
    output_equals_input: bool,
    default_ext: &str,
) -> (r: String)
    ensures
        r@ == spec_resolve_output(
            input_resolved@,
            opt_str_view(output_abs),
            output_equals_input,
            default_ext@,
        ),
        (output_abs is None || output_equals_input) ==> r@ != input_resolved@,
{
    match output_abs {
        None => suffixed_output(input_resolved, default_ext),
        Some(o) => {
            if output_equals_input {
                let ext = match extension_of(o) {
                    Some(e) => e,
                    None => String::from_str(default_ext),
                };
                suffixed_output(input_resolved, ext.as_str())
            } else {
                String::from_str(o)
            }
        },
    }
}

/// Resolve a safe output path for one transcode.  The input is
/// canonicalized where the filesystem allows; a relative requested output
/// is made absolute against `cwd`; a requested output that names the input
/// file is replaced by the `_transcoded` sibling of the resolved input, as
/// is an absent one.
pub fn resolve_output_path(
    input: &str,
    output_opt: Option<&str>,
    default_ext: &str,
    cwd: &str,
) -> (r: String)
    ensures
        output_opt is None ==> (exists|c: Seq<char>| r@ == spec_suffixed(c, default_ext@)),
        output_opt matches Some(o) ==> (r@ == spec_absolutized(o@, cwd@) || (exists|c: Seq<char>|
            r@ == spec_suffixed(
                c,
                spec_fallback_ext(spec_absolutized(o@, cwd@), default_ext@),
            ))),
{
    let input_resolved = canonical_or_self(input);
    match output_opt {
        None => {
            let r = suffixed_output(input_resolved.as_str(), default_ext);
            proof {
                assert(r@ == spec_suffixed(input_resolved@, default_ext@));
            }
            r
        },
        Some(o) => {
            let out_abs = absolutized(o, cwd);
            let same = paths_equivalent(input_resolved.as_str(), out_abs.as_str());
            let r = resolve_output_with(
                input_resolved.as_str(),
                Some(out_abs.as_str()),
                same,
                default_ext,
            );
            proof {
                if same {
                    assert(r@ == spec_suffixed(
                        input_resolved@,
                        spec_fallback_ext(out_abs@, default_ext@),
                    ));
                }
            }
            r
        },
    }
}

} // verus!
