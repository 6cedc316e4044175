use transcoderr::paths::{
    absolutized, extension_of, is_absolute, joined, paths_equivalent, resolve_output_path,
    resolve_output_with, strip_root, suffixed_output, with_extension,
};

#[test]
fn test_suffixed_output_basic() {
    assert_eq!(suffixed_output("/a/y.mp4", "mkv"), "/a/y_transcoded.mkv");
    assert_eq!(suffixed_output("y.mp4", "mkv"), "y_transcoded.mkv");
    assert_eq!(suffixed_output("/a/b/c.avi", "mp4"), "/a/b/c_transcoded.mp4");
}

#[test]
fn test_suffixed_output_edge_cases() {
    // no extension: the whole name is the stem
    assert_eq!(suffixed_output("/a/b", "avi"), "/a/b_transcoded.avi");
    // hidden file: the leading dot does not start an extension
    assert_eq!(suffixed_output("/a/.conf", "mkv"), "/a/.conf_transcoded.mkv");
    // empty target extension: no dot is appended
    assert_eq!(suffixed_output("/a/b.mp4", ""), "/a/b_transcoded");
    // multi-dot name: only the last dot starts the extension
    assert_eq!(suffixed_output("/a/x.y.mp4", "mkv"), "/a/x.y_transcoded.mkv");
}

#[test]
fn test_suffixed_output_never_returns_input() {
    for p in ["/a/y.mp4", "y.mp4", "/a/b", "/a/.conf", "", "/a/x_transcoded.mkv"] {
        assert_ne!(suffixed_output(p, "mkv"), p);
        assert_ne!(suffixed_output(p, ""), p);
    }
}

#[test]
fn test_with_extension() {
    assert_eq!(with_extension("/b/x/y.mp4", "mkv"), "/b/x/y.mkv");
    assert_eq!(with_extension("/b/x/y", "mkv"), "/b/x/y.mkv");
    assert_eq!(with_extension("/b/.hidden", "mkv"), "/b/.hidden.mkv");
}

#[test]
fn test_joined() {
    assert_eq!(joined("/b", "x/y.mp4"), "/b/x/y.mp4");
    assert_eq!(joined("/b/", "x/y.mp4"), "/b/x/y.mp4");
    assert_eq!(joined("", "x/y.mp4"), "x/y.mp4");
}

#[test]
fn test_strip_root() {
    assert_eq!(strip_root("/a/x/y.mp4", "/a"), Some("x/y.mp4".to_string()));
    assert_eq!(strip_root("/a/x/y.mp4", "/a/"), Some("x/y.mp4".to_string()));
    assert_eq!(strip_root("/a/x/y.mp4", "/b"), None);
    // a textual prefix that is not a directory boundary does not match
    assert_eq!(strip_root("/albums/y.mp4", "/a"), None);
    assert_eq!(strip_root("/a", "/a"), Some(String::new()));
}

#[test]
fn test_is_absolute_and_absolutized() {
    assert!(is_absolute("/a/b"));
    assert!(!is_absolute("a/b"));
    assert!(!is_absolute(""));
    assert_eq!(absolutized("/x/y.mkv", "/cwd"), "/x/y.mkv");
    assert_eq!(absolutized("y.mkv", "/cwd"), "/cwd/y.mkv");
}

#[test]
fn test_extension_of() {
    assert_eq!(extension_of("/a/b.mp4"), Some("mp4".to_string()));
    assert_eq!(extension_of("/a/b"), None);
    assert_eq!(extension_of("/a/.hidden"), None);
    assert_eq!(extension_of("/a/b."), Some(String::new()));
    assert_eq!(extension_of("/a/x.y.MKV"), Some("MKV".to_string()));
}

#[test]
fn test_resolve_output_with_distinct_output_is_kept() {
    let r = resolve_output_with("/a/in.mp4", Some("/b/out.mkv"), false, "mkv");
    assert_eq!(r, "/b/out.mkv");
}

#[test]
fn test_resolve_output_with_colliding_output_is_suffixed() {
    // the colliding request carries an extension, so the fallback keeps it
    let r = resolve_output_with("/a/in.mp4", Some("/a/in.mp4"), true, "mkv");
    assert_eq!(r, "/a/in_transcoded.mp4");
    assert_ne!(r, "/a/in.mp4");
    // a request without an extension falls back to the default one
    let r = resolve_output_with("/a/in", Some("/a/in"), true, "mkv");
    assert_eq!(r, "/a/in_transcoded.mkv");
}

#[test]
fn test_resolve_output_with_no_output_is_suffixed() {
    let r = resolve_output_with("/a/in.mp4", None, false, "mkv");
    assert_eq!(r, "/a/in_transcoded.mkv");
}

#[test]
fn test_resolve_output_path_nonexistent_paths() {
    // none of these paths exist, so canonicalization falls back to the
    // paths as given and the comparison is textual
    let r = resolve_output_path("/no-such-dir/a.mp4", Some("/no-such-dir/a.mp4"), "mkv", "/");
    assert_eq!(r, "/no-such-dir/a_transcoded.mp4");
    let r = resolve_output_path("/no-such-dir/a.mp4", Some("/no-such-dir/b.mkv"), "mkv", "/");
    assert_eq!(r, "/no-such-dir/b.mkv");
    let r = resolve_output_path("/no-such-dir/a.mp4", None, "mkv", "/");
    assert_eq!(r, "/no-such-dir/a_transcoded.mkv");
    // a relative requested output is resolved against the given directory
    let r = resolve_output_path("/no-such-dir/a.mp4", Some("out.mkv"), "mkv", "/cwd");
    assert_eq!(r, "/cwd/out.mkv");
}

#[test]
fn test_paths_equivalent_textual_fallback() {
    assert!(paths_equivalent("/no-such-dir/a.mp4", "/no-such-dir/a.mp4"));
    assert!(!paths_equivalent("/no-such-dir/a.mp4", "/no-such-dir/b.mp4"));
}
