use transcoderr::preset::{apply_preset, parse_preset, Preset};

fn flags(v: &[&str]) -> Vec<String> {
    v.iter().map(|s| s.to_string()).collect()
}

#[test]
fn test_transcode_preset_original_h265_dry_run() {
    let (vcodec, acodec, extra) = apply_preset(Some("original-h265"), "libx264", "aac", &[]);
    assert_eq!(vcodec, "libx265", "Preset should use libx265");
    assert_eq!(acodec, "aac", "Preset should use AAC");
    assert!(extra.iter().any(|f| f == "-crf"), "Preset should include CRF");
    assert!(extra.iter().any(|f| f == "-b:a"), "Preset should include audio bitrate");
}

#[test]
fn test_transcode_preset_tv_h265_fast_dry_run() {
    let (vcodec, _acodec, extra) = apply_preset(Some("tv-h265-fast"), "libx264", "aac", &[]);
    assert_eq!(vcodec, "libx265", "TV preset should use libx265");
    assert!(extra.iter().any(|f| f == "160k"), "TV preset should use 160k audio bitrate");
}

#[test]
fn test_transcode_preset_movie_quality_dry_run() {
    let (vcodec, _acodec, extra) = apply_preset(Some("movie-quality"), "libx264", "aac", &[]);
    assert_eq!(vcodec, "libx265", "Movie preset should use libx265");
    assert!(extra.iter().any(|f| f == "320k"), "Movie preset should use 320k audio bitrate");
}

#[test]
fn test_invalid_preset_shows_error() {
    assert!(
        parse_preset("invalid-preset-name").is_none(),
        "Invalid preset should produce error or warning"
    );
    let user_extra = flags(&["-crf", "30"]);
    let with_unknown = apply_preset(Some("invalid-preset-name"), "libx264", "aac", &user_extra);
    let without = apply_preset(None, "libx264", "aac", &user_extra);
    assert_eq!(with_unknown.0, without.0);
    assert_eq!(with_unknown.1, without.1);
    assert_eq!(with_unknown.2, without.2);
}

#[test]
fn test_no_preset_passes_settings_through() {
    let extra = flags(&["-tune", "film"]);
    let (vcodec, acodec, out) = apply_preset(None, "libx264", "ac3", &extra);
    assert_eq!(vcodec, "libx264");
    assert_eq!(acodec, "ac3");
    assert_eq!(out, extra);
}

#[test]
fn test_preset_defaults_yield_preset_settings() {
    let (vcodec, acodec, extra) = apply_preset(Some("original-h265"), "libx264", "aac", &[]);
    assert_eq!(vcodec, "libx265");
    assert_eq!(acodec, "aac");
    assert_eq!(extra, flags(&["-crf", "18", "-preset", "slow", "-b:a", "256k"]));

    let (vcodec, acodec, extra) = apply_preset(Some("tv-h265-fast"), "libx264", "aac", &[]);
    assert_eq!(vcodec, "libx265");
    assert_eq!(acodec, "aac");
    assert_eq!(extra, flags(&["-crf", "22", "-preset", "medium", "-b:a", "160k"]));

    let (vcodec, acodec, extra) = apply_preset(Some("movie-quality"), "libx264", "aac", &[]);
    assert_eq!(vcodec, "libx265");
    assert_eq!(acodec, "aac");
    assert_eq!(extra, flags(&["-crf", "16", "-preset", "slow", "-b:a", "320k"]));
}

#[test]
fn test_preset_aliases_resolve_like_full_names() {
    assert_eq!(parse_preset("original"), Some(Preset::OriginalH265));
    assert_eq!(parse_preset("original-h265"), Some(Preset::OriginalH265));
    assert_eq!(parse_preset("tv-fast"), Some(Preset::TvH265Fast));
    assert_eq!(parse_preset("tv-h265-fast"), Some(Preset::TvH265Fast));
    assert_eq!(parse_preset("movie"), Some(Preset::MovieQuality));
    assert_eq!(parse_preset("movie-quality"), Some(Preset::MovieQuality));
}

#[test]
fn test_explicit_codec_overrides_preset() {
    let (vcodec, acodec, _extra) = apply_preset(Some("original-h265"), "copy", "copy", &[]);
    assert_eq!(vcodec, "copy");
    assert_eq!(acodec, "copy");
}

#[test]
fn test_user_extra_flags_follow_preset_flags() {
    let user_extra = flags(&["-b:a", "999k"]);
    let (_v, _a, extra) = apply_preset(Some("movie-quality"), "libx264", "aac", &user_extra);
    assert_eq!(
        extra,
        flags(&["-crf", "16", "-preset", "slow", "-b:a", "320k", "-b:a", "999k"])
    );
    let preset_pos = extra.iter().position(|f| f == "320k").unwrap();
    let user_pos = extra.iter().position(|f| f == "999k").unwrap();
    assert!(
        preset_pos < user_pos,
        "user audio bitrate must come after the preset's so it wins"
    );
    assert_eq!(extra[extra.len() - 2], "-b:a");
    assert_eq!(extra[extra.len() - 1], "999k");
}
