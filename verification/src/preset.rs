//! The preset catalog and its application: merging a named preset with the
//! codecs and extra flags the user asked for.
//!
//! A requested codec equal to the baseline default is treated as "not
//! specified" and may be replaced by the preset's choice; any other value is
//! an explicit user decision and always wins.  Preset flags come first in
//! the effective flag list and user flags last, so that the engine's
//! last-flag-wins convention lets the user refine a preset.

use vstd::prelude::*;

use crate::strutil::{opt_str_view, push_all, str_eq};

verus! {

broadcast use vstd::slice::group_slice_axioms;

/// The named encoding presets of the catalog.
#[derive(Clone, Copy, PartialEq, Eq, Structural, Debug)]
pub enum Preset {
    /// Visually lossless h265 with high-quality audio.
    OriginalH265,
    /// Faster h265 for television recordings.
    TvH265Fast,
    /// Highest-quality h265 for movies.
    MovieQuality,
}

/// The video codec a preset selects.
pub open spec fn spec_preset_video(p: Preset) -> Seq<char> {
    match p {
        Preset::OriginalH265 => "libx265"@,
        Preset::TvH265Fast => "libx265"@,
        Preset::MovieQuality => "libx265"@,
    }
}

/// The audio codec a preset selects.
pub open spec fn spec_preset_audio(p: Preset) -> Seq<char> {
    match p {
        Preset::OriginalH265 => "aac"@,
        Preset::TvH265Fast => "aac"@,
        Preset::MovieQuality => "aac"@,
    }
}

/// The ordered extra encoder flags a preset carries.
pub open spec fn spec_preset_flags(p: Preset) -> Seq<Seq<char>> {
    match p {
        Preset::OriginalH265 => seq!["-crf"@, "18"@, "-preset"@, "slow"@, "-b:a"@, "256k"@],
        Preset::TvH265Fast => seq!["-crf"@, "22"@, "-preset"@, "medium"@, "-b:a"@, "160k"@],
        Preset::MovieQuality => seq!["-crf"@, "16"@, "-preset"@, "slow"@, "-b:a"@, "320k"@],
    }
}

/// The preset a name denotes, aliases included; `None` for an unknown name.
pub open spec fn spec_parse_preset(name: Seq<char>) -> Option<Preset> {
    if name == "original-h265"@ || name == "original"@ {
        Some(Preset::OriginalH265)
    } else if name == "tv-h265-fast"@ || name == "tv-fast"@ {
        Some(Preset::TvH265Fast)
    } else if name == "movie-quality"@ || name == "movie"@ {
        Some(Preset::MovieQuality)
    } else {
        None
    }
}

/// Look a preset name up in the catalog.  A `None` result on a name the
/// caller was given is the signal that the name is unrecognized.
pub fn parse_preset(name: &str) -> (r: Option<Preset>)
    ensures
        r == spec_parse_preset(name@),
{
    if str_eq(name, "original-h265") || str_eq(name, "original") {
        Some(Preset::OriginalH265)
    } else if str_eq(name, "tv-h265-fast") || str_eq(name, "tv-fast") {
        Some(Preset::TvH265Fast)
    } else if str_eq(name, "movie-quality") || str_eq(name, "movie") {
        Some(Preset::MovieQuality)
    } else {
        None
    }
}

/// The video codec of `p`, as catalog data.
pub fn preset_video_codec(p: Preset) -> (r: String)
    ensures
        r@ == spec_preset_video(p),
{
    match p {
        Preset::OriginalH265 => String::from_str("libx265"),
        Preset::TvH265Fast => String::from_str("libx265"),
        Preset::MovieQuality => String::from_str("libx265"),
    }
}

/// The audio codec of `p`, as catalog data.
pub fn preset_audio_codec(p: Preset) -> (r: String)
    ensures
        r@ == spec_preset_audio(p),
{
    match p {
        Preset::OriginalH265 => String::from_str("aac"),
        Preset::TvH265Fast => String::from_str("aac"),
        Preset::MovieQuality => String::from_str("aac"),
    }
}

/// The extra flag list of `p`, as catalog data.
pub fn preset_flag_list(p: Preset) -> (r: Vec<String>)
    ensures
        r.deep_view() == spec_preset_flags(p),
{
    let mut v: Vec<String> = Vec::new();
    match p {
        Preset::OriginalH265 => {
            v.push(String::from_str("-crf"));
            v.push(String::from_str("18"));
            v.push(String::from_str("-preset"));
            v.push(String::from_str("slow"));
            v.push(String::from_str("-b:a"));
            v.push(String::from_str("256k"));
        },
        Preset::TvH265Fast => {
            v.push(String::from_str("-crf"));
            v.push(String::from_str("22"));
            v.push(String::from_str("-preset"));
            v.push(String::from_str("medium"));
            v.push(String::from_str("-b:a"));
            v.push(String::from_str("160k"));
        },
        Preset::MovieQuality => {
            v.push(String::from_str("-crf"));
            v.push(String::from_str("16"));
            v.push(String::from_str("-preset"));
            v.push(String::from_str("slow"));
            v.push(String::from_str("-b:a"));
            v.push(String::from_str("320k"));
        },
    }
    proof {
        assert(v.deep_view() =~= spec_preset_flags(p));
    }
    v
}

/// The effective video codec: the preset's choice replaces a requested
/// codec only when the request equals the baseline default.
pub open spec fn spec_effective_video(preset: Option<Seq<char>>, requested: Seq<char>) -> Seq<
    char,
> {
    match preset {
        None => requested,
        Some(name) => match spec_parse_preset(name) {
            None => requested,
            Some(p) => if requested == "libx264"@ {
                spec_preset_video(p)
            } else {
                requested
            },
        },
    }
}

/// The effective audio codec, under the same rule as the video codec.
pub open spec fn spec_effective_audio(preset: Option<Seq<char>>, requested: Seq<char>) -> Seq<
    char,
> {
    match preset {
        None => requested,
        Some(name) => match spec_parse_preset(name) {
            None => requested,
            Some(p) => if requested == "aac"@ {
                spec_preset_audio(p)
            } else {
                requested
            },
        },
    }
}

/// The flags a preset name contributes: its flag list when the name is
/// recognized, nothing otherwise.
pub open spec fn spec_preset_part(preset: Option<Seq<char>>) -> Seq<Seq<char>> {
    match preset {
        None => Seq::empty(),
        Some(name) => match spec_parse_preset(name) {
            None => Seq::empty(),
            Some(p) => spec_preset_flags(p),
        },
    }
}

/// The effective extra flags: the preset's flags first, the user's after.
pub open spec fn spec_effective_flags(preset: Option<Seq<char>>, extra: Seq<Seq<char>>) -> Seq<
    Seq<char>,
> {
    spec_preset_part(preset) + extra
}

/// Merge an optional preset with the requested codecs and extra flags into
/// the effective settings handed to the engine.
pub fn apply_preset(preset: Option<&str>, vcodec: &str, acodec: &str, extra: &[String]) -> (r: (
    String,
    String,
    Vec<String>,
))
    ensures
        r.0@ == spec_effective_video(opt_str_view(preset), vcodec@),
        r.1@ == spec_effective_audio(opt_str_view(preset), acodec@),
        r.2.deep_view() == spec_effective_flags(opt_str_view(preset), extra.deep_view()),
{
    let parsed = match preset {
        Some(name) => parse_preset(name),
        None => None,
    };
    let mut out_extra: Vec<String> = Vec::new();
    let (out_v, out_a) = match parsed {
        Some(p) => {
            let v = if str_eq(vcodec, "libx264") {
                preset_video_codec(p)
            } else {
                String::from_str(vcodec)
            };
            let a = if str_eq(acodec, "aac") {
                preset_audio_codec(p)
            } else {
                String::from_str(acodec)
            };
            let mut flags = preset_flag_list(p);
            out_extra.append(&mut flags);
            (v, a)
        },
        None => (String::from_str(vcodec), String::from_str(acodec)),
    };
    proof {
        assert(out_extra.deep_view() =~= spec_preset_part(opt_str_view(preset)));
    }
    push_all(&mut out_extra, extra);
    (out_v, out_a, out_extra)
}

/// A preset applied over the baseline codecs with no extra flags yields
/// exactly the preset's own settings.
pub proof fn lemma_preset_applies_cleanly(name: Seq<char>, p: Preset)
    requires
        spec_parse_preset(name) == Some(p),
    ensures
        spec_effective_video(Some(name), "libx264"@) == spec_preset_video(p),
        spec_effective_audio(Some(name), "aac"@) == spec_preset_audio(p),
        spec_effective_flags(Some(name), Seq::empty()) == spec_preset_flags(p),
{
    assert(spec_preset_flags(p) + Seq::empty() =~= spec_preset_flags(p));
}

/// A requested codec that differs from the baseline default is kept
/// verbatim, whatever the preset says and whether it is known.
pub proof fn lemma_user_override_wins(
    preset: Option<Seq<char>>,
    vcodec: Seq<char>,
    acodec: Seq<char>,
)
    requires
        vcodec != "libx264"@,
        acodec != "aac"@,
    ensures
        spec_effective_video(preset, vcodec) == vcodec,
        spec_effective_audio(preset, acodec) == acodec,
{
}

/// User-supplied flags always form the tail of the effective flag list,
/// after every preset flag, so the engine's last-flag-wins convention makes
/// a user flag override a preset flag of the same name.
pub proof fn lemma_user_flags_last(preset: Option<Seq<char>>, extra: Seq<Seq<char>>)
    ensures
        spec_effective_flags(preset, extra).len() == spec_preset_part(preset).len()
            + extra.len(),
        spec_effective_flags(preset, extra).skip(spec_preset_part(preset).len() as int)
            == extra,
{
    assert(spec_effective_flags(preset, extra).skip(spec_preset_part(preset).len() as int)
        =~= extra);
}

/// An unrecognized preset name changes nothing: the effective settings are
/// those of the no-preset case.  The name being unrecognized stays
/// observable through `parse_preset` returning `None`.
pub proof fn lemma_unknown_preset_is_noop(
    name: Seq<char>,
    vcodec: Seq<char>,
    acodec: Seq<char>,
    extra: Seq<Seq<char>>,
)
    requires
        spec_parse_preset(name) is None,
    ensures
        spec_effective_video(Some(name), vcodec) == spec_effective_video(None, vcodec),
        spec_effective_audio(Some(name), acodec) == spec_effective_audio(None, acodec),
        spec_effective_flags(Some(name), extra) == spec_effective_flags(None, extra),
{
    assert(Seq::<Seq<char>>::empty() + extra =~= extra);
}

} // verus!
