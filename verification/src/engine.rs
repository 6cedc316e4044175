//! The exact argument lists handed to the external transcode and probe
//! programs.  The transcode template is fixed and order-sensitive: global
//! metadata mapping comes before codec selection, subtitle streams are
//! copied, extra flags follow the fixed codec flags so they can refine them
//! under the engine's last-flag-wins convention, and the output path is
//! always the final argument.

use vstd::prelude::*;

use crate::strutil::push_all;

verus! {

broadcast use vstd::slice::group_slice_axioms;

/// The fixed transcode argument template around `input` and `output`.
pub open spec fn spec_transcode_args(
    input: Seq<char>,
    output: Seq<char>,
    vcodec: Seq<char>,
    acodec: Seq<char>,
    extra: Seq<Seq<char>>,
) -> Seq<Seq<char>> {
    seq![
        "-hide_banner"@,
        "-y"@,
        "-i"@,
        input,
        "-map_metadata"@,
        "0"@,
        "-movflags"@,
        "use_metadata_tags"@,
        "-c:v"@,
        vcodec,
        "-c:a"@,
        acodec,
        "-c:s"@,
        "copy"@,
    ] + extra + seq![output]
}

/// The probe argument list: machine-readable stream/format data as JSON, or
/// the plain human-readable banner-less form.
pub open spec fn spec_probe_args(input: Seq<char>, json: bool) -> Seq<Seq<char>> {
    if json {
        seq!["-v"@, "error"@, "-print_format"@, "json"@, "-show_format"@, "-show_streams"@, input]
    } else {
        seq!["-hide_banner"@, "-i"@, input]
    }
}

/// Build the argument list for one transcode invocation.
pub fn build_transcode_args(
    input: &str,
    output: &str,
    vcodec: &str,
    acodec: &str,
    extra: &[String],
) -> (r: Vec<String>)
    ensures
        r.deep_view() == spec_transcode_args(input@, output@, vcodec@, acodec@, extra.deep_view()),
{
    let mut args: Vec<String> = Vec::new();
    args.push(String::from_str("-hide_banner"));
    args.push(String::from_str("-y"));
    args.push(String::from_str("-i"));
    args.push(String::from_str(input));
    args.push(String::from_str("-map_metadata"));
    args.push(String::from_str("0"));
    args.push(String::from_str("-movflags"));
    args.push(String::from_str("use_metadata_tags"));
    args.push(String::from_str("-c:v"));
    args.push(String::from_str(vcodec));
    args.push(String::from_str("-c:a"));
    args.push(String::from_str(acodec));
    args.push(String::from_str("-c:s"));
    args.push(String::from_str("copy"));
    proof {
        assert(args.deep_view() =~= seq![
            "-hide_banner"@,
            "-y"@,
            "-i"@,
            input@,
            "-map_metadata"@,
            "0"@,
            "-movflags"@,
            "use_metadata_tags"@,
            "-c:v"@,
            vcodec@,
            "-c:a"@,
            acodec@,
            "-c:s"@,
            "copy"@,
        ]);
    }
    push_all(&mut args, extra);
    let ghost mid = args.deep_view();
    let out_string = String::from_str(output);
    args.push(out_string);
    proof {
        let lhs = args.deep_view();
        assert(forall|j: int| 0 <= j < mid.len() ==> lhs[j] == mid[j]);
        assert(lhs[mid.len() as int] == output@);
        assert(lhs =~= spec_transcode_args(input@, output@, vcodec@, acodec@, extra.deep_view()));
    }
    args
}

/// Build the argument list for one probe invocation.
pub fn build_probe_args(input: &str, json: bool) -> (r: Vec<String>)
    ensures
        r.deep_view() == spec_probe_args(input@, json),
{
    let mut args: Vec<String> = Vec::new();
    if json {
        args.push(String::from_str("-v"));
        args.push(String::from_str("error"));
        args.push(String::from_str("-print_format"));
        args.push(String::from_str("json"));
        args.push(String::from_str("-show_format"));
        args.push(String::from_str("-show_streams"));
        args.push(String::from_str(input));
    } else {
        args.push(String::from_str("-hide_banner"));
        args.push(String::from_str("-i"));
        args.push(String::from_str(input));
    }
    proof {
        assert(args.deep_view() =~= spec_probe_args(input@, json));
    }
    args
}

/// In the transcode template the extra flags stand after the fixed codec
/// flags and before the output path, which is always the final argument: a
/// user or preset flag can refine the template but never reorder it.
pub proof fn lemma_extra_flags_before_output(
    input: Seq<char>,
    output: Seq<char>,
    vcodec: Seq<char>,
    acodec: Seq<char>,
    extra: Seq<Seq<char>>,
)
    ensures
        spec_transcode_args(input, output, vcodec, acodec, extra).len() == 15 + extra.len(),
        spec_transcode_args(input, output, vcodec, acodec, extra).subrange(
            14,
            14 + extra.len() as int,
        ) == extra,
        spec_transcode_args(input, output, vcodec, acodec, extra).last() == output,
{
    let args = spec_transcode_args(input, output, vcodec, acodec, extra);
    assert(args.subrange(14, 14 + extra.len() as int) =~= extra);
}

} // verus!
