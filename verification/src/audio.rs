use vstd::prelude::*;

use crate::capture::views_of;
use crate::text::{decimal, push_decimal, push_str};

verus! {

/// Samples a second the game mixes at.
pub const SAMPLE_RATE: u32 = 32_000;

/// Interleaved channels of a mixed frame.
pub const CHANNELS: usize = 2;

/// The part of a path's file name after its last `.`, as `Path::extension`
/// of std finds it.
pub uninterp spec fn path_extension(path: Seq<char>) -> Option<Seq<char>>;

/// `std::path::Path::extension` on `path`, as text. Its result is taken to
/// be a function of the path alone; which part of the file name it picks is
/// std's rule and is not restated here.
#[verifier::external_body]
fn extension_of(path: &str) -> (r: Option<String>)
    ensures
        r matches Some(e) ==> path_extension(path@) == Some(e@),
        r is None ==> path_extension(path@) is None,
{
    match std::path::Path::new(path).extension() {
        Some(e) => Some(e.to_string_lossy().into_owned()),
        None => None,
    }
}

/// A file next to `out` whose name is `out`'s with `suffix` appended.
pub fn sibling(out: &str, suffix: &str) -> (p: String)
    ensures
        p@ == out@ + suffix@,
{
    let mut name = String::new();
    push_str(&mut name, out);
    push_str(&mut name, suffix);
    name
}

/// Where the raw audio of a capture to `out` is written.
pub fn track_path(out: &str) -> (p: String)
    ensures
        p@ == out@ + ".audio.f32"@,
{
    sibling(out, ".audio.f32")
}

/// Where the muxed file is written before it replaces `out`: `.mux.` and
/// `out`'s extension (`mp4` when it has none) appended to `out`.
pub fn mux_path(out: &str) -> (p: String)
    ensures
        p@ == out@ + ".mux."@ + (match path_extension(out@) {
            Some(e) => e,
            None => "mp4"@,
        }),
{
    let extension = match extension_of(out) {
        Some(e) => e,
        None => "mp4".to_owned(),
    };
    let mut suffix = String::new();
    push_str(&mut suffix, ".mux.");
    push_str(&mut suffix, extension.as_str());
    let p = sibling(out, suffix.as_str());
    assert(p@ =~= out@ + ".mux."@ + extension@);
    p
}

/// The arguments ffmpeg muxes a capture with: the video stream of `video`
/// copied, the raw stereo track at the game's rate encoded to AAC, into `muxed`.
pub open spec fn spec_mux_args(video: Seq<char>, track: Seq<char>, muxed: Seq<char>) -> Seq<Seq<char>> {
    seq![
        "-hide_banner"@, "-loglevel"@, "error"@, "-y"@, "-i"@, video,
        "-f"@, "f32le"@, "-ar"@, decimal(SAMPLE_RATE as nat), "-ac"@, decimal(CHANNELS as nat),
        "-i"@, track,
        "-map"@, "0:v:0"@, "-map"@, "1:a:0"@, "-c:v"@, "copy"@, "-c:a"@, "aac"@, "-b:a"@, "192k"@,
        "-movflags"@, "+faststart"@, muxed,
    ]
}

fn push_arg(args: &mut Vec<String>, arg: &str)
    ensures
        views_of(final(args)@) == views_of(old(args)@).push(arg@),
{
    args.push(arg.to_owned());
    assert(views_of(args@) =~= views_of(old(args)@).push(arg@));
}

pub fn mux_args(video: &str, track: &str, muxed: &str) -> (args: Vec<String>)
    ensures
        views_of(args@) == spec_mux_args(video@, track@, muxed@),
{
    let mut args: Vec<String> = Vec::new();
    push_arg(&mut args, "-hide_banner");
    push_arg(&mut args, "-loglevel");
    push_arg(&mut args, "error");
    push_arg(&mut args, "-y");
    push_arg(&mut args, "-i");
    push_arg(&mut args, video);
    push_arg(&mut args, "-f");
    push_arg(&mut args, "f32le");
    push_arg(&mut args, "-ar");
    let mut rate = String::new();
    push_decimal(&mut rate, SAMPLE_RATE as u64);
    push_arg(&mut args, rate.as_str());
    push_arg(&mut args, "-ac");
    let mut channels = String::new();
    push_decimal(&mut channels, CHANNELS as u64);
    push_arg(&mut args, channels.as_str());
    push_arg(&mut args, "-i");
    push_arg(&mut args, track);
    push_arg(&mut args, "-map");
    push_arg(&mut args, "0:v:0");
    push_arg(&mut args, "-map");
    push_arg(&mut args, "1:a:0");
    push_arg(&mut args, "-c:v");
    push_arg(&mut args, "copy");
    push_arg(&mut args, "-c:a");
    push_arg(&mut args, "aac");
    push_arg(&mut args, "-b:a");
    push_arg(&mut args, "192k");
    push_arg(&mut args, "-movflags");
    push_arg(&mut args, "+faststart");
    push_arg(&mut args, muxed);
    assert(views_of(args@) =~= spec_mux_args(video@, track@, muxed@));
    args
}

/// Stereo frames in `samples` interleaved samples; a lone trailing sample is
/// not a frame.
pub fn frames_in(samples: usize) -> (n: u64)
    ensures
        n == samples / CHANNELS,
{
    (samples / CHANNELS) as u64
}

} // verus!
