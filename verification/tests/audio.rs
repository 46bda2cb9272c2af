use melee_pc::audio::{CHANNELS, SAMPLE_RATE, frames_in, mux_args, mux_path, sibling, track_path};

#[test]
fn side_files_sit_next_to_the_output() {
    let out = "build/captures/run.mp4";
    assert_eq!(track_path(out), "build/captures/run.mp4.audio.f32");
    assert_eq!(mux_path(out), "build/captures/run.mp4.mux.mp4");
    assert_eq!(mux_path("clip.mkv"), "clip.mkv.mux.mkv");
    assert_eq!(mux_path("noext"), "noext.mux.mp4");
}

#[test]
fn the_mux_copies_video_and_encodes_the_raw_track() {
    let args = mux_args("v.mp4", "a.f32", "m.mp4");
    assert_eq!(
        args.join(" "),
        "-hide_banner -loglevel error -y -i v.mp4 -f f32le -ar 32000 -ac 2 -i a.f32 \
         -map 0:v:0 -map 1:a:0 -c:v copy -c:a aac -b:a 192k -movflags +faststart m.mp4"
    );
    assert_eq!(args.last(), Some(&"m.mp4".to_owned()));
    assert!(!args.contains(&"-an".to_owned()));
}

#[test]
fn a_dot_file_has_no_extension_and_a_directory_dot_is_not_one() {
    assert_eq!(mux_path(".hidden"), ".hidden.mux.mp4");
    assert_eq!(mux_path("dir.d/clip"), "dir.d/clip.mux.mp4");
    assert_eq!(mux_path("a.b.webm"), "a.b.webm.mux.webm");
    assert_eq!(sibling("x", ".y"), "x.y");
}

#[test]
fn stereo_frames_are_sample_pairs() {
    assert_eq!(SAMPLE_RATE, 32_000);
    assert_eq!(CHANNELS, 2);
    assert_eq!(frames_in(0), 0);
    assert_eq!(frames_in(1), 0);
    assert_eq!(frames_in(64), 32);
    assert_eq!(frames_in(65), 32);
}
