use melee_pc::capture::{
    AURORA_FRAME_SLOT_COUNT, CHANNEL_CAPACITY, Encoder, Geometry, MAX_CREDITS, Pressure, RING_SLOTS,
    Request, Spec, TEXTURE_FORMAT_BGRA8_UNORM, TEXTURE_FORMAT_BGRA8_UNORM_SRGB,
    TEXTURE_FORMAT_DEPTH32_FLOAT, TEXTURE_FORMAT_RGBA8_UNORM, TEXTURE_FORMAT_RGBA8_UNORM_SRGB,
    ffmpeg_args, pack_rows, padded_stride, pix_fmt,
};

#[test]
fn padded_stride_rounds_up_to_256() {
    assert_eq!(padded_stride(960), 3840);
    assert_eq!(padded_stride(2560), 10240);
    assert_eq!(padded_stride(100), 512);
    for width in [1u32, 3, 63, 64, 65, 333, 1279, 1920, 2561] {
        let stride = padded_stride(width);
        assert_eq!(stride % 256, 0, "width {width} gave {stride}");
        assert!(stride >= width * 4, "width {width} gave {stride}");
        assert!(stride < width * 4 + 256, "width {width} gave {stride}");
    }
}

fn padded_image(width: u32, height: u32) -> (Vec<u8>, usize) {
    let padded = padded_stride(width) as usize;
    let mut src = vec![0u8; padded * height as usize];
    for row in 0..height as usize {
        let marker = (row + 1) as u8;
        let start = row * padded;
        src[start..start + width as usize * 4].fill(marker);
    }
    (src, padded)
}

#[test]
fn pack_rows_drops_the_row_padding() {
    let (src, padded) = padded_image(100, 4);
    let out_stride = 100 * 4;
    assert!(padded > out_stride);
    let mut dst = Vec::new();
    assert!(pack_rows(&src, padded, out_stride, 4, &mut dst));
    assert_eq!(dst.len(), out_stride * 4);
    for row in 0..4 {
        let marker = (row + 1) as u8;
        assert!(
            dst[row * out_stride..(row + 1) * out_stride].iter().all(|byte| *byte == marker),
            "row {row} is not all {marker}"
        );
    }
}

#[test]
fn pack_rows_crops_an_odd_surface_to_even_dimensions() {
    let (width, height) = (101u32, 7u32);
    let (src, padded) = padded_image(width, height);
    let geometry = Geometry::even(width, height);
    assert_eq!(geometry, Geometry { width: 100, height: 6 });
    let mut dst = Vec::new();
    assert!(pack_rows(&src, padded, geometry.out_stride(), geometry.height as usize, &mut dst));
    assert_eq!(dst.len(), geometry.frame_bytes());
    assert_eq!(dst.len(), 100 * 4 * 6);
    assert!(dst.iter().all(|byte| *byte != 0));
}

#[test]
fn pack_rows_reuses_the_destination() {
    let (src, padded) = padded_image(8, 2);
    let mut dst = vec![0xAAu8; 9999];
    assert!(pack_rows(&src, padded, 32, 2, &mut dst));
    assert_eq!(dst.len(), 64);
}

#[test]
fn pack_rows_copies_every_byte_when_the_stride_needs_no_padding() {
    let (width, height) = (64u32, 3u32);
    let out_stride = width as usize * 4;
    assert_eq!(padded_stride(width) as usize, out_stride);
    let mut src = vec![0u8; out_stride * height as usize];
    for (index, byte) in src.iter_mut().enumerate() {
        *byte = (index % 251) as u8;
    }
    let mut dst = Vec::new();
    assert!(pack_rows(&src, out_stride, out_stride, height as usize, &mut dst));
    assert_eq!(dst, src);
}

#[test]
fn pack_rows_handles_an_empty_image_and_refuses_a_short_source() {
    let mut dst = vec![0xAAu8; 16];
    assert!(pack_rows(&[], 256, 256, 0, &mut dst));
    assert!(dst.is_empty());

    let (src, padded) = padded_image(8, 2);
    assert!(!pack_rows(&src[..padded], padded, 32, 2, &mut dst));
    assert_eq!(dst.len(), 32);
}

#[test]
fn geometry_rounds_a_tiny_surface_down_to_nothing() {
    assert_eq!(Geometry::even(1, 1), Geometry { width: 0, height: 0 });
    assert_eq!(Geometry::even(0, 0), Geometry { width: 0, height: 0 });
    assert_eq!(Geometry::even(1, 1).frame_bytes(), 0);
    assert_eq!(Geometry::even(3, 5), Geometry { width: 2, height: 4 });
}

#[test]
fn the_ring_holds_every_frame_the_throttle_can_admit() {
    let admitted = MAX_CREDITS - 1;
    let queued = AURORA_FRAME_SLOT_COUNT + 1;
    assert!(
        RING_SLOTS as i64 >= admitted + queued,
        "{RING_SLOTS} slots cannot hold {} readbacks",
        admitted + queued
    );
    assert!(CHANNEL_CAPACITY as i64 >= admitted + queued);
}

#[test]
fn pix_fmt_maps_only_the_eight_bit_formats() {
    assert_eq!(pix_fmt(TEXTURE_FORMAT_BGRA8_UNORM), Some("bgra"));
    assert_eq!(pix_fmt(TEXTURE_FORMAT_BGRA8_UNORM_SRGB), Some("bgra"));
    assert_eq!(pix_fmt(TEXTURE_FORMAT_RGBA8_UNORM), Some("rgba"));
    assert_eq!(pix_fmt(TEXTURE_FORMAT_RGBA8_UNORM_SRGB), Some("rgba"));
    assert_eq!(pix_fmt(TEXTURE_FORMAT_DEPTH32_FLOAT), None);
}

fn spec(encoder: Encoder, out: &str) -> Spec {
    Spec {
        width: 2560,
        height: 1920,
        frame_rate: 60,
        pix_fmt: "bgra",
        encoder,
        bitrate: "40M".to_owned(),
        out: out.to_owned(),
    }
}

fn index_of(args: &[String], value: &str) -> usize {
    args.iter()
        .position(|arg| arg == value)
        .unwrap_or_else(|| panic!("{value} missing from {args:?}"))
}

#[test]
fn videotoolbox_args_are_ordered_and_bitrate_based() {
    let args = ffmpeg_args(&spec(Encoder::VideoToolbox, "/tmp/out.mp4"));
    let input = index_of(&args, "-i");
    assert_eq!(args[input + 1], "pipe:0");
    for flag in ["-f", "-pix_fmt", "-video_size", "-framerate"] {
        assert!(index_of(&args, flag) < input, "{flag} must precede -i");
    }
    assert_eq!(args[index_of(&args, "-f") + 1], "rawvideo");
    assert_eq!(args[index_of(&args, "-video_size") + 1], "2560x1920");
    assert_eq!(args[index_of(&args, "-framerate") + 1], "60");
    assert_eq!(args[index_of(&args, "-c:v") + 1], "h264_videotoolbox");
    assert_eq!(args[index_of(&args, "-b:v") + 1], "40M");
    assert_eq!(args[index_of(&args, "-fps_mode") + 1], "passthrough");
    assert_eq!(args.last().map(String::as_str), Some("/tmp/out.mp4"));
    let pix_fmts: Vec<&String> = args
        .iter()
        .enumerate()
        .filter(|(i, arg)| *arg == "-pix_fmt" && *i < args.len() - 1)
        .map(|(i, _)| &args[i + 1])
        .collect();
    assert_eq!(pix_fmts, ["bgra", "yuv420p"]);
}

#[test]
fn libx264_args_swap_the_bitrate_for_a_crf() {
    let args = ffmpeg_args(&spec(Encoder::X264, "/tmp/out.mp4"));
    assert_eq!(args[index_of(&args, "-c:v") + 1], "libx264");
    assert_eq!(args[index_of(&args, "-preset") + 1], "veryfast");
    assert_eq!(args[index_of(&args, "-crf") + 1], "18");
    assert!(!args.iter().any(|arg| arg == "-b:v"));
}

#[test]
fn the_output_frame_rate_follows_the_simulation_rate() {
    let mut spec = spec(Encoder::X264, "/tmp/out.mp4");
    spec.frame_rate = 30;
    let args = ffmpeg_args(&spec);
    assert_eq!(args[index_of(&args, "-framerate") + 1], "30");
}

#[test]
fn an_unknown_encoder_name_is_passed_through_with_a_bitrate() {
    let args = ffmpeg_args(&spec(Encoder::from_name("hevc_videotoolbox"), "/tmp/out.mp4"));
    assert_eq!(args[index_of(&args, "-c:v") + 1], "hevc_videotoolbox");
    assert_eq!(args[index_of(&args, "-b:v") + 1], "40M");
}

#[test]
fn credits_gate_the_throttle_and_the_drain() {
    let mut pressure = Pressure::default();
    assert!(!pressure.should_wait());
    assert!(!pressure.draining());
    pressure.recorded();
    assert!(!pressure.should_wait());
    assert!(pressure.draining());
    pressure.recorded();
    assert_eq!(MAX_CREDITS, 2);
    assert!(pressure.should_wait());
    pressure.released();
    assert!(!pressure.should_wait());
    pressure.released();
    assert!(!pressure.draining());
}

#[test]
fn disabling_releases_both_predicates() {
    let mut pressure = Pressure::default();
    pressure.recorded();
    pressure.recorded();
    assert!(pressure.should_wait());
    pressure.disable();
    assert!(!pressure.should_wait());
    assert!(!pressure.draining());
    assert!(!pressure.active());
}

#[test]
fn a_started_capture_is_active_until_disabled() {
    let mut pressure = Pressure::default();
    assert!(!pressure.active() && !pressure.has_started());
    pressure.started = true;
    assert!(pressure.active());
    pressure.encoded();
    pressure.encoded();
    assert_eq!(pressure.encoded_frames(), 2);
    pressure.disable();
    assert!(!pressure.active() && pressure.is_disabled());
}

#[test]
fn the_encoder_is_named_as_ffmpeg_knows_it() {
    assert_eq!(Encoder::from_name("libx264"), Encoder::X264);
    assert_eq!(Encoder::from_name("h264_videotoolbox"), Encoder::VideoToolbox);
    assert_eq!(Encoder::from_name("LIBX264"), Encoder::Other("LIBX264".to_owned()));
    assert_eq!(Encoder::platform_default(true), Encoder::VideoToolbox);
    assert_eq!(Encoder::platform_default(false), Encoder::X264);
    assert_eq!(Encoder::X264.name(), "libx264");
}

#[test]
fn a_request_needs_an_output_and_fills_in_the_rest() {
    assert!(Request::from_settings(None, None, None, None, false).is_none());
    let request = Request::from_settings(Some("out.mp4".to_owned()), Some("  libx264 \n".to_owned()), None, None, true)
        .expect("an output was given");
    assert_eq!(request.out, "out.mp4");
    assert_eq!(request.encoder, Encoder::X264);
    assert_eq!(request.bitrate, "40M");
    assert_eq!(request.binary, "ffmpeg");
    let request = Request::from_settings(Some("o".to_owned()), None, Some("8M".to_owned()), Some("/opt/ff".to_owned()), true)
        .expect("an output was given");
    assert_eq!(request.encoder, Encoder::VideoToolbox);
    assert_eq!(request.bitrate, "8M");
    assert_eq!(request.binary, "/opt/ff");
}

#[test]
fn a_huge_surface_saturates_instead_of_wrapping() {
    assert_eq!(padded_stride(u32::MAX), u32::MAX);
    assert_eq!(padded_stride(u32::MAX / 4), u32::MAX - 3);
}

use melee_pc::capture::{
    Failure, MapStatus, MapStep, RecordStep, SlotState, Source, begin_mapping, finish_report, map_done,
    record_step, start_plan,
};

#[test]
fn a_frame_is_copied_into_the_first_free_slot() {
    let source = Source { width: 640, height: 480 };
    let ring = [SlotState::Submitted, SlotState::Free, SlotState::Free];
    assert_eq!(record_step(false, false, Some((source, 60)), source, 60, &ring), RecordStep::Copy(1));
    assert_eq!(record_step(true, false, Some((source, 60)), source, 60, &ring), RecordStep::Skip);
    assert_eq!(record_step(false, true, None, source, 60, &ring), RecordStep::Skip);
    assert_eq!(record_step(false, false, None, source, 60, &ring), RecordStep::Start);
    let smaller = Source { width: 320, height: 480 };
    assert_eq!(
        record_step(false, false, Some((source, 60)), smaller, 60, &ring),
        RecordStep::Fail(Failure::SizeChanged)
    );
    assert_eq!(
        record_step(false, false, Some((source, 60)), source, 30, &ring),
        RecordStep::Fail(Failure::RateChanged)
    );
    let full = [SlotState::Submitted, SlotState::Mapping];
    assert_eq!(
        record_step(false, false, Some((source, 60)), source, 60, &full),
        RecordStep::Fail(Failure::RingDry)
    );
}

#[test]
fn submitted_slots_are_mapped_and_come_back_free() {
    let mut ring = vec![SlotState::Submitted, SlotState::Free, SlotState::Submitted, SlotState::Mapping];
    assert_eq!(begin_mapping(&mut ring), [0, 2]);
    assert_eq!(ring, [SlotState::Mapping, SlotState::Free, SlotState::Mapping, SlotState::Mapping]);
    assert_eq!(map_done(&mut ring, 0, MapStatus::Success), MapStep::Pack);
    assert_eq!(map_done(&mut ring, 0, MapStatus::Success), MapStep::Ignore);
    assert_eq!(map_done(&mut ring, 2, MapStatus::Aborted), MapStep::Release { fail: false });
    assert_eq!(map_done(&mut ring, 3, MapStatus::Error), MapStep::Release { fail: true });
    assert_eq!(map_done(&mut ring, 9, MapStatus::Success), MapStep::Ignore);
    assert_eq!(ring, [SlotState::Free; 4]);
}

#[test]
fn a_surface_is_planned_or_refused_with_a_reason() {
    let plan = start_plan(TEXTURE_FORMAT_BGRA8_UNORM, 101, 7).expect("a capturable surface");
    assert_eq!(plan.pix_fmt, "bgra");
    assert_eq!(plan.geometry, Geometry { width: 100, height: 6 });
    assert_eq!(plan.padded_stride, 512);
    assert_eq!(plan.buffer_size, 512 * 7);
    assert_eq!(
        start_plan(TEXTURE_FORMAT_DEPTH32_FLOAT, 64, 64).unwrap_err(),
        format!("surface format {TEXTURE_FORMAT_DEPTH32_FLOAT} is neither BGRA8 nor RGBA8")
    );
    assert_eq!(
        start_plan(TEXTURE_FORMAT_RGBA8_UNORM, 1, 9).unwrap_err(),
        "surface is 1x9, too small to encode"
    );
}

#[test]
fn the_last_line_says_whether_every_frame_reached_ffmpeg() {
    assert_eq!(finish_report(30, 30), "30 frames reached ffmpeg");
    assert_eq!(
        finish_report(28, 30),
        "read back 30 frames but only 28 reached ffmpeg, the file is incomplete"
    );
    assert_eq!(Failure::Stalled(2000).message(), "the encoder took no frame for 2000 ms");
    assert_eq!(Failure::RingDry.message(), "the readback ring ran dry");
}
