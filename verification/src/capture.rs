use vstd::prelude::*;

use crate::text::{chars_of, decimal, push_decimal, push_str, str_eq, string_of, trim, trim_of};

verus! {

/// Row pitch the GPU requires for a texture-to-buffer copy.
pub const ROW_ALIGNMENT: u32 = 256;

/// Bit rate handed to encoders that are driven by bit rate.
pub const DEFAULT_BITRATE: &'static str = "40M";

/// Frames the game may run ahead of the encoder before it waits.
pub const MAX_CREDITS: i64 = 2;

/// Frames the renderer keeps in flight of its own.
pub const AURORA_FRAME_SLOT_COUNT: i64 = 2;

/// Readback buffers: every admitted frame, every queued one, and one spare.
pub const RING_SLOTS: usize = 5;

/// Frames the writer thread may have queued.
pub const CHANNEL_CAPACITY: usize = 5;

/// A surface texture format, as the WebGPU header numbers it.
pub type TextureFormat = u32;

pub const TEXTURE_FORMAT_RGBA8_UNORM: TextureFormat = 0x12;
pub const TEXTURE_FORMAT_RGBA8_UNORM_SRGB: TextureFormat = 0x13;
pub const TEXTURE_FORMAT_BGRA8_UNORM: TextureFormat = 0x17;
pub const TEXTURE_FORMAT_BGRA8_UNORM_SRGB: TextureFormat = 0x18;
pub const TEXTURE_FORMAT_DEPTH32_FLOAT: TextureFormat = 0x2A;

/// The encoder ffmpeg is asked for.
#[derive(Clone, Debug, PartialEq, Eq)]
pub enum Encoder {
    VideoToolbox,
    X264,
    Other(String),
}

pub enum EncoderView {
    VideoToolbox,
    X264,
    Other(Seq<char>),
}

impl View for Encoder {
    type V = EncoderView;

    open spec fn view(&self) -> EncoderView {
        match self {
            Encoder::VideoToolbox => EncoderView::VideoToolbox,
            Encoder::X264 => EncoderView::X264,
            Encoder::Other(name) => EncoderView::Other(name@),
        }
    }
}

/// The encoder ffmpeg knows by `name`.
pub open spec fn encoder_named(name: Seq<char>) -> EncoderView {
    if name == "h264_videotoolbox"@ {
        EncoderView::VideoToolbox
    } else if name == "libx264"@ {
        EncoderView::X264
    } else {
        EncoderView::Other(name)
    }
}

/// The name ffmpeg knows an encoder by.
pub open spec fn encoder_name(e: EncoderView) -> Seq<char> {
    match e {
        EncoderView::VideoToolbox => "h264_videotoolbox"@,
        EncoderView::X264 => "libx264"@,
        EncoderView::Other(name) => name,
    }
}

impl Encoder {
    /// The encoder ffmpeg knows by `name`; any name but the two built in is
    /// passed through.
    pub fn from_name(name: &str) -> (e: Encoder)
        ensures
            e@ == encoder_named(name@),
    {
        if str_eq(name, "h264_videotoolbox") {
            Encoder::VideoToolbox
        } else if str_eq(name, "libx264") {
            Encoder::X264
        } else {
            Encoder::Other(name.to_owned())
        }
    }

    /// The hardware encoder on macOS, x264 elsewhere.
    pub fn platform_default(macos: bool) -> (e: Encoder)
        ensures
            e@ == (if macos { EncoderView::VideoToolbox } else { EncoderView::X264 }),
    {
        if macos {
            Encoder::VideoToolbox
        } else {
            Encoder::X264
        }
    }

    /// The name ffmpeg knows this encoder by.
    pub fn name(&self) -> (s: &str)
        ensures
            s@ == encoder_name(self@),
    {
        match self {
            Encoder::VideoToolbox => "h264_videotoolbox",
            Encoder::X264 => "libx264",
            Encoder::Other(name) => name.as_str(),
        }
    }
}

/// The size of the encoded picture: the surface cropped to even dimensions,
/// as the encoder's 4:2:0 output needs.
#[derive(Clone, Copy, Debug, PartialEq, Eq, Structural)]
pub struct Geometry {
    pub width: u32,
    pub height: u32,
}

/// `n` rounded down to an even number.
pub open spec fn even_part(n: u32) -> u32 {
    (n - n % 2) as u32
}

impl Geometry {
    /// The largest even size that fits in `width` by `height`.
    pub fn even(width: u32, height: u32) -> (g: Geometry)
        ensures
            g.width == even_part(width),
            g.height == even_part(height),
    {
        let g = Geometry { width: width & !1u32, height: height & !1u32 };
        assert(width & !1u32 == width - width % 2) by (bit_vector);
        assert(height & !1u32 == height - height % 2) by (bit_vector);
        g
    }

    /// Bytes in one packed row of four-byte pixels (`usize::MAX` where that
    /// does not fit, which only a 32-bit target can see).
    pub fn out_stride(self) -> (n: usize)
        ensures
            n == saturating(4 * self.width),
    {
        saturating_mul(self.width as usize, 4)
    }

    /// Bytes in one packed frame, or `usize::MAX` when that does not fit.
    pub fn frame_bytes(self) -> (n: usize)
        ensures
            n == saturating(saturating(4 * self.width) * self.height),
    {
        saturating_mul(self.out_stride(), self.height as usize)
    }
}

/// `n`, or `usize::MAX` when it is larger.
pub open spec fn saturating(n: int) -> usize {
    if n > usize::MAX { usize::MAX } else { n as usize }
}

/// `a * b`, or `usize::MAX` when the product does not fit.
pub fn saturating_mul(a: usize, b: usize) -> (n: usize)
    ensures
        n == saturating(a * b),
{
    match a.checked_mul(b) {
        Some(v) => v,
        None => usize::MAX,
    }
}

/// The row pitch of the readback buffer for a surface `width` pixels wide:
/// four bytes a pixel rounded up to [`ROW_ALIGNMENT`], or the unrounded pitch
/// when that rounding would not fit in a `u32`.
pub open spec fn spec_padded_stride(width: u32) -> u32 {
    let bytes = if 4 * width > u32::MAX { u32::MAX as int } else { 4 * width };
    let up = if bytes % 256 == 0 { bytes } else { bytes + 256 - bytes % 256 };
    if up > u32::MAX { bytes as u32 } else { up as u32 }
}

pub fn padded_stride(width: u32) -> (s: u32)
    ensures
        s == spec_padded_stride(width),
{
    let bytes = match width.checked_mul(4) {
        Some(b) => b,
        None => u32::MAX,
    };
    let rem = bytes % ROW_ALIGNMENT;
    if rem == 0 {
        bytes
    } else {
        match bytes.checked_add(ROW_ALIGNMENT - rem) {
            Some(up) => up,
            None => bytes,
        }
    }
}

/// Where row `row` starts in a buffer with `padded` bytes a row, saturated.
pub open spec fn row_start(row: int, padded: int) -> int {
    if row * padded > usize::MAX { usize::MAX as int } else { row * padded }
}

/// Whether row `row` of `out_stride` bytes lies inside a source of `len` bytes.
pub open spec fn row_fits(len: int, row: int, padded: int, out_stride: int) -> bool {
    row_start(row, padded) + out_stride <= usize::MAX && row_start(row, padded) + out_stride <= len
}

/// The first `k` rows of `src`, each cut to `out_stride` bytes, one after another.
pub open spec fn packed_rows(src: Seq<u8>, padded: int, out_stride: int, k: int) -> Seq<u8>
    decreases k,
{
    if k <= 0 {
        seq![]
    } else {
        let start = row_start(k - 1, padded);
        packed_rows(src, padded, out_stride, k - 1) + src.subrange(start, start + out_stride)
    }
}

/// Copies `rows` rows of `out_stride` bytes out of a buffer whose rows are
/// `padded` bytes apart, dropping the padding. Returns `false` at the first
/// row that runs past the end of `src`, with the rows before it in `dst`.
pub fn pack_rows(src: &[u8], padded: usize, out_stride: usize, rows: usize, dst: &mut Vec<u8>) -> (r: bool)
    ensures
        r == (forall|row: int| 0 <= row < rows ==> #[trigger] row_fits(src@.len() as int, row, padded as int, out_stride as int)),
        r ==> final(dst)@ == packed_rows(src@, padded as int, out_stride as int, rows as int),
        !r ==> exists|k: int| #![trigger packed_rows(src@, padded as int, out_stride as int, k)]
            0 <= k < rows
            && !row_fits(src@.len() as int, k, padded as int, out_stride as int)
            && (forall|j: int| 0 <= j < k ==> #[trigger] row_fits(src@.len() as int, j, padded as int, out_stride as int))
            && final(dst)@ == packed_rows(src@, padded as int, out_stride as int, k),
{
    dst.clear();
    dst.reserve(saturating_mul(out_stride, rows));
    let mut row: usize = 0;
    while row < rows
        invariant
            row <= rows,
            dst@ == packed_rows(src@, padded as int, out_stride as int, row as int),
            forall|j: int| 0 <= j < row ==> #[trigger] row_fits(src@.len() as int, j, padded as int, out_stride as int),
        decreases rows - row,
    {
        let start = saturating_mul(row, padded);
        let end = match start.checked_add(out_stride) {
            Some(end) => end,
            None => {
                assert(!row_fits(src@.len() as int, row as int, padded as int, out_stride as int));
                return false;
            },
        };
        if end > src.len() {
            assert(!row_fits(src@.len() as int, row as int, padded as int, out_stride as int));
            return false;
        }
        let ghost before = dst@;
        let mut i = start;
        while i < end
            invariant
                start <= i <= end,
                end <= src@.len(),
                dst@ == before + src@.subrange(start as int, i as int),
            decreases end - i,
        {
            dst.push(src[i]);
            i += 1;
            assert(dst@ =~= before + src@.subrange(start as int, i as int));
        }
        row += 1;
    }
    true
}

/// The pixel format ffmpeg reads a surface in: `bgra` or `rgba` for the
/// 8-bit formats, none for any other.
pub open spec fn spec_pix_fmt(format: TextureFormat) -> Option<Seq<char>> {
    if format == TEXTURE_FORMAT_BGRA8_UNORM || format == TEXTURE_FORMAT_BGRA8_UNORM_SRGB {
        Some("bgra"@)
    } else if format == TEXTURE_FORMAT_RGBA8_UNORM || format == TEXTURE_FORMAT_RGBA8_UNORM_SRGB {
        Some("rgba"@)
    } else {
        None
    }
}

pub fn pix_fmt(format: TextureFormat) -> (r: Option<&'static str>)
    ensures
        r matches Some(s) ==> spec_pix_fmt(format) == Some(s@),
        r is None ==> spec_pix_fmt(format) is None,
{
    if format == TEXTURE_FORMAT_BGRA8_UNORM || format == TEXTURE_FORMAT_BGRA8_UNORM_SRGB {
        Some("bgra")
    } else if format == TEXTURE_FORMAT_RGBA8_UNORM || format == TEXTURE_FORMAT_RGBA8_UNORM_SRGB {
        Some("rgba")
    } else {
        None
    }
}

/// What an encoding run is started with.
pub struct Spec {
    pub width: u32,
    pub height: u32,
    pub frame_rate: u32,
    pub pix_fmt: &'static str,
    pub encoder: Encoder,
    pub bitrate: String,
    pub out: String,
}

/// The arguments ffmpeg is started with: raw frames of the given size, rate
/// and pixel format on its standard input, encoded with the chosen encoder
/// (x264 at a constant quality, any other at the given bit rate) into 4:2:0
/// at `out`, each frame kept.
pub open spec fn spec_ffmpeg_args(s: Spec) -> Seq<Seq<char>> {
    seq![
        "-hide_banner"@, "-loglevel"@, "error"@, "-y"@, "-f"@, "rawvideo"@, "-pix_fmt"@, s.pix_fmt@,
        "-video_size"@, decimal(s.width as nat) + "x"@ + decimal(s.height as nat),
        "-framerate"@, decimal(s.frame_rate as nat),
        "-i"@, "pipe:0"@, "-an"@, "-c:v"@, encoder_name(s.encoder@),
    ] + (if s.encoder@ is X264 {
        seq!["-preset"@, "veryfast"@, "-crf"@, "18"@]
    } else {
        seq!["-b:v"@, s.bitrate@]
    }) + seq![
        "-pix_fmt"@, "yuv420p"@, "-fps_mode"@, "passthrough"@, "-movflags"@, "+faststart"@, s.out@,
    ]
}

fn push_arg(args: &mut Vec<String>, arg: &str)
    ensures
        views_of(final(args)@) == views_of(old(args)@).push(arg@),
{
    let ghost before = args@;
    args.push(arg.to_owned());
    proof { lemma_views_of_push(before, args@[before.len() as int]); }
}

/// The characters of each string.
pub open spec fn views_of(v: Seq<String>) -> Seq<Seq<char>> {
    Seq::new(v.len(), |i: int| v[i]@)
}

proof fn lemma_views_of_push(v: Seq<String>, x: String)
    ensures
        views_of(v.push(x)) == views_of(v).push(x@),
{
    assert(views_of(v.push(x)) =~= views_of(v).push(x@));
}

pub fn ffmpeg_args(spec: &Spec) -> (args: Vec<String>)
    ensures
        views_of(args@) == spec_ffmpeg_args(*spec),
{
    let mut args: Vec<String> = Vec::new();
    push_arg(&mut args, "-hide_banner");
    push_arg(&mut args, "-loglevel");
    push_arg(&mut args, "error");
    push_arg(&mut args, "-y");
    push_arg(&mut args, "-f");
    push_arg(&mut args, "rawvideo");
    push_arg(&mut args, "-pix_fmt");
    push_arg(&mut args, spec.pix_fmt);
    push_arg(&mut args, "-video_size");
    let mut size = String::new();
    push_decimal(&mut size, spec.width as u64);
    size.push('x');
    push_decimal(&mut size, spec.height as u64);
    assert(size@ =~= decimal(spec.width as nat) + "x"@ + decimal(spec.height as nat)) by {
        reveal_strlit("x");
    }
    push_arg(&mut args, size.as_str());
    push_arg(&mut args, "-framerate");
    let mut rate = String::new();
    push_decimal(&mut rate, spec.frame_rate as u64);
    assert(rate@ =~= decimal(spec.frame_rate as nat));
    push_arg(&mut args, rate.as_str());
    push_arg(&mut args, "-i");
    push_arg(&mut args, "pipe:0");
    push_arg(&mut args, "-an");
    push_arg(&mut args, "-c:v");
    push_arg(&mut args, spec.encoder.name());
    match spec.encoder {
        Encoder::X264 => {
            push_arg(&mut args, "-preset");
            push_arg(&mut args, "veryfast");
            push_arg(&mut args, "-crf");
            push_arg(&mut args, "18");
        },
        _ => {
            push_arg(&mut args, "-b:v");
            push_arg(&mut args, spec.bitrate.as_str());
        },
    }
    push_arg(&mut args, "-pix_fmt");
    push_arg(&mut args, "yuv420p");
    push_arg(&mut args, "-fps_mode");
    push_arg(&mut args, "passthrough");
    push_arg(&mut args, "-movflags");
    push_arg(&mut args, "+faststart");
    push_arg(&mut args, spec.out.as_str());
    assert(views_of(args@) =~= spec_ffmpeg_args(*spec));
    args
}

/// How far the game has run ahead of the encoder: frames read back and not yet
/// written, frames written, and whether capture has started or been turned off.
pub struct Pressure {
    pub inflight: i64,
    pub encoded: u64,
    pub disabled: bool,
    pub started: bool,
}

impl Default for Pressure {
    fn default() -> (p: Pressure)
        ensures
            p == (Pressure { inflight: 0, encoded: 0, disabled: false, started: false }),
    {
        Pressure { inflight: 0, encoded: 0, disabled: false, started: false }
    }
}

/// Whether the game must wait for the encoder before the next frame.
pub open spec fn spec_should_wait(p: Pressure) -> bool {
    !p.disabled && p.inflight >= MAX_CREDITS
}

/// Whether frames are still on their way to the encoder.
pub open spec fn spec_draining(p: Pressure) -> bool {
    !p.disabled && p.inflight > 0
}

/// Whether capture is running.
pub open spec fn spec_active(p: Pressure) -> bool {
    !p.disabled && p.started
}

impl Pressure {
    /// A frame was read back and is on its way to the encoder.
    pub fn recorded(&mut self)
        ensures
            *final(self) == (Pressure { inflight: old(self).inflight.wrapping_add(1), ..*old(self) }),
    {
        self.inflight = self.inflight.wrapping_add(1);
    }

    /// A frame left the pipeline, written or dropped.
    pub fn released(&mut self)
        ensures
            *final(self) == (Pressure { inflight: old(self).inflight.wrapping_sub(1), ..*old(self) }),
    {
        self.inflight = self.inflight.wrapping_sub(1);
    }

    /// The encoder took a frame.
    pub fn encoded(&mut self)
        ensures
            *final(self) == (Pressure { encoded: old(self).encoded.wrapping_add(1), ..*old(self) }),
    {
        self.encoded = self.encoded.wrapping_add(1);
    }

    /// Frames the encoder took.
    pub fn encoded_frames(&self) -> (n: u64)
        ensures
            n == self.encoded,
    {
        self.encoded
    }

    /// Whether capture was turned off.
    pub fn is_disabled(&self) -> (b: bool)
        ensures
            b == self.disabled,
    {
        self.disabled
    }

    /// Turns capture off for the rest of the session.
    pub fn disable(&mut self)
        ensures
            *final(self) == (Pressure { disabled: true, ..*old(self) }),
    {
        self.disabled = true;
    }

    pub fn should_wait(&self) -> (b: bool)
        ensures
            b == spec_should_wait(*self),
    {
        !self.is_disabled() && self.inflight >= MAX_CREDITS
    }

    pub fn draining(&self) -> (b: bool)
        ensures
            b == spec_draining(*self),
    {
        !self.is_disabled() && self.inflight > 0
    }

    /// Whether capture has started.
    pub fn has_started(&self) -> (b: bool)
        ensures
            b == self.started,
    {
        self.started
    }

    pub fn active(&self) -> (b: bool)
        ensures
            b == spec_active(*self),
    {
        !self.is_disabled() && self.has_started()
    }
}

/// Releasing a frame undoes recording one.
pub proof fn release_undoes_record(p: Pressure)
    ensures
        (Pressure { inflight: (Pressure { inflight: p.inflight.wrapping_add(1), ..p }).inflight.wrapping_sub(1), ..p }) == p,
{
    let x = p.inflight;
    assert(x.wrapping_add(1).wrapping_sub(1) == x) by (bit_vector);
}

/// Once capture is off, the game neither waits for the encoder nor drains it,
/// and capture is not active.
pub proof fn disabled_pressure_holds_nothing_back(p: Pressure)
    ensures
        !spec_should_wait(Pressure { disabled: true, ..p }),
        !spec_draining(Pressure { disabled: true, ..p }),
        !spec_active(Pressure { disabled: true, ..p }),
{
}

/// Whenever the game waits, frames are on their way to the encoder.
pub proof fn waiting_means_draining(p: Pressure)
    ensures
        spec_should_wait(p) ==> spec_draining(p),
{
}

/// The readback ring and the writer's queue hold every frame the throttle can
/// let through: the frames admitted before it waits and those the renderer
/// keeps in flight.
pub proof fn ring_holds_admitted_frames()
    ensures
        RING_SLOTS >= (MAX_CREDITS - 1) + (AURORA_FRAME_SLOT_COUNT + 1),
        CHANNEL_CAPACITY >= (MAX_CREDITS - 1) + (AURORA_FRAME_SLOT_COUNT + 1),
{
}

/// The readback pitch is a whole number of alignment units, holds a row of
/// pixels, and wastes less than one unit, wherever the rounding fits in 32 bits.
pub proof fn padded_stride_is_aligned(width: u32)
    requires
        4 * width + 255 <= u32::MAX,
    ensures
        spec_padded_stride(width) % 256 == 0,
        spec_padded_stride(width) >= 4 * width,
        spec_padded_stride(width) < 4 * width + 256,
{
}

/// Without padding, packing copies the source as it is.
pub proof fn unpadded_rows_pack_to_the_source(src: Seq<u8>, stride: int, rows: int)
    requires
        0 <= stride,
        0 <= rows,
        rows * stride <= src.len(),
        src.len() <= usize::MAX,
    ensures
        packed_rows(src, stride, stride, rows) == src.subrange(0, rows * stride),
    decreases rows,
{
    if rows > 0 {
        assert((rows - 1) * stride == rows * stride - stride) by (nonlinear_arith);
        assert((rows - 1) * stride <= rows * stride) by (nonlinear_arith) requires stride >= 0;
        unpadded_rows_pack_to_the_source(src, stride, rows - 1);
        let start = (rows - 1) * stride;
        assert(row_start(rows - 1, stride) == start);
        assert(start + stride == rows * stride);
        assert(packed_rows(src, stride, stride, rows)
            == packed_rows(src, stride, stride, rows - 1) + src.subrange(start, start + stride));
        assert(src.subrange(0, start) + src.subrange(start, rows * stride) =~= src.subrange(0, rows * stride));
    } else {
        assert(rows * stride == 0) by (nonlinear_arith) requires rows == 0;
        assert(src.subrange(0, 0) =~= Seq::<u8>::empty());
    }
}

/// A capture asked for by the environment: where the video goes, which
/// encoder, at what bit rate, and which ffmpeg runs it.
pub struct Request {
    pub out: String,
    pub encoder: Encoder,
    pub bitrate: String,
    pub binary: String,
}

impl Request {
    /// The request the settings describe: none without an output path; the
    /// encoder named (white space trimmed) or the platform's default; the
    /// bit rate given or [`DEFAULT_BITRATE`]; the ffmpeg given or `ffmpeg`
    /// on the search path.
    pub fn from_settings(
        out: Option<String>,
        encoder: Option<String>,
        bitrate: Option<String>,
        binary: Option<String>,
        macos: bool,
    ) -> (r: Option<Request>)
        ensures
            r is None <==> out is None,
            r matches Some(q) ==> {
                &&& q.out@ == out->0@
                &&& q.encoder@ == (match encoder {
                    Some(name) => encoder_named(trim(name@)),
                    None => if macos { EncoderView::VideoToolbox } else { EncoderView::X264 },
                })
                &&& q.bitrate@ == (match bitrate {
                    Some(b) => b@,
                    None => "40M"@,
                })
                &&& q.binary@ == (match binary {
                    Some(b) => b@,
                    None => "ffmpeg"@,
                })
            },
    {
        let out = match out {
            Some(out) => out,
            None => return None,
        };
        let encoder = match encoder {
            Some(name) => {
                let chars = chars_of(name.as_str());
                let trimmed = string_of(trim_of(chars.as_slice()).as_slice());
                Encoder::from_name(trimmed.as_str())
            },
            None => Encoder::platform_default(macos),
        };
        let bitrate = match bitrate {
            Some(b) => b,
            None => DEFAULT_BITRATE.to_owned(),
        };
        let binary = match binary {
            Some(b) => b,
            None => "ffmpeg".to_owned(),
        };
        Some(Request { out, encoder, bitrate, binary })
    }
}

/// Where a readback buffer of the ring is.
#[derive(Clone, Copy, Debug, PartialEq, Eq, Structural)]
pub enum SlotState {
    Free,
    Submitted,
    Mapping,
}

/// The size of the surface a capture reads from.
#[derive(Clone, Copy, Debug, PartialEq, Eq, Structural)]
pub struct Source {
    pub width: u32,
    pub height: u32,
}

/// Why a running capture turns itself off.
#[derive(Clone, Copy, Debug, PartialEq, Eq, Structural)]
pub enum Failure {
    SizeChanged,
    RateChanged,
    RingDry,
    MapFailed,
    NoRange,
    ShortFrame,
    QueueFull,
    QueueGone,
    Stalled(u32),
}

/// What is reported when capture turns itself off.
pub open spec fn failure_text(f: Failure) -> Seq<char> {
    match f {
        Failure::SizeChanged => "the window changed size mid-capture"@,
        Failure::RateChanged => "the simulation rate changed mid-capture"@,
        Failure::RingDry => "the readback ring ran dry"@,
        Failure::MapFailed => "a readback map failed"@,
        Failure::NoRange => "a mapped readback buffer had no range"@,
        Failure::ShortFrame => "a readback frame came back short"@,
        Failure::QueueFull => "the encoder queue overflowed"@,
        Failure::QueueGone => "the encoder queue is gone"@,
        Failure::Stalled(ms) => "the encoder took no frame for "@ + decimal(ms as nat) + " ms"@,
    }
}

impl Failure {
    pub fn message(&self) -> (s: String)
        ensures
            s@ == failure_text(*self),
    {
        let mut s = String::new();
        match self {
            Failure::SizeChanged => push_str(&mut s, "the window changed size mid-capture"),
            Failure::RateChanged => push_str(&mut s, "the simulation rate changed mid-capture"),
            Failure::RingDry => push_str(&mut s, "the readback ring ran dry"),
            Failure::MapFailed => push_str(&mut s, "a readback map failed"),
            Failure::NoRange => push_str(&mut s, "a mapped readback buffer had no range"),
            Failure::ShortFrame => push_str(&mut s, "a readback frame came back short"),
            Failure::QueueFull => push_str(&mut s, "the encoder queue overflowed"),
            Failure::QueueGone => push_str(&mut s, "the encoder queue is gone"),
            Failure::Stalled(ms) => {
                push_str(&mut s, "the encoder took no frame for ");
                push_decimal(&mut s, *ms as u64);
                push_str(&mut s, " ms");
            },
        }
        assert(s@ =~= failure_text(*self));
        s
    }
}

/// What recording one frame comes to.
#[derive(Clone, Copy, Debug, PartialEq, Eq, Structural)]
pub enum RecordStep {
    /// Capture is finished or off: the frame is not read back.
    Skip,
    /// Nothing runs yet: the encoder is to be started first.
    Start,
    /// The frame cannot be captured and capture turns off.
    Fail(Failure),
    /// The frame is copied into this free slot of the ring.
    Copy(usize),
}

/// The first free slot of the ring from `i` on.
pub open spec fn first_free(ring: Seq<SlotState>, i: int) -> Option<int>
    decreases ring.len() - i,
{
    if i < 0 || i >= ring.len() {
        None
    } else if ring[i] == SlotState::Free {
        Some(i)
    } else {
        first_free(ring, i + 1)
    }
}

/// What recording a frame of size `frame` comes to, given whether capture is
/// finished or off and, when it runs, the size and rate it was started with.
/// The checks go in this order: finished or off, not started, size, rate,
/// then a free slot.
pub open spec fn spec_record_step(
    finished: bool,
    disabled: bool,
    running: Option<(Source, u32)>,
    frame: Source,
    sim_rate: u32,
    ring: Seq<SlotState>,
) -> RecordStep {
    if finished || disabled {
        RecordStep::Skip
    } else {
        match running {
            None => RecordStep::Start,
            Some((source, rate)) => if source != frame {
                RecordStep::Fail(Failure::SizeChanged)
            } else if rate != sim_rate {
                RecordStep::Fail(Failure::RateChanged)
            } else {
                match first_free(ring, 0) {
                    Some(i) => RecordStep::Copy(i as usize),
                    None => RecordStep::Fail(Failure::RingDry),
                }
            },
        }
    }
}

pub fn record_step(
    finished: bool,
    disabled: bool,
    running: Option<(Source, u32)>,
    frame: Source,
    sim_rate: u32,
    ring: &[SlotState],
) -> (r: RecordStep)
    ensures
        r == spec_record_step(finished, disabled, running, frame, sim_rate, ring@),
{
    if finished || disabled {
        return RecordStep::Skip;
    }
    let (source, rate) = match running {
        None => return RecordStep::Start,
        Some(r) => r,
    };
    if source != frame {
        return RecordStep::Fail(Failure::SizeChanged);
    }
    if rate != sim_rate {
        return RecordStep::Fail(Failure::RateChanged);
    }
    let mut i: usize = 0;
    while i < ring.len()
        invariant
            i <= ring@.len(),
            first_free(ring@, i as int) == first_free(ring@, 0),
            !finished && !disabled,
            running == Some((source, rate)),
            source == frame,
            rate == sim_rate,
        decreases ring@.len() - i,
    {
        if ring[i] == SlotState::Free {
            return RecordStep::Copy(i);
        }
        i += 1;
    }
    RecordStep::Fail(Failure::RingDry)
}

/// The slots submitted for readback, in ring order.
pub open spec fn submitted_slots(ring: Seq<SlotState>, n: int) -> Seq<usize>
    decreases n,
{
    if n <= 0 {
        seq![]
    } else {
        submitted_slots(ring, n - 1) + if ring[n - 1] == SlotState::Submitted { seq![(n - 1) as usize] } else { seq![] }
    }
}

/// Once the frame's commands are submitted, every slot that was submitted is
/// being mapped; returns those slots, in ring order.
pub fn begin_mapping(ring: &mut Vec<SlotState>) -> (pending: Vec<usize>)
    ensures
        final(ring)@.len() == old(ring)@.len(),
        forall|i: int| 0 <= i < old(ring)@.len() ==> #[trigger] final(ring)@[i] == (if old(ring)@[i] == SlotState::Submitted {
            SlotState::Mapping
        } else {
            old(ring)@[i]
        }),
        pending@ == submitted_slots(old(ring)@, old(ring)@.len() as int),
{
    let mut pending: Vec<usize> = Vec::new();
    let mut i: usize = 0;
    while i < ring.len()
        invariant
            i <= ring@.len(),
            ring@.len() == old(ring)@.len(),
            forall|j: int| i <= j < ring@.len() ==> #[trigger] ring@[j] == old(ring)@[j],
            forall|j: int| 0 <= j < i ==> #[trigger] ring@[j] == (if old(ring)@[j] == SlotState::Submitted {
                SlotState::Mapping
            } else {
                old(ring)@[j]
            }),
            pending@ == submitted_slots(old(ring)@, i as int),
        decreases ring@.len() - i,
    {
        if ring[i] == SlotState::Submitted {
            ring.set(i, SlotState::Mapping);
            pending.push(i);
        }
        i += 1;
    }
    pending
}

/// How a buffer map came back.
#[derive(Clone, Copy, Debug, PartialEq, Eq, Structural)]
pub enum MapStatus {
    Success,
    CallbackCancelled,
    Aborted,
    Error,
}

/// What a finished map comes to.
#[derive(Clone, Copy, Debug, PartialEq, Eq, Structural)]
pub enum MapStep {
    /// The slot was not being mapped: nothing changes.
    Ignore,
    /// The frame is lost and its credit released; capture turns off unless
    /// the map was cancelled or aborted.
    Release { fail: bool },
    /// The frame can be read and packed for the encoder.
    Pack,
}

pub open spec fn spec_map_step(ring: Seq<SlotState>, index: int, status: MapStatus) -> MapStep {
    if !(0 <= index < ring.len()) || ring[index] != SlotState::Mapping {
        MapStep::Ignore
    } else if status != MapStatus::Success {
        MapStep::Release { fail: status != MapStatus::CallbackCancelled && status != MapStatus::Aborted }
    } else {
        MapStep::Pack
    }
}

/// A map of slot `index` finished: a slot that was being mapped is free again.
pub fn map_done(ring: &mut Vec<SlotState>, index: usize, status: MapStatus) -> (r: MapStep)
    ensures
        r == spec_map_step(old(ring)@, index as int, status),
        final(ring)@ == (if r is Ignore { old(ring)@ } else { old(ring)@.update(index as int, SlotState::Free) }),
{
    if index >= ring.len() || ring[index] != SlotState::Mapping {
        return MapStep::Ignore;
    }
    ring.set(index, SlotState::Free);
    if status != MapStatus::Success {
        MapStep::Release { fail: status != MapStatus::CallbackCancelled && status != MapStatus::Aborted }
    } else {
        MapStep::Pack
    }
}

/// How a capture of a surface is set up: the pixel format ffmpeg reads, the
/// encoded size, and the pitch and size of the readback buffers.
#[derive(Clone, Copy, Debug)]
pub struct StartPlan {
    pub pix_fmt: &'static str,
    pub geometry: Geometry,
    pub padded_stride: usize,
    pub buffer_size: usize,
}

/// Why a surface cannot be captured.
pub open spec fn refusal_text(format: TextureFormat, width: u32, height: u32) -> Seq<char> {
    if spec_pix_fmt(format) is None {
        "surface format "@ + decimal(format as nat) + " is neither BGRA8 nor RGBA8"@
    } else {
        "surface is "@ + decimal(width as nat) + "x"@ + decimal(height as nat) + ", too small to encode"@
    }
}

/// The set-up for capturing a surface, refused when ffmpeg cannot read its
/// format or its even part holds no pixel.
pub fn start_plan(format: TextureFormat, width: u32, height: u32) -> (r: Result<StartPlan, String>)
    ensures
        r is Ok <==> spec_pix_fmt(format) is Some && even_part(width) > 0 && even_part(height) > 0,
        r matches Ok(p) ==> spec_pix_fmt(format) == Some(p.pix_fmt@)
            && p.geometry == (Geometry { width: even_part(width), height: even_part(height) })
            && p.padded_stride == spec_padded_stride(width)
            && p.buffer_size == saturating(spec_padded_stride(width) * height),
        r matches Err(m) ==> m@ == refusal_text(format, width, height),
{
    let pix = match pix_fmt(format) {
        Some(p) => p,
        None => {
            let mut m = String::new();
            push_str(&mut m, "surface format ");
            push_decimal(&mut m, format as u64);
            push_str(&mut m, " is neither BGRA8 nor RGBA8");
            assert(m@ =~= refusal_text(format, width, height));
            return Err(m);
        },
    };
    let geometry = Geometry::even(width, height);
    if geometry.width == 0 || geometry.height == 0 {
        let mut m = String::new();
        push_str(&mut m, "surface is ");
        push_decimal(&mut m, width as u64);
        push_str(&mut m, "x");
        push_decimal(&mut m, height as u64);
        push_str(&mut m, ", too small to encode");
        assert(m@ =~= refusal_text(format, width, height));
        return Err(m);
    }
    let padded = padded_stride(width) as usize;
    let buffer_size = saturating_mul(padded, height as usize);
    Ok(StartPlan { pix_fmt: pix, geometry, padded_stride: padded, buffer_size })
}

/// The line a finished capture ends with: every frame read back reached
/// ffmpeg, or how many did not.
pub open spec fn finish_text(encoded: u64, recorded: u64) -> Seq<char> {
    if encoded == recorded {
        decimal(encoded as nat) + " frames reached ffmpeg"@
    } else {
        "read back "@ + decimal(recorded as nat) + " frames but only "@ + decimal(encoded as nat)
            + " reached ffmpeg, the file is incomplete"@
    }
}

pub fn finish_report(encoded: u64, recorded: u64) -> (s: String)
    ensures
        s@ == finish_text(encoded, recorded),
{
    let mut s = String::new();
    if encoded == recorded {
        push_decimal(&mut s, encoded);
        push_str(&mut s, " frames reached ffmpeg");
    } else {
        push_str(&mut s, "read back ");
        push_decimal(&mut s, recorded);
        push_str(&mut s, " frames but only ");
        push_decimal(&mut s, encoded);
        push_str(&mut s, " reached ffmpeg, the file is incomplete");
    }
    assert(s@ =~= finish_text(encoded, recorded));
    s
}

/// A slot that is copied into was free, and once it is mapped and done it is
/// free again: the ring neither loses nor duplicates a buffer.
pub proof fn a_copied_slot_comes_back_free(ring: Seq<SlotState>, i: int)
    requires
        0 <= i < ring.len(),
        first_free(ring, 0) == Some(i),
    ensures
        ring[i] == SlotState::Free,
        spec_map_step(ring.update(i, SlotState::Mapping), i, MapStatus::Success) == MapStep::Pack,
        ring.update(i, SlotState::Mapping).update(i, SlotState::Free) == ring,
{
    lemma_first_free_is_free(ring, 0);
    assert(ring.update(i, SlotState::Mapping).update(i, SlotState::Free) =~= ring);
}

proof fn lemma_first_free_is_free(ring: Seq<SlotState>, i: int)
    ensures
        first_free(ring, i) matches Some(k) ==> i <= k < ring.len() && ring[k] == SlotState::Free,
    decreases ring.len() - i,
{
    if 0 <= i < ring.len() && ring[i] != SlotState::Free {
        lemma_first_free_is_free(ring, i + 1);
    }
}

} // verus!
