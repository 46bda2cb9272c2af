use vstd::prelude::*;

use crate::pad::{PAD_BYTES, PORTS, Pad, pad_bytes, pad_bytes_round_trip, pad_of_bytes};
use crate::text::{decimal, hex_fixed, push_decimal, push_hex, push_str};

verus! {

/// Bytes before the first frame: the magic and the seed.
pub const HEADER_BYTES: usize = 8;

/// Bytes of one frame: four pad records, a checksum and the frame's seed.
pub const FRAME_BYTES: usize = 72;

/// The file magic, `MRC2`.
pub const MAGIC: [u8; 4] = [0x4D, 0x52, 0x43, 0x32];

/// What each port does on one frame.
pub type Frame = [Pad; 4];

/// A replay: the seed the game's random number generator starts from and the
/// controller state of every frame.
#[derive(Clone, Debug, PartialEq, Eq)]
pub struct Movie {
    pub seed: u32,
    pub frames: Vec<Frame>,
}

pub struct MovieView {
    pub seed: u32,
    pub frames: Seq<Frame>,
}

impl View for Movie {
    type V = MovieView;

    open spec fn view(&self) -> MovieView {
        MovieView { seed: self.seed, frames: self.frames@ }
    }
}

/// Why bytes are not a movie.
#[derive(Debug, PartialEq, Eq)]
pub enum MovieError {
    TooShort,
    BadMagic([u8; 4]),
    TrailingBytes(usize),
}

/// The text a `MovieError` is reported with.
pub open spec fn movie_error_text(e: MovieError) -> Seq<char> {
    match e {
        MovieError::TooShort => "file is shorter than the "@ + decimal(HEADER_BYTES as nat) + "-byte header"@,
        MovieError::BadMagic(m) => "expected magic MRC2, found ["@ + hex_fixed(m[0] as nat, 2) + ", "@
            + hex_fixed(m[1] as nat, 2) + ", "@ + hex_fixed(m[2] as nat, 2) + ", "@ + hex_fixed(m[3] as nat, 2)
            + "]"@,
        MovieError::TrailingBytes(extra) => decimal(extra as nat) + " trailing bytes do not form a whole "@
            + decimal(FRAME_BYTES as nat) + "-byte frame"@,
    }
}

impl MovieError {
    /// The error's message.
    pub fn message(&self) -> (s: String)
        ensures
            s@ == movie_error_text(*self),
    {
        let mut s = String::new();
        match self {
            MovieError::TooShort => {
                push_str(&mut s, "file is shorter than the ");
                push_decimal(&mut s, HEADER_BYTES as u64);
                push_str(&mut s, "-byte header");
            },
            MovieError::BadMagic(m) => {
                push_str(&mut s, "expected magic MRC2, found [");
                push_hex(&mut s, m[0] as u64, 2);
                push_str(&mut s, ", ");
                push_hex(&mut s, m[1] as u64, 2);
                push_str(&mut s, ", ");
                push_hex(&mut s, m[2] as u64, 2);
                push_str(&mut s, ", ");
                push_hex(&mut s, m[3] as u64, 2);
                push_str(&mut s, "]");
            },
            MovieError::TrailingBytes(extra) => {
                push_decimal(&mut s, *extra as u64);
                push_str(&mut s, " trailing bytes do not form a whole ");
                push_decimal(&mut s, FRAME_BYTES as u64);
                push_str(&mut s, "-byte frame");
            },
        }
        s
    }
}

/// The game's random number generator: one step of its linear congruential
/// sequence.
pub open spec fn spec_next_seed(seed: u32) -> u32 {
    seed.wrapping_mul(214013).wrapping_add(2531011)
}

/// The seed after `n` steps from `seed`.
pub open spec fn seed_at(seed: u32, n: nat) -> u32
    decreases n,
{
    if n == 0 {
        seed
    } else {
        spec_next_seed(seed_at(seed, (n - 1) as nat))
    }
}

/// The next value of the game's random seed.
pub fn next_seed(seed: u32) -> (r: u32)
    ensures
        r == spec_next_seed(seed),
{
    seed.wrapping_mul(214013).wrapping_add(2531011)
}

/// `x` as four little-endian bytes.
pub open spec fn le32(x: u32) -> Seq<u8> {
    seq![x as u8, (x >> 8) as u8, (x >> 16) as u8, (x >> 24) as u8]
}

/// The little-endian number in the first four bytes of `b`.
pub open spec fn u32_of(b: Seq<u8>) -> u32 {
    ((b[0] as u32) | ((b[1] as u32) << 8) | ((b[2] as u32) << 16) | ((b[3] as u32) << 24)) as u32
}

/// One frame's record: the four pads, a zero checksum and the seed of the frame.
pub open spec fn frame_record(f: Frame, seed: u32) -> Seq<u8> {
    pad_bytes(f[0]) + pad_bytes(f[1]) + pad_bytes(f[2]) + pad_bytes(f[3]) + le32(0) + le32(seed)
}

/// The records of `frames`, the first written with `seed` and each next one
/// with the seed one step on.
pub open spec fn records(frames: Seq<Frame>, seed: u32) -> Seq<u8>
    decreases frames.len(),
{
    if frames.len() == 0 {
        seq![]
    } else {
        records(frames.drop_last(), seed) + frame_record(frames.last(), seed_at(seed, (frames.len() - 1) as nat))
    }
}

/// The file for a movie.
pub open spec fn movie_bytes(m: MovieView) -> Seq<u8> {
    MAGIC@ + le32(m.seed) + records(m.frames, m.seed)
}

/// The frame a record describes; its checksum and seed are not read.
pub open spec fn frame_of_record(r: Seq<u8>) -> Frame {
    [
        pad_of_bytes(r.subrange(0, 16)),
        pad_of_bytes(r.subrange(16, 32)),
        pad_of_bytes(r.subrange(32, 48)),
        pad_of_bytes(r.subrange(48, 64)),
    ]
}

/// The record of frame `i` in a file.
pub open spec fn record_at(bytes: Seq<u8>, i: int) -> Seq<u8> {
    bytes.subrange(HEADER_BYTES + FRAME_BYTES * i, HEADER_BYTES + FRAME_BYTES * (i + 1))
}

/// What reading `bytes` gives: the header is checked, then every record must
/// be whole.
pub open spec fn parsed(bytes: Seq<u8>) -> Result<MovieView, MovieError> {
    if bytes.len() < HEADER_BYTES {
        Err(MovieError::TooShort)
    } else if bytes.subrange(0, 4) != MAGIC@ {
        Err(MovieError::BadMagic([bytes[0], bytes[1], bytes[2], bytes[3]]))
    } else if (bytes.len() - HEADER_BYTES) % (FRAME_BYTES as int) != 0 {
        Err(MovieError::TrailingBytes(((bytes.len() - HEADER_BYTES) % (FRAME_BYTES as int)) as usize))
    } else {
        Ok(MovieView {
            seed: u32_of(bytes.subrange(4, 8)),
            frames: Seq::new(
                ((bytes.len() - HEADER_BYTES) / (FRAME_BYTES as int)) as nat,
                |i: int| frame_of_record(record_at(bytes, i)),
            ),
        })
    }
}

fn push_u32(bytes: &mut Vec<u8>, x: u32)
    ensures
        final(bytes)@ == old(bytes)@ + le32(x),
{
    bytes.push(x as u8);
    bytes.push((x >> 8) as u8);
    bytes.push((x >> 16) as u8);
    bytes.push((x >> 24) as u8);
    assert(bytes@ =~= old(bytes)@ + le32(x));
}

fn push_pad(bytes: &mut Vec<u8>, pad: Pad)
    ensures
        final(bytes)@ == old(bytes)@ + pad_bytes(pad),
{
    let record = pad.to_bytes();
    let mut i: usize = 0;
    while i < 16
        invariant
            i <= 16,
            record@ == pad_bytes(pad),
            bytes@ == old(bytes)@ + record@.take(i as int),
        decreases 16 - i,
    {
        bytes.push(record[i]);
        i += 1;
        assert(record@.take(i as int) =~= record@.take(i - 1).push(record@[i - 1]));
    }
    assert(record@.take(16) =~= record@);
}

fn pad_at(bytes: &[u8], at: usize) -> (p: Pad)
    requires
        at + 16 <= bytes@.len(),
    ensures
        p == pad_of_bytes(bytes@.subrange(at as int, at + 16)),
{
    let record: [u8; 16] = [
        bytes[at],
        bytes[at + 1],
        bytes[at + 2],
        bytes[at + 3],
        bytes[at + 4],
        bytes[at + 5],
        bytes[at + 6],
        bytes[at + 7],
        bytes[at + 8],
        bytes[at + 9],
        bytes[at + 10],
        bytes[at + 11],
        bytes[at + 12],
        bytes[at + 13],
        bytes[at + 14],
        bytes[at + 15],
    ];
    assert(record@ =~= bytes@.subrange(at as int, at + 16));
    Pad::from_bytes(&record)
}

impl Movie {
    /// The file the game's replay reads: the header, then one record per
    /// frame carrying the four pads, a zero checksum and the seed the game's
    /// generator holds on that frame.
    pub fn to_bytes(&self) -> (bytes: Vec<u8>)
        ensures
            bytes@ == movie_bytes(self@),
    {
        let mut bytes: Vec<u8> = Vec::new();
        bytes.push(MAGIC[0]);
        bytes.push(MAGIC[1]);
        bytes.push(MAGIC[2]);
        bytes.push(MAGIC[3]);
        push_u32(&mut bytes, self.seed);
        assert(bytes@ =~= MAGIC@ + le32(self.seed));
        let ghost header = bytes@;
        let mut seed = self.seed;
        let mut i: usize = 0;
        assert(self.frames@.take(0) =~= Seq::<Frame>::empty());
        while i < self.frames.len()
            invariant
                i <= self.frames@.len(),
                header == MAGIC@ + le32(self.seed),
                seed == seed_at(self.seed, i as nat),
                bytes@ == header + records(self.frames@.take(i as int), self.seed),
            decreases self.frames@.len() - i,
        {
            let frame = self.frames[i];
            let ghost before = bytes@;
            push_pad(&mut bytes, frame[0]);
            push_pad(&mut bytes, frame[1]);
            push_pad(&mut bytes, frame[2]);
            push_pad(&mut bytes, frame[3]);
            push_u32(&mut bytes, 0);
            push_u32(&mut bytes, seed);
            assert(bytes@ =~= before + frame_record(frame, seed));
            seed = next_seed(seed);
            i += 1;
            assert(self.frames@.take(i as int).drop_last() =~= self.frames@.take(i - 1));
        }
        assert(self.frames@.take(self.frames@.len() as int) =~= self.frames@);
        bytes
    }

    /// Reads a movie file. Checksums and per-frame seeds are not checked.
    pub fn from_bytes(bytes: &[u8]) -> (r: Result<Movie, MovieError>)
        ensures
            match r {
                Ok(m) => parsed(bytes@) == Ok::<MovieView, MovieError>(m@),
                Err(e) => parsed(bytes@) == Err::<MovieView, MovieError>(e),
            },
    {
        if bytes.len() < HEADER_BYTES {
            return Err(MovieError::TooShort);
        }
        if bytes[0] != MAGIC[0] || bytes[1] != MAGIC[1] || bytes[2] != MAGIC[2] || bytes[3] != MAGIC[3] {
            assert(bytes@.subrange(0, 4) != MAGIC@) by {
                if bytes@.subrange(0, 4) == MAGIC@ {
                    assert(bytes@.subrange(0, 4)[0] == bytes@[0]);
                    assert(bytes@.subrange(0, 4)[1] == bytes@[1]);
                    assert(bytes@.subrange(0, 4)[2] == bytes@[2]);
                    assert(bytes@.subrange(0, 4)[3] == bytes@[3]);
                }
            }
            return Err(MovieError::BadMagic([bytes[0], bytes[1], bytes[2], bytes[3]]));
        }
        assert(bytes@.subrange(0, 4) =~= MAGIC@);
        let body = bytes.len() - HEADER_BYTES;
        if body % FRAME_BYTES != 0 {
            return Err(MovieError::TrailingBytes(body % FRAME_BYTES));
        }
        let count = body / FRAME_BYTES;
        let seed = (bytes[4] as u32) | ((bytes[5] as u32) << 8) | ((bytes[6] as u32) << 16) | ((bytes[7] as u32) << 24);
        let ghost expected = parsed(bytes@);
        let mut frames: Vec<Frame> = Vec::new();
        let mut i: usize = 0;
        while i < count
            invariant
                i <= count,
                count == (bytes@.len() - HEADER_BYTES) / (FRAME_BYTES as int),
                bytes@.len() >= HEADER_BYTES,
                bytes@.len() == bytes.len(),
                frames@.len() == i,
                forall|k: int| 0 <= k < i ==> #[trigger] frames@[k] == frame_of_record(record_at(bytes@, k)),
            decreases count - i,
        {
            assert(HEADER_BYTES + FRAME_BYTES * (i + 1) <= bytes@.len()) by (nonlinear_arith)
                requires
                    i < count,
                    count == (bytes@.len() - HEADER_BYTES) / (FRAME_BYTES as int),
                    bytes@.len() >= HEADER_BYTES,
            ;
            assert(bytes@.len() <= usize::MAX);
            let at = HEADER_BYTES + FRAME_BYTES * i;
            let frame: Frame = [
                pad_at(bytes, at),
                pad_at(bytes, at + 16),
                pad_at(bytes, at + 32),
                pad_at(bytes, at + 48),
            ];
            proof {
                let r = record_at(bytes@, i as int);
                assert(r.subrange(0, 16) =~= bytes@.subrange(at as int, at + 16));
                assert(r.subrange(16, 32) =~= bytes@.subrange(at + 16, at + 32));
                assert(r.subrange(32, 48) =~= bytes@.subrange(at + 32, at + 48));
                assert(r.subrange(48, 64) =~= bytes@.subrange(at + 48, at + 64));
            }
            frames.push(frame);
            i += 1;
        }
        let m = Movie { seed, frames };
        assert(bytes@.subrange(4, 8)[0] == bytes@[4]);
        assert(bytes@.subrange(4, 8)[1] == bytes@[5]);
        assert(bytes@.subrange(4, 8)[2] == bytes@[6]);
        assert(bytes@.subrange(4, 8)[3] == bytes@[7]);
        assert(m@.frames =~= expected->Ok_0.frames);
        Ok(m)
    }
}

proof fn lemma_frame_record(f: Frame, seed: u32)
    ensures
        frame_record(f, seed).len() == FRAME_BYTES,
        frame_of_record(frame_record(f, seed)) == f,
{
    let r = frame_record(f, seed);
    pad_bytes_round_trip(f[0]);
    pad_bytes_round_trip(f[1]);
    pad_bytes_round_trip(f[2]);
    pad_bytes_round_trip(f[3]);
    assert(r.subrange(0, 16) =~= pad_bytes(f[0]));
    assert(r.subrange(16, 32) =~= pad_bytes(f[1]));
    assert(r.subrange(32, 48) =~= pad_bytes(f[2]));
    assert(r.subrange(48, 64) =~= pad_bytes(f[3]));
    assert(frame_of_record(r) =~= f);
}

proof fn lemma_records(frames: Seq<Frame>, seed: u32)
    ensures
        records(frames, seed).len() == FRAME_BYTES * frames.len(),
        forall|i: int|
            0 <= i < frames.len() ==> #[trigger] records(frames, seed).subrange(
                FRAME_BYTES * i,
                FRAME_BYTES * (i + 1),
            ) == frame_record(frames[i], seed_at(seed, i as nat)),
    decreases frames.len(),
{
    if frames.len() > 0 {
        let n = frames.len() - 1;
        let earlier = frames.drop_last();
        lemma_records(earlier, seed);
        lemma_frame_record(frames.last(), seed_at(seed, n as nat));
        let all = records(frames, seed);
        let head = records(earlier, seed);
        assert forall|i: int| 0 <= i < frames.len() implies #[trigger] all.subrange(
            FRAME_BYTES * i,
            FRAME_BYTES * (i + 1),
        ) == frame_record(frames[i], seed_at(seed, i as nat)) by {
            if i < n {
                assert(head.subrange(FRAME_BYTES * i, FRAME_BYTES * (i + 1)) == frame_record(
                    earlier[i],
                    seed_at(seed, i as nat),
                ));
                assert(all.subrange(FRAME_BYTES * i, FRAME_BYTES * (i + 1)) =~= head.subrange(
                    FRAME_BYTES * i,
                    FRAME_BYTES * (i + 1),
                ));
            } else {
                assert(all.subrange(FRAME_BYTES * i, FRAME_BYTES * (i + 1)) =~= frame_record(
                    frames.last(),
                    seed_at(seed, n as nat),
                ));
            }
        }
    }
}

/// Reading back the file of any movie gives the same movie: its seed and
/// every pad of every frame.
pub proof fn movie_bytes_round_trip(m: MovieView)
    ensures
        parsed(movie_bytes(m)) matches Ok(back) && back.seed == m.seed && back.frames == m.frames,
{
    let bytes = movie_bytes(m);
    lemma_records(m.frames, m.seed);
    let body = records(m.frames, m.seed);
    assert(bytes.subrange(0, 4) =~= MAGIC@);
    assert(bytes.len() == HEADER_BYTES + FRAME_BYTES * m.frames.len());
    assert((bytes.len() - HEADER_BYTES) % (FRAME_BYTES as int) == 0) by (nonlinear_arith)
        requires bytes.len() == HEADER_BYTES + FRAME_BYTES * m.frames.len();
    assert((bytes.len() - HEADER_BYTES) / (FRAME_BYTES as int) == m.frames.len()) by (nonlinear_arith)
        requires bytes.len() == HEADER_BYTES + FRAME_BYTES * m.frames.len();
    let x = m.seed;
    assert(u32_of(bytes.subrange(4, 8)) == m.seed) by {
        assert(bytes.subrange(4, 8) =~= le32(x));
        assert(((((x as u8) as u32) | (((x >> 8) as u8) as u32) << 8 | (((x >> 16) as u8) as u32) << 16
            | (((x >> 24) as u8) as u32) << 24) as u32) == x) by (bit_vector);
    }
    let back = parsed(bytes)->Ok_0;
    assert forall|i: int| 0 <= i < m.frames.len() implies back.frames[i] == m.frames[i] by {
        assert(record_at(bytes, i) =~= body.subrange(FRAME_BYTES * i, FRAME_BYTES * (i + 1)));
        lemma_frame_record(m.frames[i], seed_at(m.seed, i as nat));
    }
    assert(back.frames =~= m.frames);
}

} // verus!
