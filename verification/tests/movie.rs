use melee_pc::movie::{FRAME_BYTES, Movie, MovieError, next_seed};
use melee_pc::pad::{Axis, Button, Pad};

fn sample() -> Movie {
    let p1 = Pad {
        buttons: Button::A.mask(),
        stick: Axis { x: 100, y: -100 },
        ..Pad::neutral(true)
    };
    Movie {
        seed: 0xDEAD_BEEF,
        frames: vec![
            [
                Pad::neutral(true),
                Pad::neutral(false),
                Pad::neutral(false),
                Pad::neutral(false),
            ],
            [
                p1,
                Pad::neutral(true),
                Pad::neutral(false),
                Pad::neutral(false),
            ],
        ],
    }
}

#[test]
fn frame_record_is_72_bytes() {
    assert_eq!(FRAME_BYTES, 72);
}

#[test]
fn header_and_size() {
    let bytes = sample().to_bytes();
    assert_eq!(&bytes[0..4], b"MRC2");
    assert_eq!(&bytes[4..8], &0xDEAD_BEEFu32.to_le_bytes());
    assert_eq!(bytes.len(), 8 + 2 * 72);
}

#[test]
fn frame_seeds_follow_the_game_lcg() {
    let bytes = sample().to_bytes();
    let seed_at = |frame: usize| {
        let at = 8 + frame * 72 + 68;
        u32::from_le_bytes([bytes[at], bytes[at + 1], bytes[at + 2], bytes[at + 3]])
    };
    assert_eq!(seed_at(0), 0xDEAD_BEEF);
    assert_eq!(seed_at(1), next_seed(0xDEAD_BEEF));
}

#[test]
fn lcg_matches_hsd_rand() {
    assert_eq!(next_seed(0), 2531011);
    assert_eq!(next_seed(1), 214013 + 2531011);
    assert_eq!(next_seed(u32::MAX), 2531011u32.wrapping_sub(214013));
}

#[test]
fn checksums_are_written_as_zero() {
    let bytes = sample().to_bytes();
    assert_eq!(&bytes[8 + 64..8 + 68], &[0, 0, 0, 0]);
}

#[test]
fn round_trip() {
    let movie = sample();
    assert_eq!(Movie::from_bytes(&movie.to_bytes()), Ok(movie));
}

#[test]
fn empty_movie_round_trips() {
    let movie = Movie {
        seed: 7,
        frames: Vec::new(),
    };
    assert_eq!(movie.to_bytes().len(), 8);
    assert_eq!(Movie::from_bytes(&movie.to_bytes()), Ok(movie));
}

#[test]
fn rejects_short_files() {
    assert_eq!(Movie::from_bytes(b""), Err(MovieError::TooShort));
    assert_eq!(Movie::from_bytes(b"MRC2\0\0\0"), Err(MovieError::TooShort));
}

#[test]
fn rejects_other_magic() {
    assert_eq!(
        Movie::from_bytes(b"MRC1\0\0\0\0"),
        Err(MovieError::BadMagic(*b"MRC1"))
    );
}

#[test]
fn rejects_partial_frames() {
    let mut bytes = sample().to_bytes();
    bytes.truncate(bytes.len() - 5);
    assert_eq!(Movie::from_bytes(&bytes), Err(MovieError::TrailingBytes(67)));
}

#[test]
fn reads_recordings_with_real_checksums_and_seeds() {
    let mut bytes = sample().to_bytes();
    bytes[8 + 64..8 + 72].copy_from_slice(&[0x11, 0x22, 0x33, 0x44, 0x55, 0x66, 0x77, 0x88]);
    assert_eq!(Movie::from_bytes(&bytes), Ok(sample()));
}

#[test]
fn movie_errors_read_as_messages() {
    assert_eq!(
        MovieError::TooShort.message(),
        "file is shorter than the 8-byte header"
    );
    assert_eq!(
        MovieError::BadMagic(*b"MRC1").message(),
        "expected magic MRC2, found [4d, 52, 43, 31]"
    );
    assert_eq!(
        MovieError::TrailingBytes(67).message(),
        "67 trailing bytes do not form a whole 72-byte frame"
    );
}

#[test]
fn later_frames_carry_later_seeds() {
    let movie = Movie {
        seed: 1,
        frames: vec![[Pad::neutral(true); 4]; 3],
    };
    let bytes = movie.to_bytes();
    let mut seed = 1u32;
    for frame in 0..3 {
        let at = 8 + frame * 72 + 68;
        let stored = u32::from_le_bytes([bytes[at], bytes[at + 1], bytes[at + 2], bytes[at + 3]]);
        assert_eq!(stored, seed);
        seed = next_seed(seed);
    }
}
