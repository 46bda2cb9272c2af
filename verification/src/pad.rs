use vstd::prelude::*;

use crate::text::{ascii_lower, eq_ignore_case, str_eq_ignore_case};

verus! {

/// Size of one controller record in a movie frame.
pub const PAD_BYTES: usize = 16;

/// Number of controller ports on the console.
pub const PORTS: usize = 4;

/// A digital button of the GameCube controller.
#[derive(Clone, Copy, Debug, PartialEq, Eq, Structural)]
pub enum Button {
    Left,
    Right,
    Down,
    Up,
    Z,
    R,
    L,
    A,
    B,
    X,
    Y,
    Start,
}

impl Button {
    pub const ALL: [Button; 12] = [
        Button::A,
        Button::B,
        Button::X,
        Button::Y,
        Button::Z,
        Button::L,
        Button::R,
        Button::Start,
        Button::Up,
        Button::Down,
        Button::Left,
        Button::Right,
    ];

    /// The button's name in scripts.
    pub open spec fn spec_name(self) -> Seq<char> {
        match self {
            Button::Left => seq!['L', 'E', 'F', 'T'],
            Button::Right => seq!['R', 'I', 'G', 'H', 'T'],
            Button::Down => seq!['D', 'O', 'W', 'N'],
            Button::Up => seq!['U', 'P'],
            Button::Z => seq!['Z'],
            Button::R => seq!['R'],
            Button::L => seq!['L'],
            Button::A => seq!['A'],
            Button::B => seq!['B'],
            Button::X => seq!['X'],
            Button::Y => seq!['Y'],
            Button::Start => seq!['S', 'T', 'A', 'R', 'T'],
        }
    }

    /// The button's name in scripts.
    pub fn name(self) -> (r: &'static str)
        ensures
            r@ == self.spec_name(),
    {
        match self {
            Button::Left => {
                proof {
                    reveal_strlit("LEFT");
                }
                "LEFT"
            },
            Button::Right => {
                proof {
                    reveal_strlit("RIGHT");
                }
                "RIGHT"
            },
            Button::Down => {
                proof {
                    reveal_strlit("DOWN");
                }
                "DOWN"
            },
            Button::Up => {
                proof {
                    reveal_strlit("UP");
                }
                "UP"
            },
            Button::Z => {
                proof {
                    reveal_strlit("Z");
                }
                "Z"
            },
            Button::R => {
                proof {
                    reveal_strlit("R");
                }
                "R"
            },
            Button::L => {
                proof {
                    reveal_strlit("L");
                }
                "L"
            },
            Button::A => {
                proof {
                    reveal_strlit("A");
                }
                "A"
            },
            Button::B => {
                proof {
                    reveal_strlit("B");
                }
                "B"
            },
            Button::X => {
                proof {
                    reveal_strlit("X");
                }
                "X"
            },
            Button::Y => {
                proof {
                    reveal_strlit("Y");
                }
                "Y"
            },
            Button::Start => {
                proof {
                    reveal_strlit("START");
                }
                "START"
            },
        }
    }

    /// The first button of [`Button::ALL`] whose name matches `name` without
    /// regard to ASCII case.
    pub open spec fn spec_from_name(name: Seq<char>) -> Option<Button> {
        first_named(Button::ALL@, name, 0)
    }

    /// Reads a button name, in any ASCII case.
    pub fn from_name(name: &str) -> (r: Option<Button>)
        ensures
            r == Button::spec_from_name(name@),
    {
        let all = Button::ALL;
        let mut i: usize = 0;
        while i < 12
            invariant
                i <= 12,
                all@ == Button::ALL@,
                first_named(all@, name@, 0) == first_named(all@, name@, i as int),
            decreases 12 - i,
        {
            if str_eq_ignore_case(all[i].name(), name) {
                return Some(all[i]);
            }
            i += 1;
        }
        None
    }

    pub open spec fn spec_mask(self) -> u16 {
        match self {
            Button::Left => 0x0001,
            Button::Right => 0x0002,
            Button::Down => 0x0004,
            Button::Up => 0x0008,
            Button::Z => 0x0010,
            Button::R => 0x0020,
            Button::L => 0x0040,
            Button::A => 0x0100,
            Button::B => 0x0200,
            Button::X => 0x0400,
            Button::Y => 0x0800,
            Button::Start => 0x1000,
        }
    }

    /// The bit this button sets in the pad's button word.
    pub fn mask(self) -> (m: u16)
        ensures
            m == self.spec_mask(),
    {
        match self {
            Button::Left => 0x0001,
            Button::Right => 0x0002,
            Button::Down => 0x0004,
            Button::Up => 0x0008,
            Button::Z => 0x0010,
            Button::R => 0x0020,
            Button::L => 0x0040,
            Button::A => 0x0100,
            Button::B => 0x0200,
            Button::X => 0x0400,
            Button::Y => 0x0800,
            Button::Start => 0x1000,
        }
    }
}

/// The first button of `all` from position `i` on whose name matches `name`.
pub open spec fn first_named(all: Seq<Button>, name: Seq<char>, i: int) -> Option<Button>
    decreases all.len() - i,
{
    if i < 0 || i >= all.len() {
        None
    } else if eq_ignore_case(all[i].spec_name(), name) {
        Some(all[i])
    } else {
        first_named(all, name, i + 1)
    }
}

/// A stick position, each axis from -128 to 127.
#[derive(Clone, Copy, Debug, Default, PartialEq, Eq, Structural)]
pub struct Axis {
    pub x: i8,
    pub y: i8,
}

/// The centred stick.
pub open spec fn centred() -> Axis {
    Axis { x: 0, y: 0 }
}

/// One frame of one controller: buttons, both sticks, both analog triggers
/// and whether a controller is plugged in.
#[derive(Clone, Copy, Debug, Default, PartialEq, Eq, Structural)]
pub struct Pad {
    pub buttons: u16,
    pub stick: Axis,
    pub cstick: Axis,
    pub left_trigger: u8,
    pub right_trigger: u8,
    pub connected: bool,
}

/// The pad with nothing held.
pub open spec fn neutral_pad(connected: bool) -> Pad {
    Pad { buttons: 0, stick: centred(), cstick: centred(), left_trigger: 0, right_trigger: 0, connected }
}

/// The error byte the game writes for a pad: zero when a controller answers.
pub open spec fn error_byte(connected: bool) -> u8 {
    if connected { 0 } else { 0xFF }
}

/// The game's pad status record for `p`: buttons little-endian, the four stick
/// axes and two triggers as bytes, then the error code at offset 10.
pub open spec fn pad_bytes(p: Pad) -> Seq<u8> {
    seq![
        p.buttons as u8,
        (p.buttons >> 8) as u8,
        p.stick.x as u8,
        p.stick.y as u8,
        p.cstick.x as u8,
        p.cstick.y as u8,
        p.left_trigger,
        p.right_trigger,
        0u8,
        0u8,
        error_byte(p.connected),
        0u8,
        0u8,
        0u8,
        0u8,
        0u8,
    ]
}

/// The pad a status record describes; any error code but zero reads as no
/// controller.
pub open spec fn pad_of_bytes(b: Seq<u8>) -> Pad {
    Pad {
        buttons: ((b[0] as u16) | ((b[1] as u16) << 8)) as u16,
        stick: Axis { x: b[2] as i8, y: b[3] as i8 },
        cstick: Axis { x: b[4] as i8, y: b[5] as i8 },
        left_trigger: b[6],
        right_trigger: b[7],
        connected: b[10] == 0,
    }
}

impl Pad {
    /// A pad with nothing held.
    pub fn neutral(connected: bool) -> (p: Pad)
        ensures
            p == neutral_pad(connected),
    {
        Pad {
            buttons: 0,
            stick: Axis { x: 0, y: 0 },
            cstick: Axis { x: 0, y: 0 },
            left_trigger: 0,
            right_trigger: 0,
            connected,
        }
    }

    /// Whether nothing is held, whatever the connection state.
    pub fn is_neutral(&self) -> (r: bool)
        ensures
            r == (*self == neutral_pad(self.connected)),
    {
        self.buttons == 0 && self.stick.x == 0 && self.stick.y == 0 && self.cstick.x == 0
            && self.cstick.y == 0 && self.left_trigger == 0 && self.right_trigger == 0
    }

    /// Whether `button` is held.
    pub fn pressed(&self, button: Button) -> (r: bool)
        ensures
            r == (self.buttons & button.spec_mask() != 0),
    {
        self.buttons & button.mask() != 0
    }

    /// The record the game's replay reads for this pad.
    pub fn to_bytes(self) -> (bytes: [u8; 16])
        ensures
            bytes@ == pad_bytes(self),
    {
        let err: u8 = if self.connected { 0 } else { 0xFF };
        let bytes: [u8; 16] = [
            self.buttons as u8,
            (self.buttons >> 8) as u8,
            self.stick.x as u8,
            self.stick.y as u8,
            self.cstick.x as u8,
            self.cstick.y as u8,
            self.left_trigger,
            self.right_trigger,
            0,
            0,
            err,
            0,
            0,
            0,
            0,
            0,
        ];
        assert(bytes@ =~= pad_bytes(self));
        bytes
    }

    /// Reads a pad back from its record.
    pub fn from_bytes(bytes: &[u8; 16]) -> (p: Pad)
        ensures
            p == pad_of_bytes(bytes@),
    {
        Pad {
            buttons: (bytes[0] as u16) | ((bytes[1] as u16) << 8),
            stick: Axis { x: bytes[2] as i8, y: bytes[3] as i8 },
            cstick: Axis { x: bytes[4] as i8, y: bytes[5] as i8 },
            left_trigger: bytes[6],
            right_trigger: bytes[7],
            connected: bytes[10] == 0,
        }
    }
}

/// Reading back the record of a pad gives the same pad.
pub proof fn pad_bytes_round_trip(p: Pad)
    ensures
        pad_of_bytes(pad_bytes(p)) == p,
        pad_bytes(p).len() == PAD_BYTES,
{
    let b = p.buttons;
    assert((((b as u8) as u16) | (((b >> 8) as u8) as u16) << 8) == b) by (bit_vector);
    let (x, y, cx, cy) = (p.stick.x, p.stick.y, p.cstick.x, p.cstick.y);
    assert(((x as u8) as i8) == x) by (bit_vector);
    assert(((y as u8) as i8) == y) by (bit_vector);
    assert(((cx as u8) as i8) == cx) by (bit_vector);
    assert(((cy as u8) as i8) == cy) by (bit_vector);
}

/// No two buttons share a bit of the button word.
pub proof fn button_masks_are_distinct(a: Button, b: Button)
    ensures
        a != b ==> a.spec_mask() != b.spec_mask(),
{
}

proof fn lemma_first_named_skips(all: Seq<Button>, name: Seq<char>, i: int, j: int)
    requires
        0 <= i <= j <= all.len(),
        forall|k: int| i <= k < j ==> !eq_ignore_case(#[trigger] all[k].spec_name(), name),
    ensures
        first_named(all, name, i) == first_named(all, name, j),
    decreases j - i,
{
    if i < j {
        lemma_first_named_skips(all, name, i + 1, j);
    }
}

/// Every button's name reads back as that button, so no two buttons share a
/// name.
pub proof fn button_names_round_trip(b: Button)
    ensures
        Button::spec_from_name(b.spec_name()) == Some(b),
{
    let all = Button::ALL@;
    let name = b.spec_name();
    let idx: int = match b {
        Button::A => 0,
        Button::B => 1,
        Button::X => 2,
        Button::Y => 3,
        Button::Z => 4,
        Button::L => 5,
        Button::R => 6,
        Button::Start => 7,
        Button::Up => 8,
        Button::Down => 9,
        Button::Left => 10,
        Button::Right => 11,
    };
    assert(all[idx] == b);
    assert forall|k: int| 0 <= k < idx implies !eq_ignore_case(#[trigger] all[k].spec_name(), name) by {
        let other = all[k].spec_name();
        if other.len() == name.len() {
            assert(ascii_lower(other[0]) != ascii_lower(name[0]));
        }
    }
    lemma_first_named_skips(all, name, 0, idx);
    assert(eq_ignore_case(name, name));
}

proof fn lemma_first_named_respects_case(all: Seq<Button>, a: Seq<char>, b: Seq<char>, i: int)
    requires
        eq_ignore_case(a, b),
    ensures
        first_named(all, a, i) == first_named(all, b, i),
    decreases all.len() - i,
{
    if 0 <= i < all.len() {
        let n = all[i].spec_name();
        if eq_ignore_case(n, a) {
            assert(eq_ignore_case(n, b)) by {
                assert forall|k: int| 0 <= k < n.len() implies #[trigger] ascii_lower(n[k]) == ascii_lower(b[k]) by {
                    assert(ascii_lower(n[k]) == ascii_lower(a[k]));
                    assert(ascii_lower(a[k]) == ascii_lower(b[k]));
                }
            }
        } else if eq_ignore_case(n, b) {
            assert(eq_ignore_case(n, a)) by {
                assert forall|k: int| 0 <= k < n.len() implies #[trigger] ascii_lower(n[k]) == ascii_lower(a[k]) by {
                    assert(ascii_lower(n[k]) == ascii_lower(b[k]));
                    assert(ascii_lower(a[k]) == ascii_lower(b[k]));
                }
            }
        }
        lemma_first_named_respects_case(all, a, b, i + 1);
    }
}

/// Button names are read without regard to ASCII case: two spellings that
/// differ only in case name the same button, or none.
pub proof fn button_names_ignore_case(a: Seq<char>, b: Seq<char>)
    requires
        eq_ignore_case(a, b),
    ensures
        Button::spec_from_name(a) == Button::spec_from_name(b),
{
    lemma_first_named_respects_case(Button::ALL@, a, b, 0);
}

} // verus!
