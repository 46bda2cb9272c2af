use vstd::prelude::*;

use crate::events::{PlayerSnapshot, Snapshot};
use crate::ids::{Character, GameMode, PlayerKind};

verus! {

/// Player slots the game keeps, including the two that only bosses use.
pub const PLAYER_SLOTS: usize = 6;

/// Controller ports.
pub const PAD_PORTS: usize = 4;

/// The simulation rate the game runs at unless told otherwise.
pub const DEFAULT_SIM_HZ: u32 = 60;

/// A digital button as the game's pad state reports it.
#[derive(Clone, Copy, Debug, PartialEq, Eq, Structural)]
pub enum PadButton {
    Left,
    Right,
    Down,
    Up,
    Z,
    R,
    L,
    A,
    B,
    X,
    Y,
    Start,
}

impl PadButton {
    pub open spec fn spec_mask(self) -> u32 {
        match self {
            PadButton::Left => 0x0001,
            PadButton::Right => 0x0002,
            PadButton::Down => 0x0004,
            PadButton::Up => 0x0008,
            PadButton::Z => 0x0010,
            PadButton::R => 0x0020,
            PadButton::L => 0x0040,
            PadButton::A => 0x0100,
            PadButton::B => 0x0200,
            PadButton::X => 0x0400,
            PadButton::Y => 0x0800,
            PadButton::Start => 0x1000,
        }
    }

    /// The bit this button sets in the game's button word.
    pub fn mask(self) -> (m: u32)
        ensures
            m == self.spec_mask(),
    {
        match self {
            PadButton::Left => 0x0001,
            PadButton::Right => 0x0002,
            PadButton::Down => 0x0004,
            PadButton::Up => 0x0008,
            PadButton::Z => 0x0010,
            PadButton::R => 0x0020,
            PadButton::L => 0x0040,
            PadButton::A => 0x0100,
            PadButton::B => 0x0200,
            PadButton::X => 0x0400,
            PadButton::Y => 0x0800,
            PadButton::Start => 0x1000,
        }
    }
}

/// One of the game's player slots, numbered from zero.
#[derive(Clone, Copy, Debug, PartialEq, Eq, Structural)]
pub struct Slot(u8);

impl Slot {
    #[verifier::type_invariant]
    spec fn in_range(self) -> bool {
        self.0 < PLAYER_SLOTS
    }

    /// The slot's position, counted from zero.
    pub closed spec fn spec_index(self) -> nat {
        self.0 as nat
    }

    /// Every slot, first to last.
    pub fn all() -> (slots: Vec<Slot>)
        ensures
            slots@.len() == PLAYER_SLOTS,
            forall|i: int| 0 <= i < PLAYER_SLOTS ==> #[trigger] slots@[i].spec_index() == i,
    {
        let mut slots: Vec<Slot> = Vec::new();
        let mut i: u8 = 0;
        while i < 6
            invariant
                i <= 6,
                slots@.len() == i,
                forall|j: int| 0 <= j < i ==> #[trigger] slots@[j].spec_index() == j,
            decreases 6 - i,
        {
            slots.push(Slot(i));
            i += 1;
        }
        slots
    }

    /// The number players see: slot zero is player 1.
    pub fn number(self) -> (n: u8)
        ensures
            n == self.spec_index() + 1,
    {
        proof {
            use_type_invariant(&self);
        }
        self.0 + 1
    }

    /// The slot's position, counted from zero.
    pub fn index(self) -> (i: usize)
        ensures
            i == self.spec_index(),
            i < PLAYER_SLOTS,
    {
        proof {
            use_type_invariant(&self);
        }
        self.0 as usize
    }
}

/// Whether `button` is held in the game's button word `buttons`.
pub fn pad_pressed(buttons: u32, button: PadButton) -> (b: bool)
    ensures
        b == (buttons & button.spec_mask() != 0),
{
    buttons & button.mask() != 0
}

/// What the game reports for one player slot, as read from it.
#[derive(Clone, Copy, Debug)]
pub struct SlotReading {
    pub kind: i32,
    pub alive: bool,
    pub character: i32,
    pub stocks: i32,
    pub damage: i32,
    pub kos: [i32; 6],
}

/// The slot's player: none when the slot holds no kind the game defines or
/// its fighter is not alive.
pub open spec fn spec_player_snapshot(r: SlotReading) -> Option<PlayerSnapshot> {
    if PlayerKind::spec_from_raw(r.kind) == PlayerKind::Unknown || !r.alive {
        None
    } else {
        Some(PlayerSnapshot {
            kind: PlayerKind::spec_from_raw(r.kind),
            character: Character::spec_from_raw(r.character),
            stocks: r.stocks,
            damage: r.damage,
            kos: r.kos,
        })
    }
}

pub fn player_snapshot(r: &SlotReading) -> (p: Option<PlayerSnapshot>)
    ensures
        p == spec_player_snapshot(*r),
{
    let kind = PlayerKind::from_raw(r.kind);
    if kind == PlayerKind::Unknown || !r.alive {
        return None;
    }
    Some(PlayerSnapshot {
        kind,
        character: Character::from_raw(r.character),
        stocks: r.stocks,
        damage: r.damage,
        kos: r.kos,
    })
}

/// The sample the event stream is derived from: the game mode and scene the
/// game reports, no Home-Run Contest distance, and each slot's player.
pub fn snapshot_of(mode: u8, scene: u8, slots: &[SlotReading; 6]) -> (s: Snapshot)
    ensures
        s.mode == GameMode::spec_from_raw(mode as i32),
        s.scene == scene,
        s.home_run is None,
        forall|i: int| 0 <= i < 6 ==> s.players[i] == spec_player_snapshot(#[trigger] slots[i]),
{
    let players = [
        player_snapshot(&slots[0]),
        player_snapshot(&slots[1]),
        player_snapshot(&slots[2]),
        player_snapshot(&slots[3]),
        player_snapshot(&slots[4]),
        player_snapshot(&slots[5]),
    ];
    Snapshot { mode: GameMode::from_raw(mode as i32), scene, home_run: None, players }
}

} // verus!
