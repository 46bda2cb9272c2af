use melee_pc::events::PlayerSnapshot;
use melee_pc::game::{PadButton, Slot, SlotReading, pad_pressed, player_snapshot, snapshot_of};
use melee_pc::ids::{Character, GameMode, PlayerKind};

#[test]
fn pad_button_masks_match_hsd_pad_bits() {
    let expected = [
        (PadButton::Left, 0x0001),
        (PadButton::Right, 0x0002),
        (PadButton::Down, 0x0004),
        (PadButton::Up, 0x0008),
        (PadButton::Z, 0x0010),
        (PadButton::R, 0x0020),
        (PadButton::L, 0x0040),
        (PadButton::A, 0x0100),
        (PadButton::B, 0x0200),
        (PadButton::X, 0x0400),
        (PadButton::Y, 0x0800),
        (PadButton::Start, 0x1000),
    ];
    for (button, mask) in expected {
        assert_eq!(button.mask(), mask, "{button:?}");
    }
}

#[test]
fn pad_view_reads_pressed_buttons() {
    let buttons = 0x1100;
    assert!(pad_pressed(buttons, PadButton::A) && pad_pressed(buttons, PadButton::Start));
    assert!(!pad_pressed(buttons, PadButton::B) && !pad_pressed(buttons, PadButton::Z));
}

#[test]
fn slots_cover_every_player() {
    let numbers: Vec<u8> = Slot::all().into_iter().map(Slot::number).collect();
    assert_eq!(numbers, [1, 2, 3, 4, 5, 6]);
    let indices: Vec<usize> = Slot::all().into_iter().map(Slot::index).collect();
    assert_eq!(indices, [0, 1, 2, 3, 4, 5]);
}

fn reading(kind: i32, alive: bool) -> SlotReading {
    SlotReading {
        kind,
        alive,
        character: 15,
        stocks: 4,
        damage: 12,
        kos: [0, 1, 0, 0, 0, 0],
    }
}

#[test]
fn only_a_live_fighter_of_a_known_kind_is_a_player() {
    assert_eq!(
        player_snapshot(&reading(0, true)),
        Some(PlayerSnapshot {
            kind: PlayerKind::Human,
            character: Character::Jigglypuff,
            stocks: 4,
            damage: 12,
            kos: [0, 1, 0, 0, 0, 0],
        })
    );
    assert_eq!(player_snapshot(&reading(0, false)), None);
    assert_eq!(player_snapshot(&reading(3, true)), None);
    assert_eq!(player_snapshot(&reading(-1, true)), None);
}

#[test]
fn a_snapshot_reads_mode_scene_and_every_slot() {
    let slots = [
        reading(0, true),
        reading(1, true),
        reading(3, true),
        reading(2, false),
        reading(4, true),
        reading(9, true),
    ];
    let snapshot = snapshot_of(0x20, 7, &slots);
    assert_eq!(snapshot.mode, GameMode::HomeRunContest);
    assert_eq!(snapshot.scene, 7);
    assert_eq!(snapshot.home_run, None);
    let kinds: Vec<Option<PlayerKind>> = snapshot.players.iter().map(|p| p.map(|p| p.kind)).collect();
    assert_eq!(
        kinds,
        [Some(PlayerKind::Human), Some(PlayerKind::Cpu), None, None, Some(PlayerKind::Boss), None]
    );
}
