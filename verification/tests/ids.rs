use std::collections::HashSet;

use melee_pc::ids::{Character, GameMode, PlayerKind};

#[test]
fn raw_ids_match_the_game() {
    assert_eq!(GameMode::from_raw(0x0E), GameMode::DebugVs);
    assert_eq!(GameMode::from_raw(0x20), GameMode::HomeRunContest);
    assert_eq!(GameMode::from_raw(45), GameMode::Online);
    assert_eq!(Character::from_raw(15), Character::Jigglypuff);
    assert_eq!(Character::from_raw(31), Character::Sandbag);
    assert_eq!(PlayerKind::from_raw(4), PlayerKind::Boss);
}

#[test]
fn player_kind_maps_game_enum() {
    assert_eq!(PlayerKind::from_raw(0), PlayerKind::Human);
    assert_eq!(PlayerKind::from_raw(1), PlayerKind::Cpu);
    assert_eq!(PlayerKind::from_raw(2), PlayerKind::Demo);
    assert_eq!(PlayerKind::from_raw(3), PlayerKind::Unknown);
    assert_eq!(PlayerKind::from_raw(4), PlayerKind::Boss);
    assert_eq!(PlayerKind::from_raw(5), PlayerKind::Unknown);
    assert_eq!(PlayerKind::from_raw(-1), PlayerKind::Unknown);
}

#[test]
fn character_names_match_ckind_order() {
    assert_eq!(Character::from_raw(0x00).name(), "Captain Falcon");
    assert_eq!(Character::from_raw(0x02).name(), "Fox");
    assert_eq!(Character::from_raw(0x13).name(), "Sheik");
    assert_eq!(Character::from_raw(0x19).name(), "Ganondorf");
    assert_eq!(Character::from_raw(0x1A).name(), "Master Hand");
    assert_eq!(Character::from_raw(0x20).name(), "Popo");
    assert_eq!(Character::from_raw(0x21).name(), "Unknown");
    assert_eq!(Character::from_raw(-1).name(), "Unknown");
}

#[test]
fn game_mode_names_match_the_enum() {
    assert_eq!(GameMode::from_raw(0x00).name(), "title");
    assert_eq!(GameMode::from_raw(0x02).name(), "vs");
    assert_eq!(GameMode::from_raw(0x0E).name(), "debug_vs");
    assert_eq!(GameMode::from_raw(0x18).name(), "opening_mv");
    assert_eq!(GameMode::from_raw(0x2D).name(), "online");
    assert_eq!(GameMode::from_raw(0x2E).name(), "unknown");
    assert_eq!(GameMode::from_raw(0xFF).name(), "unknown");
}

#[test]
fn ids_outside_the_table_are_unknown() {
    assert_eq!(GameMode::from_raw(46), GameMode::Unknown);
    assert_eq!(GameMode::from_raw(-1), GameMode::Unknown);
    assert_eq!(Character::from_raw(33), Character::Unknown);
    assert_eq!(PlayerKind::from_raw(3), PlayerKind::Unknown);
}

#[test]
fn known_ids_are_contiguous_where_the_game_says_so() {
    for (raw, mode) in GameMode::KNOWN.iter().enumerate() {
        assert_eq!(GameMode::from_raw(raw as i32), *mode);
    }
    for (raw, character) in Character::KNOWN.iter().enumerate() {
        assert_eq!(Character::from_raw(raw as i32), *character);
    }
    assert_eq!(GameMode::KNOWN.len(), 46);
    assert_eq!(Character::KNOWN.len(), 33);
}

#[test]
fn wire_names_are_unique_and_round_trip() {
    let modes: HashSet<_> = GameMode::KNOWN.iter().map(|m| m.name()).collect();
    assert_eq!(modes.len(), GameMode::KNOWN.len());
    for mode in GameMode::KNOWN.iter() {
        assert_eq!(GameMode::from_name(mode.name()), *mode);
    }
    let characters: HashSet<_> = Character::KNOWN.iter().map(|c| c.name()).collect();
    assert_eq!(characters.len(), Character::KNOWN.len());
    for character in Character::KNOWN.iter() {
        assert_eq!(Character::from_name(character.name()), *character);
    }
    for kind in PlayerKind::KNOWN.iter() {
        assert_eq!(PlayerKind::from_name(kind.name()), *kind);
    }
}

#[test]
fn the_default_mode_is_the_zeroed_one() {
    assert_eq!(GameMode::default(), GameMode::from_raw(0));
}

#[test]
fn every_unknown_name_reads_back_as_unknown() {
    assert_eq!(GameMode::from_name(GameMode::Unknown.name()), GameMode::Unknown);
    assert_eq!(Character::from_name(Character::Unknown.name()), Character::Unknown);
    assert_eq!(PlayerKind::from_name(PlayerKind::Unknown.name()), PlayerKind::Unknown);
    assert_eq!(GameMode::from_name("Title"), GameMode::Unknown);
    assert_eq!(Character::from_name("fox"), Character::Unknown);
}
