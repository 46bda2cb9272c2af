use melee_pc::distance::Centimeters;
use melee_pc::event::{Event, PlayerInfo};
use melee_pc::events::{PlayerSnapshot, Snapshot, Tracker};
use melee_pc::ids::{Character, GameMode, PlayerKind};

fn fighter(character: Character) -> PlayerSnapshot {
    PlayerSnapshot {
        kind: PlayerKind::Human,
        character,
        stocks: 4,
        damage: 0,
        kos: [0; 6],
    }
}

fn duel() -> Snapshot {
    let mut snapshot = Snapshot {
        scene: 2,
        ..Snapshot::default()
    };
    snapshot.players[0] = Some(fighter(Character::Fox));
    snapshot.players[1] = Some(fighter(Character::Marth));
    snapshot
}

fn settled(snapshot: Snapshot) -> Tracker {
    let mut tracker = Tracker::default();
    tracker.update(snapshot);
    tracker
}

#[test]
fn first_sample_in_a_menu_is_silent() {
    assert_eq!(Tracker::default().update(Snapshot::default()), []);
}

#[test]
fn scene_change_and_match_start_with_roster() {
    let mut tracker = settled(Snapshot {
        scene: 1,
        ..Snapshot::default()
    });
    assert_eq!(
        tracker.update(duel()),
        [
            Event::SceneChange { from: 1, to: 2 },
            Event::MatchStart {
                players: vec![
                    PlayerInfo {
                        player: 1,
                        kind: PlayerKind::Human,
                        character: Character::Fox,
                        stocks: 4
                    },
                    PlayerInfo {
                        player: 2,
                        kind: PlayerKind::Human,
                        character: Character::Marth,
                        stocks: 4
                    },
                ]
            },
        ]
    );
}

#[test]
fn mode_change_is_reported_by_name_before_the_scene_change() {
    let mut tracker = settled(Snapshot::default());
    let next = Snapshot {
        mode: GameMode::DebugVs,
        scene: 1,
        ..Snapshot::default()
    };
    assert_eq!(
        tracker.update(next),
        [
            Event::ModeChange {
                from: GameMode::Title,
                to: GameMode::DebugVs
            },
            Event::SceneChange { from: 0, to: 1 }
        ]
    );
}

#[test]
fn unchanged_state_emits_nothing() {
    let mut tracker = settled(duel());
    assert_eq!(tracker.update(duel()), []);
}

#[test]
fn damage_up_and_down() {
    let mut tracker = settled(duel());
    let mut hit = duel();
    hit.players[1] = Some(PlayerSnapshot {
        damage: 13,
        ..fighter(Character::Marth)
    });
    assert_eq!(
        tracker.update(hit),
        [Event::Damage {
            player: 2,
            from: 0,
            to: 13
        }]
    );
    assert_eq!(
        tracker.update(duel()),
        [Event::Damage {
            player: 2,
            from: 13,
            to: 0
        }]
    );
}

#[test]
fn ko_is_attributed_to_the_killer() {
    let mut tracker = settled(duel());
    let mut after = duel();
    let mut kos = [0; 6];
    kos[1] = 1;
    after.players[0] = Some(PlayerSnapshot {
        kos,
        ..fighter(Character::Fox)
    });
    after.players[1] = Some(PlayerSnapshot {
        stocks: 3,
        ..fighter(Character::Marth)
    });
    assert_eq!(
        tracker.update(after),
        [
            Event::Ko {
                killer: 1,
                victim: 2
            },
            Event::StockLost {
                player: 2,
                stocks: 3
            }
        ]
    );
}

#[test]
fn own_slot_in_the_ko_table_is_a_self_destruct() {
    let mut tracker = settled(duel());
    let mut after = duel();
    let mut kos = [0; 6];
    kos[1] = 1;
    after.players[1] = Some(PlayerSnapshot {
        stocks: 3,
        kos,
        ..fighter(Character::Marth)
    });
    assert_eq!(
        tracker.update(after),
        [
            Event::StockLost {
                player: 2,
                stocks: 3
            },
            Event::SelfDestruct { player: 2 }
        ]
    );
}

#[test]
fn several_kos_in_one_sample_are_all_reported() {
    let mut tracker = settled(duel());
    let mut after = duel();
    let mut kos = [0; 6];
    kos[1] = 2;
    after.players[0] = Some(PlayerSnapshot {
        kos,
        ..fighter(Character::Fox)
    });
    assert_eq!(
        tracker.update(after),
        [
            Event::Ko {
                killer: 1,
                victim: 2
            },
            Event::Ko {
                killer: 1,
                victim: 2
            }
        ]
    );
}

#[test]
fn gaining_a_stock_is_not_a_loss() {
    let mut tracker = settled(duel());
    let mut after = duel();
    after.players[0] = Some(PlayerSnapshot {
        stocks: 5,
        ..fighter(Character::Fox)
    });
    assert_eq!(tracker.update(after), []);
}

#[test]
fn match_end_when_every_player_is_gone() {
    let mut tracker = settled(duel());
    assert_eq!(
        tracker.update(Snapshot {
            scene: 1,
            ..Snapshot::default()
        }),
        [Event::SceneChange { from: 2, to: 1 }, Event::MatchEnd]
    );
}

#[test]
fn results_screen_demo_fighters_are_not_a_match() {
    let mut tracker = settled(duel());
    let mut results = Snapshot {
        scene: 3,
        ..Snapshot::default()
    };
    results.players[0] = Some(PlayerSnapshot {
        kind: PlayerKind::Demo,
        ..fighter(Character::Fox)
    });
    assert_eq!(
        tracker.update(results),
        [Event::SceneChange { from: 2, to: 3 }, Event::MatchEnd]
    );
    assert_eq!(tracker.update(results), []);
}

fn home_run_contest(distance: i32) -> Snapshot {
    let mut snapshot = Snapshot {
        mode: GameMode::HomeRunContest,
        scene: 1,
        home_run: Some(Centimeters(distance)),
        ..Snapshot::default()
    };
    snapshot.players[0] = Some(fighter(Character::Jigglypuff));
    snapshot.players[1] = Some(PlayerSnapshot {
        kind: PlayerKind::Cpu,
        ..fighter(Character::Sandbag)
    });
    snapshot
}

#[test]
fn a_home_run_contest_reports_its_distance_before_the_match_end() {
    let mut tracker = settled(home_run_contest(0));
    assert_eq!(tracker.update(home_run_contest(1200)), []);
    assert_eq!(tracker.update(home_run_contest(4720)), []);
    let left = Snapshot {
        mode: GameMode::HomeRunContest,
        scene: 1,
        home_run: Some(Centimeters(0)),
        ..Snapshot::default()
    };
    assert_eq!(
        tracker.update(left),
        [
            Event::HomeRunResult {
                distance: Centimeters(4720)
            },
            Event::MatchEnd
        ]
    );
    assert_eq!(tracker.update(left), []);
}

#[test]
fn a_bag_that_never_left_the_platform_is_a_zero_distance_result() {
    let mut tracker = settled(home_run_contest(0));
    let left = Snapshot {
        mode: GameMode::HomeRunContest,
        scene: 1,
        ..Snapshot::default()
    };
    assert_eq!(
        tracker.update(left),
        [
            Event::HomeRunResult {
                distance: Centimeters(0)
            },
            Event::MatchEnd
        ]
    );
}

#[test]
fn a_distance_changing_mid_flight_is_not_an_event() {
    let mut tracker = settled(home_run_contest(0));
    for distance in [10, 500, 4000, 4720] {
        assert_eq!(tracker.update(home_run_contest(distance)), []);
    }
}

#[test]
fn a_match_outside_home_run_contest_has_no_result() {
    let mut tracker = settled(duel());
    let results = Snapshot {
        scene: 3,
        ..Snapshot::default()
    };
    let events = tracker.update(results);
    assert!(events.contains(&Event::MatchEnd));
    assert!(
        !events
            .iter()
            .any(|event| matches!(event, Event::HomeRunResult { .. }))
    );
}

#[test]
fn a_player_leaving_mid_match_is_not_a_match_end() {
    let mut tracker = settled(duel());
    let mut after = duel();
    after.players[1] = None;
    assert_eq!(tracker.update(after), []);
}

#[test]
fn a_bigger_ko_count_on_another_victim_names_that_victim() {
    let mut tracker = settled(duel());
    let mut after = duel();
    let mut kos = [0; 6];
    kos[0] = 1;
    after.players[1] = Some(PlayerSnapshot {
        kos,
        ..fighter(Character::Marth)
    });
    assert_eq!(tracker.update(after), [Event::Ko { killer: 2, victim: 1 }]);
}

#[test]
fn a_repeated_sample_after_events_is_silent() {
    let mut tracker = settled(duel());
    let mut hit = duel();
    hit.players[0] = Some(PlayerSnapshot {
        damage: 40,
        ..fighter(Character::Fox)
    });
    assert_eq!(tracker.update(hit).len(), 1);
    assert_eq!(tracker.update(hit), []);
}

