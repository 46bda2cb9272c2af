use melee_pc::distance::Centimeters;
use melee_pc::event::{Command, Event};
use melee_pc::ids::GameMode;
use melee_pc::overlay::{
    FEED_CAPACITY, FEED_LIFETIME, FeedKind, Hud, Nameplate, damage_label, home_run_label, match_clock,
    mode_banner, percent_label, player_tag, slot_index, truncated,
};

#[test]
fn player_numbers_are_one_based() {
    assert_eq!(slot_index(0), None);
    assert_eq!(slot_index(1), Some(0));
    assert_eq!(slot_index(6), Some(5));
    assert_eq!(slot_index(7), None);
    assert_eq!(slot_index(u8::MAX), None);
}

#[test]
fn clock_formats_frames_at_60hz() {
    assert_eq!(match_clock(0), "00:00.00");
    assert_eq!(match_clock(30), "00:00.50");
    assert_eq!(match_clock(59), "00:00.98");
    assert_eq!(match_clock(60), "00:01.00");
    assert_eq!(match_clock(60 * 61 + 15), "01:01.25");
    assert_eq!(match_clock(60 * 60 * 10), "10:00.00");
}

#[test]
fn ko_updates_feed_and_tallies() {
    let mut hud = Hud::default();
    hud.ingest(
        10,
        &Event::Ko {
            killer: 2,
            victim: 1,
        },
    );
    hud.ingest(
        20,
        &Event::Ko {
            killer: 2,
            victim: 1,
        },
    );
    hud.ingest(30, &Event::SelfDestruct { player: 2 });
    assert_eq!(hud.kos(), [0, 2, 0, 0, 0, 0]);
    assert_eq!(hud.falls(), [2, 1, 0, 0, 0, 0]);
    let kinds: Vec<&FeedKind> = hud.feed().iter().map(|entry| &entry.kind).collect();
    assert_eq!(
        kinds,
        [
            &FeedKind::Ko {
                killer: 2,
                victim: 1
            },
            &FeedKind::Ko {
                killer: 2,
                victim: 1
            },
            &FeedKind::SelfDestruct { player: 2 },
        ]
    );
}

#[test]
fn out_of_range_players_do_not_panic_or_count() {
    let mut hud = Hud::default();
    hud.ingest(
        1,
        &Event::Ko {
            killer: 0,
            victim: 9,
        },
    );
    assert_eq!(hud.kos(), [0; 6]);
    assert_eq!(hud.falls(), [0; 6]);
}

#[test]
fn rapid_hits_on_one_player_merge_into_one_row() {
    let mut hud = Hud::default();
    hud.ingest(
        100,
        &Event::Damage {
            player: 1,
            from: 0,
            to: 4,
        },
    );
    hud.ingest(
        108,
        &Event::Damage {
            player: 1,
            from: 4,
            to: 9,
        },
    );
    hud.ingest(
        120,
        &Event::Damage {
            player: 1,
            from: 9,
            to: 21,
        },
    );
    assert_eq!(hud.feed().len(), 1);
    assert_eq!(
        hud.feed()[0].kind,
        FeedKind::Damage {
            player: 1,
            dealt: 21,
            total: 21,
            hits: 3,
        }
    );
    assert_eq!(hud.feed()[0].born, 120);
}

#[test]
fn hits_on_another_player_or_after_the_window_start_a_new_row() {
    let mut hud = Hud::default();
    hud.ingest(
        100,
        &Event::Damage {
            player: 1,
            from: 0,
            to: 4,
        },
    );
    hud.ingest(
        105,
        &Event::Damage {
            player: 2,
            from: 0,
            to: 6,
        },
    );
    hud.ingest(
        200,
        &Event::Damage {
            player: 2,
            from: 6,
            to: 8,
        },
    );
    assert_eq!(hud.feed().len(), 3);
}

#[test]
fn a_combo_keeps_merging_across_another_players_row() {
    let mut hud = Hud::default();
    hud.ingest(
        100,
        &Event::Damage {
            player: 1,
            from: 0,
            to: 5,
        },
    );
    hud.ingest(
        110,
        &Event::Damage {
            player: 2,
            from: 0,
            to: 3,
        },
    );
    hud.ingest(
        150,
        &Event::Damage {
            player: 1,
            from: 5,
            to: 12,
        },
    );
    assert_eq!(hud.feed().len(), 2);
    assert_eq!(
        hud.feed()[0].kind,
        FeedKind::Damage {
            player: 1,
            dealt: 12,
            total: 12,
            hits: 2
        }
    );
    assert_eq!(hud.feed()[0].born, 150);
    assert_eq!(
        hud.feed()[1].kind,
        FeedKind::Damage {
            player: 2,
            dealt: 3,
            total: 3,
            hits: 1
        }
    );
}

#[test]
fn a_hit_after_the_combo_window_starts_a_new_row() {
    let mut hud = Hud::default();
    hud.ingest(
        100,
        &Event::Damage {
            player: 1,
            from: 0,
            to: 5,
        },
    );
    hud.ingest(
        190,
        &Event::Damage {
            player: 1,
            from: 5,
            to: 9,
        },
    );
    hud.ingest(
        281,
        &Event::Damage {
            player: 1,
            from: 9,
            to: 20,
        },
    );
    assert_eq!(hud.feed().len(), 2);
    assert_eq!(
        hud.feed()[0].kind,
        FeedKind::Damage {
            player: 1,
            dealt: 9,
            total: 9,
            hits: 2
        }
    );
    assert_eq!(
        hud.feed()[1].kind,
        FeedKind::Damage {
            player: 1,
            dealt: 11,
            total: 20,
            hits: 1
        }
    );
}

#[test]
fn healing_and_respawn_resets_are_not_shown() {
    let mut hud = Hud::default();
    hud.ingest(
        5,
        &Event::Damage {
            player: 1,
            from: 80,
            to: 0,
        },
    );
    hud.ingest(
        6,
        &Event::Damage {
            player: 1,
            from: 30,
            to: 30,
        },
    );
    assert!(hud.feed().is_empty());
}

#[test]
fn feed_is_capped_and_drops_the_oldest() {
    let mut hud = Hud::default();
    for player in 0..(FEED_CAPACITY as u8 + 3) {
        hud.ingest(
            u64::from(player),
            &Event::SelfDestruct {
                player: player % 4 + 1,
            },
        );
    }
    assert_eq!(hud.feed().len(), FEED_CAPACITY);
    assert_eq!(hud.feed()[0].born, 3);
}

#[test]
fn expire_removes_entries_past_their_lifetime() {
    let mut hud = Hud::default();
    hud.ingest(0, &Event::MatchEnd);
    hud.ingest(200, &Event::MatchEnd);
    hud.expire(FEED_LIFETIME - 1);
    assert_eq!(hud.feed().len(), 2);
    hud.expire(FEED_LIFETIME);
    assert_eq!(hud.feed().len(), 1);
    hud.expire(200 + FEED_LIFETIME);
    assert!(hud.feed().is_empty());
}

#[test]
fn match_clock_runs_from_start_and_freezes_at_end() {
    let mut hud = Hud::default();
    assert_eq!(hud.match_frames(500), None);
    hud.ingest(
        10,
        &Event::Ko {
            killer: 1,
            victim: 2,
        },
    );
    hud.ingest(
        808,
        &Event::MatchStart {
            players: Vec::new(),
        },
    );
    assert_eq!(hud.kos(), [0; 6], "a new match resets the tally");
    assert_eq!(hud.match_frames(808), Some(0));
    assert_eq!(hud.match_frames(1408), Some(600));
    hud.ingest(7795, &Event::MatchEnd);
    assert_eq!(hud.match_frames(9000), Some(6987));
}

#[test]
fn a_home_run_gets_a_feed_row_with_the_distance_in_feet() {
    let mut hud = Hud::default();
    hud.ingest(
        742,
        &Event::HomeRunResult {
            distance: Centimeters(4720),
        },
    );
    assert_eq!(hud.feed().len(), 1);
    assert_eq!(
        hud.feed()[0].kind,
        FeedKind::HomeRun {
            distance: Centimeters(4720)
        }
    );
    assert_eq!(hud.feed()[0].born, 742);
    assert_eq!(home_run_label(Centimeters(4720)), "HOME RUN  154.8 FT");
}

#[test]
fn long_summaries_are_cut_on_a_character_boundary() {
    assert_eq!(truncated("short", 10), "short");
    assert_eq!(truncated("exactly ten", 11), "exactly ten");
    assert_eq!(
        truncated("Sandbag: test ticket for the demo", 12),
        "Sandbag: te…"
    );
    assert_eq!(truncated("trailing space here", 9), "trailing…");
    assert_eq!(truncated("ｗｉｄｅ ｃｈａｒｓ ｈｅｒｅ", 5), "ｗｉｄｅ…");
    assert_eq!(truncated("", 5), "");
}

#[test]
fn a_nameplate_command_is_kept_and_only_wanted_in_home_run_contest() {
    let mut hud = Hud::default();
    assert!(!hud.wants_bag());
    hud.command(
        1,
        Command::Nameplate {
            key: "DEMO-7".into(),
            summary: "Sandbag".into(),
        },
    );
    assert!(hud.feed().is_empty());
    assert!(!hud.wants_bag());
    hud.ingest(
        3,
        &Event::ModeChange {
            from: GameMode::Title,
            to: GameMode::HomeRunContest,
        },
    );
    assert!(hud.wants_bag());
    assert_eq!(
        hud.nameplate().cloned(),
        Some(Nameplate {
            key: "DEMO-7".into(),
            summary: "Sandbag".into()
        })
    );
    hud.ingest(
        742,
        &Event::ModeChange {
            from: GameMode::HomeRunContest,
            to: GameMode::Menu,
        },
    );
    assert!(!hud.wants_bag());
}

#[test]
fn a_later_nameplate_replaces_the_first() {
    let mut hud = Hud::default();
    for key in ["DEMO-7", "DEMO-8"] {
        hud.command(
            1,
            Command::Nameplate {
                key: key.into(),
                summary: "Sandbag".into(),
            },
        );
    }
    assert_eq!(hud.nameplate().map(|plate| plate.key.clone()), Some("DEMO-8".into()));
}

#[test]
fn a_notice_becomes_a_feed_row_that_expires_like_the_rest() {
    let mut hud = Hud::default();
    hud.command(
        800,
        Command::Notice {
            text: "DEMO-7  moved to Closed".into(),
        },
    );
    assert_eq!(hud.feed().len(), 1);
    assert_eq!(hud.feed()[0].born, 800);
    assert_eq!(
        hud.feed()[0].kind,
        FeedKind::Notice("DEMO-7  moved to Closed".into())
    );
    hud.expire(800 + FEED_LIFETIME - 1);
    assert_eq!(hud.feed().len(), 1);
    hud.expire(800 + FEED_LIFETIME);
    assert!(hud.feed().is_empty());
}

#[test]
fn mode_is_tracked_without_a_feed_row() {
    let mut hud = Hud::default();
    hud.ingest(
        3,
        &Event::ModeChange {
            from: GameMode::Title,
            to: GameMode::DebugVs,
        },
    );
    hud.ingest(3, &Event::SceneChange { from: 0, to: 1 });
    hud.ingest(
        3,
        &Event::StockLost {
            player: 1,
            stocks: 3,
        },
    );
    assert_eq!(hud.mode(), GameMode::DebugVs);
    assert!(hud.feed().is_empty());
}

#[test]
fn the_feed_never_outgrows_its_capacity() {
    let mut hud = Hud::default();
    for frame in 0..100u64 {
        hud.ingest(frame * 1000, &Event::MatchEnd);
        assert!(hud.feed().len() <= FEED_CAPACITY);
    }
    assert_eq!(hud.feed().len(), FEED_CAPACITY);
}

#[test]
fn a_clock_past_an_hour_keeps_counting_minutes() {
    assert_eq!(match_clock(60 * 60 * 61 + 1), "61:00.01");
}

#[test]
fn a_short_text_is_kept_whole_and_a_zero_limit_keeps_nothing_but_the_mark() {
    assert_eq!(truncated("abc", 3), "abc");
    assert_eq!(truncated("abcd", 3), "ab…");
    assert_eq!(truncated("abc", 0), "…");
}

#[test]
fn the_match_bar_lists_slots_that_scored_or_fell() {
    let mut hud = Hud::default();
    assert!(hud.scorers().is_empty());
    hud.ingest(
        5,
        &Event::Ko {
            killer: 3,
            victim: 1,
        },
    );
    assert_eq!(hud.scorers(), vec![0, 2]);
}

#[test]
fn mode_names_show_in_capitals_with_spaces() {
    assert_eq!(mode_banner(GameMode::HomeRunContest), "HOME RUN CONTEST");
    assert_eq!(mode_banner(GameMode::HundredManVs), "100MAN VS");
    assert_eq!(mode_banner(GameMode::Title), "TITLE");
}

#[test]
fn feed_labels_read_as_the_overlay_writes_them() {
    assert_eq!(player_tag(4), "P4");
    assert_eq!(percent_label(-12), "-12%");
    assert_eq!(percent_label(87), "87%");
    assert_eq!(damage_label(14, 1), "+14%");
    assert_eq!(damage_label(14, 3), "+14%  x3");
}
