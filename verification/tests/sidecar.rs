use melee_pc::distance::Centimeters;
use melee_pc::error::Error;
use melee_pc::event::{Event, PlayerInfo};
use melee_pc::ids::{Character, GameMode, PlayerKind};
use melee_pc::jira::{Mode, Row, notice, resolve_transition, ticket_from_row};
use melee_pc::plan::{Action, Outcome, Rules, Ticket, plan};
use melee_pc::run::{Run, RunResult};
use melee_pc::scope::{Label, ProjectKey, Scope};

fn roster() -> Event {
    Event::MatchStart {
        players: vec![
            PlayerInfo {
                player: 2,
                kind: PlayerKind::Cpu,
                character: Character::Sandbag,
                stocks: 1,
            },
            PlayerInfo {
                player: 1,
                kind: PlayerKind::Human,
                character: Character::Jigglypuff,
                stocks: 1,
            },
        ],
    }
}

#[test]
fn the_result_names_the_human_batter() {
    let mut run = Run::default();
    assert_eq!(run.observe(&roster()), None);
    assert_eq!(
        run.observe(&Event::HomeRunResult {
            distance: Centimeters(4720)
        }),
        Some(RunResult {
            batter: Character::Jigglypuff,
            distance: Centimeters(4720)
        })
    );
}

#[test]
fn nothing_else_is_a_result() {
    let mut run = Run::default();
    let noise = [
        Event::ModeChange {
            from: GameMode::Title,
            to: GameMode::HomeRunContest,
        },
        Event::SceneChange { from: 0, to: 1 },
        Event::Damage {
            player: 2,
            from: 0,
            to: 28,
        },
        Event::MatchEnd,
    ];
    for event in &noise {
        assert_eq!(run.observe(event), None, "{event:?}");
    }
}

#[test]
fn a_result_with_no_roster_has_an_unknown_batter() {
    let result = Run::default().observe(&Event::HomeRunResult {
        distance: Centimeters(0),
    });
    assert_eq!(
        result,
        Some(RunResult {
            batter: Character::Unknown,
            distance: Centimeters(0)
        })
    );
}

#[test]
fn a_retry_replaces_the_batter() {
    let mut run = Run::default();
    run.observe(&roster());
    run.observe(&Event::MatchStart {
        players: vec![PlayerInfo {
            player: 1,
            kind: PlayerKind::Human,
            character: Character::Ganondorf,
            stocks: 1,
        }],
    });
    let result = run.observe(&Event::HomeRunResult {
        distance: Centimeters(100),
    });
    assert_eq!(result.map(|r| r.batter), Some(Character::Ganondorf));
}

#[test]
fn a_roster_without_a_human_forgets_the_batter() {
    let mut run = Run::default();
    run.observe(&roster());
    run.observe(&Event::MatchStart { players: Vec::new() });
    let result = run.observe(&Event::HomeRunResult {
        distance: Centimeters(5),
    });
    assert_eq!(result.map(|r| r.batter), Some(Character::Unknown));
}

#[test]
fn project_keys_are_uppercase_identifiers() {
    assert!("DEMO".parse::<ProjectKey>().is_ok());
    assert!("A1_B".parse::<ProjectKey>().is_ok());
    for bad in ["", "D", "demo", "1DEMO", "DE MO", "DEMO\"", "DEMO OR project = INFERENG"] {
        assert!(bad.parse::<ProjectKey>().is_err(), "{bad:?}");
    }
}

#[test]
fn labels_cannot_carry_jql() {
    assert!("melee-demo".parse::<Label>().is_ok());
    assert!("melee_demo.v2".parse::<Label>().is_ok());
    for bad in ["", "melee demo", "x\" OR labels = \"llm-d", "a,b", "a)"] {
        assert!(bad.parse::<Label>().is_err(), "{bad:?}");
    }
}

#[test]
fn the_query_is_pinned_to_one_project_one_label_and_open_tickets() {
    let scope = Scope {
        project: "DEMO".parse().unwrap(),
        label: "melee-demo".parse().unwrap(),
    };
    assert_eq!(
        scope.jql(),
        r#"project = "DEMO" AND labels = "melee-demo" AND statusCategory != Done ORDER BY created ASC"#
    );
}

#[test]
fn a_refused_key_or_label_says_why() {
    assert_eq!(
        ProjectKey::parse("demo").unwrap_err(),
        "\"demo\" is not a Jira project key like DEMO"
    );
    assert_eq!(
        Label::parse("a b").unwrap_err(),
        "\"a b\" is not a usable label: letters, digits, '-', '_' and '.' only"
    );
    assert_eq!(ProjectKey::parse("DEMO").unwrap().as_str(), "DEMO");
}

fn label() -> Label {
    "melee-demo".parse().unwrap()
}

#[test]
fn a_search_row_becomes_a_ticket() {
    let row = Row {
        key: "DEMO-7".to_owned(),
        summary: "Sandbag".to_owned(),
        labels: vec!["other".to_owned(), "melee-demo".to_owned()],
    };
    let ticket = ticket_from_row(row, &label()).unwrap();
    assert_eq!(ticket.key, "DEMO-7");
    assert_eq!(ticket.summary, "Sandbag");
    assert_eq!(ticket.labels, ["other", "melee-demo"]);
}

#[test]
fn a_row_without_the_label_is_refused() {
    for labels in [
        vec!["llm-d".to_owned()],
        vec![],
        vec!["melee-demo-2".to_owned(), "MELEE-DEMO".to_owned()],
    ] {
        let row = Row {
            key: "INFERENG-1".to_owned(),
            summary: "Real work".to_owned(),
            labels,
        };
        match ticket_from_row(row, &label()) {
            Err(Error::LabelMissing { key, label }) => {
                assert_eq!(key, "INFERENG-1");
                assert_eq!(label, "melee-demo");
            }
            other => panic!("expected LabelMissing, got {other:?}"),
        }
    }
}

#[test]
fn a_notice_says_what_happened_or_what_would_have() {
    let comment = Action::Comment {
        key: "DEMO-7".to_owned(),
        body: "long text the HUD has no room for".to_owned(),
    };
    let close = Action::Transition {
        key: "DEMO-7".to_owned(),
        to: "Closed".to_owned(),
    };
    assert_eq!(notice(&comment, Mode::Live), "DEMO-7  comment posted");
    assert_eq!(notice(&close, Mode::Live), "DEMO-7  moved to Closed");
    assert_eq!(notice(&comment, Mode::DryRun), "DRY RUN  would comment on DEMO-7");
    assert_eq!(notice(&close, Mode::DryRun), "DRY RUN  would move DEMO-7 to Closed");
}

fn transitions() -> Vec<(String, String)> {
    vec![
        ("11".to_owned(), "In Progress".to_owned()),
        ("31".to_owned(), "Done".to_owned()),
    ]
}

#[test]
fn a_transition_is_found_by_name_ignoring_case() {
    let available = transitions();
    assert_eq!(resolve_transition("DEMO-7", &available, "Done").unwrap(), "31");
    assert_eq!(resolve_transition("DEMO-7", &available, " done ").unwrap(), "31");
    assert_eq!(resolve_transition("DEMO-7", &available, "in progress").unwrap(), "11");
}

#[test]
fn a_missing_transition_lists_what_is_available() {
    let available = transitions();
    let error = resolve_transition("DEMO-7", &available, "Closed").unwrap_err();
    assert_eq!(
        error.message(),
        "DEMO-7 has no transition named Closed; available: In Progress, Done"
    );
}

#[test]
fn every_error_has_its_message() {
    assert_eq!(Error::Jira("down".to_owned()).message(), "jira: down");
    assert_eq!(
        Error::BadRow("missing field `key`".to_owned()).message(),
        "jira returned a search row this cannot read: missing field `key`"
    );
    assert_eq!(
        Error::NoTicket { jql: "q".to_owned() }.message(),
        "no open ticket matches: q"
    );
    assert_eq!(
        Error::LabelMissing {
            key: "X-1".to_owned(),
            label: "l".to_owned()
        }
        .message(),
        "X-1 does not carry the label l, refusing to touch it"
    );
    assert_eq!(
        Error::NoTransition {
            key: "X-1".to_owned(),
            wanted: "Done".to_owned(),
            available: Vec::new()
        }
        .message(),
        "X-1 has no transition named Done; available: "
    );
    assert_eq!(
        Error::StreamClosed.message(),
        "the game disconnected before a home run result"
    );
    let io = Error::from(std::io::Error::other("boom"));
    assert_eq!(io.message(), "io: boom");
}

fn ticket() -> Ticket {
    Ticket {
        key: "DEMO-7".to_owned(),
        summary: "Sandbag".to_owned(),
        labels: vec!["melee-demo".to_owned()],
    }
}

fn rules() -> Rules {
    Rules {
        close_at: Centimeters(3048),
        done_status: "Done".to_owned(),
    }
}

fn rest(distance: i32) -> RunResult {
    RunResult {
        batter: Character::Jigglypuff,
        distance: Centimeters(distance),
    }
}

fn meters(cm: Centimeters) -> String {
    format!("{:.1}", f64::from(cm.0) / 100.0)
}

fn plan_for(result: &RunResult, rules: &Rules) -> Vec<Action> {
    plan(&ticket(), result, rules, &meters(result.distance), &meters(rules.close_at))
}

#[test]
fn the_threshold_itself_is_a_home_run() {
    assert_eq!(Outcome::of(&rest(3048), &rules()), Outcome::HomeRun);
    assert_eq!(Outcome::of(&rest(3047), &rules()), Outcome::Bunt);
    assert_eq!(Outcome::of(&rest(0), &rules()), Outcome::Bunt);
}

#[test]
fn a_home_run_comments_then_closes() {
    assert_eq!(
        plan_for(&rest(4720), &rules()),
        [
            Action::Comment {
                key: "DEMO-7".to_owned(),
                body: "Closed by a 154.8 ft (47.2 m) home run from Jigglypuff in Home Run Contest. Posted by melee-sidecar.".to_owned(),
            },
            Action::Transition {
                key: "DEMO-7".to_owned(),
                to: "Done".to_owned(),
            },
        ]
    );
}

#[test]
fn a_bunt_only_comments() {
    assert_eq!(
        plan_for(&rest(375), &rules()),
        [Action::Comment {
            key: "DEMO-7".to_owned(),
            body: "Jigglypuff only sent this 12.3 ft (3.8 m), short of the 100.0 ft (30.5 m) needed to close it. Needs more info. Posted by melee-sidecar.".to_owned(),
        }]
    );
}

#[test]
fn the_done_status_is_configurable() {
    let rules = Rules {
        close_at: Centimeters(3048),
        done_status: "Closed".to_owned(),
    };
    let actions = plan_for(&rest(4720), &rules);
    assert_eq!(
        actions.last(),
        Some(&Action::Transition {
            key: "DEMO-7".to_owned(),
            to: "Closed".to_owned()
        })
    );
}

#[test]
fn actions_print_as_the_call_they_stand_for() {
    let actions = plan_for(&rest(4720), &rules());
    assert!(actions[0]
        .describe()
        .starts_with("comment on DEMO-7: Closed by a 154.8 ft"));
    assert_eq!(actions[1].describe(), "transition DEMO-7 to Done");
}
