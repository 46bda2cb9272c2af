use melee_pc::movie::Movie;
use melee_pc::pad::{Axis, Button, Pad};
use melee_pc::script::{self, ErrorKind, ScriptError, parse};

fn error(text: &str) -> ScriptError {
    parse(text).expect_err("script should be rejected")
}

#[test]
fn empty_script_is_an_empty_movie_with_default_seed() {
    assert_eq!(
        parse(""),
        Ok(Movie {
            seed: 1,
            frames: Vec::new()
        })
    );
    assert_eq!(
        parse("\n  # only a comment\n\n"),
        Ok(Movie {
            seed: 1,
            frames: Vec::new()
        })
    );
}

#[test]
fn seed_accepts_hex_and_decimal() {
    assert_eq!(parse("seed 0x2A").map(|m| m.seed), Ok(42));
    assert_eq!(parse("seed 42").map(|m| m.seed), Ok(42));
    assert_eq!(parse("SEED 0XFFFFFFFF").map(|m| m.seed), Ok(u32::MAX));
}

#[test]
fn wait_emits_neutral_frames_with_only_port_one_connected() {
    let movie = parse("wait 3").expect("valid script");
    assert_eq!(movie.frames.len(), 3);
    for frame in &movie.frames {
        assert_eq!(frame[0], Pad::neutral(true));
        assert_eq!(frame[1..], [Pad::neutral(false); 3]);
    }
}

#[test]
fn buttons_axes_and_triggers() {
    let movie = parse("p1 A start stick -128,127 cstick 5,-5 lt 255 rt 1").expect("valid script");
    assert_eq!(
        movie.frames,
        vec![[
            Pad {
                buttons: Button::A.mask() | Button::Start.mask(),
                stick: Axis { x: -128, y: 127 },
                cstick: Axis { x: 5, y: -5 },
                left_trigger: 255,
                right_trigger: 1,
                connected: true,
            },
            Pad::neutral(false),
            Pad::neutral(false),
            Pad::neutral(false),
        ]]
    );
}

#[test]
fn repeat_suffix_holds_the_frame() {
    let movie = parse("p1 B x4\np1 A").expect("valid script");
    assert_eq!(movie.frames.len(), 5);
    assert!(movie.frames[..4].iter().all(|f| f[0].buttons == Button::B.mask()));
    assert_eq!(movie.frames[4][0].buttons, Button::A.mask());
}

#[test]
fn x_button_is_not_mistaken_for_a_repeat() {
    let movie = parse("p1 A X").expect("valid script");
    assert_eq!(movie.frames.len(), 1);
    assert_eq!(movie.frames[0][0].buttons, Button::A.mask() | Button::X.mask());
    assert_eq!(parse("p1 X x2").map(|m| m.frames.len()), Ok(2));
}

#[test]
fn ports_directive_connects_pads_and_allows_clauses() {
    let movie = parse("ports 1 3\nwait 1\np1 A | p3 B x2").expect("valid script");
    assert_eq!(movie.frames.len(), 3);
    let connected: Vec<bool> = movie.frames[0].iter().map(|pad| pad.connected).collect();
    assert_eq!(connected, [true, false, true, false]);
    assert_eq!(movie.frames[2][0].buttons, Button::A.mask());
    assert_eq!(movie.frames[2][2].buttons, Button::B.mask());
}

#[test]
fn comments_and_blank_lines_are_skipped() {
    let movie = parse("# intro\n\nwait 2 # settle\n  p1 START   # go\n").expect("valid script");
    assert_eq!(movie.frames.len(), 3);
    assert_eq!(movie.frames[2][0].buttons, Button::Start.mask());
}

#[test]
fn errors_carry_the_line_number() {
    assert_eq!(
        error("wait 1\n\np1 JUMP"),
        ScriptError {
            line: 3,
            kind: ErrorKind::UnknownToken("JUMP".into())
        }
    );
}

#[test]
fn every_error_kind() {
    assert_eq!(error("seed banana").kind, ErrorKind::BadNumber("banana".into()));
    assert_eq!(error("wait -1").kind, ErrorKind::BadNumber("-1".into()));
    assert_eq!(error("p5 A").kind, ErrorKind::BadPort("p5".into()));
    assert_eq!(error("p0 A").kind, ErrorKind::BadPort("p0".into()));
    assert_eq!(error("ports 1 9").kind, ErrorKind::BadPort("9".into()));
    assert_eq!(error("q1 A").kind, ErrorKind::BadPort("q1".into()));
    assert_eq!(error("p2 A").kind, ErrorKind::PortNotDeclared(2));
    assert_eq!(error("p1 A | p1 B").kind, ErrorKind::DuplicatePort(1));
    assert_eq!(error("p1 stick").kind, ErrorKind::MissingValue("stick"));
    assert_eq!(error("p1 lt").kind, ErrorKind::MissingValue("lt"));
    assert_eq!(error("p1 stick 200,0").kind, ErrorKind::BadAxis("200,0".into()));
    assert_eq!(error("p1 stick 10").kind, ErrorKind::BadAxis("10".into()));
    assert_eq!(error("p1 rt 256").kind, ErrorKind::BadNumber("256".into()));
    assert_eq!(error("p1 A x0").kind, ErrorKind::ZeroRepeat);
    assert_eq!(error("p1 A |").kind, ErrorKind::EmptyClause);
    assert_eq!(error("wait 1\nseed 3").kind, ErrorKind::DirectiveAfterFrames("seed"));
    assert_eq!(error("p1 A\nports 1 2").kind, ErrorKind::DirectiveAfterFrames("ports"));
}

#[test]
fn error_messages_name_the_line_and_problem() {
    assert_eq!(error("p2 A").message(), "line 1: p2 is used but not listed in 'ports'");
    assert_eq!(
        error("\np1 stick 1;2").message(),
        "line 2: '1;2' is not an axis, expected X,Y in -128..=127"
    );
}

#[test]
fn format_run_length_encodes() {
    let text = "seed 0x0000002a\nports 1 2\nwait 120\np1 START\nwait 30\np1 A stick 127,0 | p2 B x10\n";
    let movie = parse(text).expect("valid script");
    assert_eq!(movie.frames.len(), 161);
    assert_eq!(script::format(&movie), text);
}

#[test]
fn format_of_an_empty_movie() {
    assert_eq!(
        script::format(&Movie {
            seed: 1,
            frames: Vec::new()
        }),
        "seed 0x00000001\nports 1\n"
    );
}

#[test]
fn script_survives_the_binary_round_trip() {
    let text = "seed 0xdeadbeef\nports 1 4\nwait 5\np1 A B X Y Z L R START UP DOWN LEFT RIGHT x3\np4 cstick -128,127 lt 9 rt 8\n";
    let movie = parse(text).expect("valid script");
    let reread = Movie::from_bytes(&movie.to_bytes()).expect("valid movie");
    assert_eq!(reread, movie);
    assert_eq!(script::format(&reread), text);
}

#[test]
fn format_ignores_inputs_on_disconnected_ports() {
    let mut movie = parse("wait 2").expect("valid script");
    movie.frames[1][2].buttons = Button::A.mask();
    assert_eq!(script::format(&movie), "seed 0x00000001\nports 1\nwait 2\n");
}

#[test]
fn every_error_message_reads_as_documented() {
    let cases = [
        ("seed banana", "line 1: 'banana' is not a valid number"),
        ("p5 A", "line 1: 'p5' is not a port, expected p1 to p4"),
        ("p1 A | p1 B", "line 1: p1 appears twice"),
        ("p1 JUMP", "line 1: unknown input 'JUMP'"),
        ("p1 cstick", "line 1: 'cstick' needs a value"),
        ("p1 A x0", "line 1: repeat count must be at least 1"),
        ("wait 1\nports 1", "line 2: 'ports' must come before the first frame"),
        ("p1 A |", "line 1: port clause has no port"),
    ];
    for (text, message) in cases {
        assert_eq!(error(text).message(), message, "{text:?}");
    }
}

#[test]
fn repeat_counts_and_waits_accept_large_values() {
    assert_eq!(parse("p1 A X7").map(|m| m.frames.len()), Ok(7));
    assert_eq!(
        error("p1 A x99999999999999999999999").kind,
        ErrorKind::BadNumber("x99999999999999999999999".into())
    );
    assert_eq!(parse("wait 0x10").map(|m| m.frames.len()), Ok(16));
    assert_eq!(parse("WAIT 0").map(|m| m.frames.len()), Ok(0));
}

#[test]
fn clauses_ignore_case_and_extra_space() {
    let movie = parse("  P1   a   STICK 1,2   ").expect("valid script");
    assert_eq!(movie.frames[0][0].buttons, Button::A.mask());
    assert_eq!(movie.frames[0][0].stick, Axis { x: 1, y: 2 });
}

#[test]
fn format_splits_runs_at_every_change() {
    let text = "seed 0x00000001\nports 1\np1 A x2\np1 B\np1 A\nwait 1\n";
    let movie = parse(text).expect("valid script");
    assert_eq!(script::format(&movie), text);
}

#[test]
fn a_written_movie_reads_back_as_itself() {
    let held = Pad {
        buttons: Button::X.mask() | Button::Up.mask(),
        stick: Axis { x: -3, y: 64 },
        cstick: Axis { x: 0, y: 0 },
        left_trigger: 0,
        right_trigger: 200,
        connected: true,
    };
    let idle = [Pad::neutral(true), Pad::neutral(false), Pad::neutral(true), Pad::neutral(false)];
    let busy = [held, Pad::neutral(false), Pad { buttons: Button::B.mask(), ..Pad::neutral(true) }, Pad::neutral(false)];
    let movie = Movie {
        seed: 0x0badf00d,
        frames: vec![idle, idle, idle, busy, busy, idle, busy],
    };
    let text = script::format(&movie);
    assert_eq!(
        text,
        "seed 0x0badf00d\nports 1 3\nwait 3\np1 X UP stick -3,64 rt 200 | p3 B x2\nwait 1\np1 X UP stick -3,64 rt 200 | p3 B\n"
    );
    assert_eq!(parse(&text).expect("valid script"), movie);
}
