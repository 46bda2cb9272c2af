use melee_pc::pad::{Axis, Button, Pad};

#[test]
fn masks_match_the_sdk_header() {
    let expected = [
        (Button::Left, 0x0001),
        (Button::Right, 0x0002),
        (Button::Down, 0x0004),
        (Button::Up, 0x0008),
        (Button::Z, 0x0010),
        (Button::R, 0x0020),
        (Button::L, 0x0040),
        (Button::A, 0x0100),
        (Button::B, 0x0200),
        (Button::X, 0x0400),
        (Button::Y, 0x0800),
        (Button::Start, 0x1000),
    ];
    for (button, mask) in expected {
        assert_eq!(button.mask(), mask, "{}", button.name());
    }
}

#[test]
fn every_button_has_a_unique_mask_and_name() {
    for (i, a) in Button::ALL.iter().enumerate() {
        for b in &Button::ALL[i + 1..] {
            assert_ne!(a.mask(), b.mask());
            assert_ne!(a.name(), b.name());
        }
    }
}

#[test]
fn names_parse_case_insensitively() {
    for button in Button::ALL {
        assert_eq!(Button::from_name(button.name()), Some(button));
        assert_eq!(Button::from_name(&button.name().to_lowercase()), Some(button));
    }
    assert_eq!(Button::from_name("SELECT"), None);
    assert_eq!(Button::from_name(""), None);
}

#[test]
fn byte_layout_matches_padstatus() {
    let pad = Pad {
        buttons: Button::A.mask() | Button::Start.mask(),
        stick: Axis { x: -128, y: 127 },
        cstick: Axis { x: 1, y: -1 },
        left_trigger: 200,
        right_trigger: 7,
        connected: true,
    };
    assert_eq!(
        pad.to_bytes(),
        [0x00, 0x11, 0x80, 0x7F, 0x01, 0xFF, 200, 7, 0, 0, 0, 0, 0, 0, 0, 0]
    );
}

#[test]
fn disconnected_pad_reports_no_controller() {
    let bytes = Pad::neutral(false).to_bytes();
    assert_eq!(bytes[10], 0xFF);
    assert!(!Pad::from_bytes(&bytes).connected);
}

#[test]
fn other_error_codes_read_as_disconnected() {
    let mut bytes = Pad::neutral(true).to_bytes();
    bytes[10] = 0xFE;
    assert!(!Pad::from_bytes(&bytes).connected);
}

#[test]
fn bytes_round_trip() {
    let pad = Pad {
        buttons: 0x1F7F,
        stick: Axis { x: 55, y: -90 },
        cstick: Axis { x: -128, y: 127 },
        left_trigger: 255,
        right_trigger: 1,
        connected: true,
    };
    assert_eq!(Pad::from_bytes(&pad.to_bytes()), pad);
}

#[test]
fn neutral_detection_ignores_connection_state() {
    assert!(Pad::neutral(true).is_neutral());
    assert!(Pad::neutral(false).is_neutral());
    let held = Pad {
        buttons: Button::B.mask(),
        ..Pad::neutral(true)
    };
    assert!(!held.is_neutral());
    assert!(held.pressed(Button::B) && !held.pressed(Button::A));
}

#[test]
fn every_name_round_trips_in_any_case() {
    for button in Button::ALL {
        let mixed: String = button
            .name()
            .chars()
            .enumerate()
            .map(|(i, c)| if i % 2 == 0 { c.to_ascii_lowercase() } else { c })
            .collect();
        assert_eq!(Button::from_name(&mixed), Some(button));
    }
    assert_eq!(Button::from_name("LEFTX"), None);
    assert_eq!(Button::from_name(" A"), None);
}

#[test]
fn every_pad_field_survives_the_record() {
    for connected in [false, true] {
        let pad = Pad {
            buttons: 0xABCD,
            stick: Axis { x: -1, y: 1 },
            cstick: Axis { x: 127, y: -128 },
            left_trigger: 3,
            right_trigger: 254,
            connected,
        };
        let bytes = pad.to_bytes();
        assert_eq!(bytes[0], 0xCD);
        assert_eq!(bytes[1], 0xAB);
        assert_eq!(bytes[10], if connected { 0 } else { 0xFF });
        assert_eq!(Pad::from_bytes(&bytes), pad);
    }
}
