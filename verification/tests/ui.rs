use melee_pc::ui::{
    GameSide, InputEvent, KeyPress, NavAction, NavKey, Publish, UiEvent, key_tap, scissor_from_pixels,
};

type Side = GameSide<(f32, f32)>;

#[test]
fn nav_is_ignored_until_the_pad_is_captured() {
    let mut game = Side::default();
    game.toggle_visible();
    game.push(InputEvent::Nav(NavAction::Down), true);
    assert!(game.events.is_empty());
}

#[test]
fn capturing_the_pad_opens_the_menu() {
    let mut game = Side::default();
    game.toggle_pad_capture();
    assert!(game.visible && game.pad_captured);
    game.toggle_pad_capture();
    assert!(game.visible && !game.pad_captured);
}

#[test]
fn back_releases_the_pad_and_keeps_the_menu() {
    let mut game = Side::default();
    game.toggle_pad_capture();
    game.push(InputEvent::Nav(NavAction::Back), true);
    assert!(game.visible && !game.pad_captured);
    assert!(game.events.is_empty());
}

#[test]
fn hiding_the_menu_releases_the_pad_and_drops_events() {
    let mut game = Side::default();
    game.toggle_pad_capture();
    game.push(InputEvent::Nav(NavAction::Down), true);
    assert_eq!(game.events.len(), 2);
    game.toggle_visible();
    assert!(!game.visible && !game.pad_captured);
    assert!(game.events.is_empty());
}

#[test]
fn nothing_is_published_while_hidden() {
    let mut game = Side::default();
    assert_eq!(game.publish_action(true), Publish::Nothing);
    assert_eq!(game.publish_action(true), Publish::Nothing);
}

#[test]
fn menu_or_overlays_draw_every_frame() {
    let mut game = Side::default();
    game.toggle_visible();
    assert_eq!(game.publish_action(true), Publish::Draw);
    assert_eq!(game.publish_action(true), Publish::Draw);

    let mut game = Side {
        overlays: true,
        ..Side::default()
    };
    assert_eq!(game.publish_action(true), Publish::Draw);
}

#[test]
fn hiding_clears_the_retained_frame_exactly_once() {
    let mut game = Side {
        overlays: true,
        ..Side::default()
    };
    assert_eq!(game.publish_action(true), Publish::Draw);
    game.overlays = false;
    assert_eq!(game.publish_action(true), Publish::Clear);
    assert_eq!(game.publish_action(true), Publish::Nothing);
    game.overlays = true;
    assert_eq!(game.publish_action(true), Publish::Draw);
}

#[test]
fn an_undrawable_window_clears_like_hiding() {
    let mut game = Side {
        overlays: true,
        ..Side::default()
    };
    assert_eq!(game.publish_action(true), Publish::Draw);
    assert_eq!(game.publish_action(false), Publish::Clear);
    assert_eq!(game.publish_action(false), Publish::Nothing);
    assert_eq!(game.publish_action(true), Publish::Draw);
}

#[test]
fn pointer_events_need_a_visible_menu() {
    let mut game = Side::default();
    game.push(InputEvent::Pointer((1.0, 1.0)), false);
    assert!(game.events.is_empty());
    game.toggle_visible();
    game.push(InputEvent::Pointer((1.0, 1.0)), false);
    assert_eq!(game.events.len(), 1);
}

#[test]
fn nav_codes_map_in_order() {
    let expected = [
        NavAction::Up,
        NavAction::Down,
        NavAction::Left,
        NavAction::Right,
        NavAction::Activate,
        NavAction::Back,
    ];
    for (code, action) in expected.into_iter().enumerate() {
        assert_eq!(NavAction::from_raw(code as u32), Some(action));
    }
    assert_eq!(NavAction::from_raw(6), None);
}

#[test]
fn nav_keys_with_focus() {
    assert_eq!(NavAction::Up.key(true), Some(NavKey::ArrowUp));
    assert_eq!(NavAction::Down.key(true), Some(NavKey::ArrowDown));
    assert_eq!(NavAction::Left.key(true), Some(NavKey::ArrowLeft));
    assert_eq!(NavAction::Right.key(true), Some(NavKey::ArrowRight));
    assert_eq!(NavAction::Activate.key(true), Some(NavKey::Enter));
    assert_eq!(NavAction::Back.key(true), None);
}

#[test]
fn directions_tab_into_the_ui_without_focus() {
    for action in [NavAction::Up, NavAction::Down, NavAction::Left, NavAction::Right] {
        assert_eq!(action.key(false), Some(NavKey::Tab));
    }
    assert_eq!(NavAction::Activate.key(false), Some(NavKey::Enter));
    assert_eq!(NavAction::Back.key(false), None);
}

#[test]
fn key_tap_presses_then_releases() {
    assert_eq!(
        key_tap(NavKey::Enter),
        [
            KeyPress { key: NavKey::Enter, pressed: true },
            KeyPress { key: NavKey::Enter, pressed: false },
        ]
    );
}

#[test]
fn a_captured_pad_queues_the_tap_of_its_key() {
    let mut game = Side::default();
    game.toggle_pad_capture();
    game.push(InputEvent::Nav(NavAction::Activate), false);
    let keys: Vec<KeyPress> = game
        .events
        .iter()
        .filter_map(|event| match event {
            UiEvent::Key(press) => Some(*press),
            UiEvent::Pointer(_) => None,
        })
        .collect();
    assert_eq!(keys, key_tap(NavKey::Enter));
}

#[test]
fn scissor_from_pixel_corners_gives_origin_and_size() {
    assert_eq!(scissor_from_pixels(20, 40, 220, 140), Some([20, 40, 200, 100]));
}

#[test]
fn a_scissor_without_area_is_none() {
    assert_eq!(scissor_from_pixels(10, 10, 10, 20), None);
    assert_eq!(scissor_from_pixels(10, 10, 20, 5), None);
}
