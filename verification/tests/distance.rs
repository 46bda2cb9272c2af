use melee_pc::distance::Centimeters;

#[test]
fn feet_are_truncated_the_way_the_game_shows_them() {
    assert_eq!(Centimeters(4720).feet_as_displayed(), "154.8");
    assert_eq!(Centimeters(0).feet_as_displayed(), "0.0");
    assert_eq!(Centimeters(3048).feet_as_displayed(), "100.0");
    assert_eq!(Centimeters(3047).feet_as_displayed(), "99.9");
}

/// The integer computation gives the text the game's float printout gives.
#[test]
fn integer_feet_agree_with_the_float_printout() {
    for cm in (-200_000..200_000).chain([i32::MIN, i32::MIN + 1, i32::MAX - 1, i32::MAX]) {
        let tenths = (cm as f64 / 30.48 * 10.0).floor() as i64;
        let expected = format!("{}.{}", tenths / 10, tenths % 10);
        assert_eq!(Centimeters(cm).feet_as_displayed(), expected, "{cm}");
    }
}

#[test]
fn negative_distances_keep_their_sign() {
    assert_eq!(Centimeters(-3048).feet_as_displayed(), "-100.0");
    assert_eq!(Centimeters(-1).feet_as_displayed(), "0.-1");
    assert_eq!(Centimeters(i32::MIN).feet_as_displayed(), "-70455500.-3");
}
