use driftwm::config::outputs::{
    parse_output_mode, parse_output_position, parse_transform, OutputMode, OutputPosition,
    PositionValue, Transform,
};

#[test]
fn parse_transform_all_variants() {
    let cases = [
        ("normal", Transform::Normal),
        ("90", Transform::Rotated90),
        ("180", Transform::Rotated180),
        ("270", Transform::Rotated270),
        ("flipped", Transform::Flipped),
        ("flipped-90", Transform::Flipped90),
        ("flipped-180", Transform::Flipped180),
        ("flipped-270", Transform::Flipped270),
    ];
    for (input, expected) in cases {
        assert_eq!(parse_transform(input).unwrap(), expected, "input: {input}");
    }
}

#[test]
fn parse_transform_invalid() {
    assert!(parse_transform("upside-down").is_err());
    assert!(parse_transform("").is_err());
}

#[test]
fn parse_mode_preferred() {
    assert_eq!(
        parse_output_mode("preferred").unwrap(),
        OutputMode::Preferred
    );
}

#[test]
fn parse_mode_size() {
    assert_eq!(
        parse_output_mode("1920x1080").unwrap(),
        OutputMode::Size(1920, 1080)
    );
}

#[test]
fn parse_mode_size_refresh() {
    assert_eq!(
        parse_output_mode("2560x1440@144").unwrap(),
        OutputMode::SizeRefresh(2560, 1440, 144)
    );
}

#[test]
fn parse_mode_invalid() {
    assert!(parse_output_mode("big").is_err());
    assert!(parse_output_mode("1920").is_err());
    assert!(parse_output_mode("1920x1080@fast").is_err());
}

#[test]
fn parse_position_auto() {
    let val = PositionValue::Text("auto".into());
    assert_eq!(parse_output_position(&val).unwrap(), OutputPosition::Auto);
}

#[test]
fn parse_position_fixed() {
    let val = PositionValue::Array(vec![Some(100), Some(-200)]);
    assert_eq!(
        parse_output_position(&val).unwrap(),
        OutputPosition::Fixed(100, -200)
    );
}

#[test]
fn parse_position_invalid_string() {
    let val = PositionValue::Text("left".into());
    assert!(parse_output_position(&val).is_err());
}

#[test]
fn parse_position_wrong_array_length() {
    let val = PositionValue::Array(vec![Some(1)]);
    assert!(parse_output_position(&val).is_err());
}

#[test]
fn position_integers_keep_their_low_bits() {
    let val = PositionValue::Array(vec![Some(0x1_0000_0005), Some(-0x8000_0001)]);
    assert_eq!(
        parse_output_position(&val).unwrap(),
        OutputPosition::Fixed(5, i32::MAX)
    );
}

#[test]
fn written_modes_read_back() {
    for (w, h) in [(0, 0), (1, 1), (3840, 2160), (i32::MAX, i32::MIN)] {
        assert_eq!(parse_output_mode(&format!("{w}x{h}")).unwrap(), OutputMode::Size(w, h));
        assert_eq!(
            parse_output_mode(&format!("{w}x{h}@60")).unwrap(),
            OutputMode::SizeRefresh(w, h, 60)
        );
    }
}

#[test]
fn a_mode_needs_an_x_before_the_rate() {
    assert!(parse_output_mode("1920@60x").is_err());
    assert!(parse_output_mode("").is_err());
    assert!(parse_output_mode("preferred ").is_err());
    assert_eq!(parse_output_mode("preferred").unwrap(), OutputMode::Preferred);
}
