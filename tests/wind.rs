use weather::get_wind_bearing_icon;

#[test]
fn wind_bearing() {
    let arrows = vec![
        "\u{2197}", // (↗) north-east
        "\u{2192}", // (→) east
        "\u{2198}", // (↘) south-east
        "\u{2193}", // (↓) south
        "\u{2199}", // (↙) south-west
        "\u{2190}", // (←) west
        "\u{2196}", // (↖) north-west
        "\u{2191}", // (↑) north
    ];

    for bearing in 0..360 {
        let expected = match (bearing + 180) % 360 {
            23..=67 => arrows[0],
            68..=112 => arrows[1],
            113..=157 => arrows[2],
            158..=202 => arrows[3],
            203..=247 => arrows[4],
            248..=292 => arrows[5],
            293..=337 => arrows[6],
            338..=360 | 0..=22 => arrows[7],
            _ => unreachable!(),
        };

        let actual = get_wind_bearing_icon(bearing);

        println!("{:?}, {:?}, {:?}", bearing, expected, actual);
        assert_eq!(expected, actual);
    }
}

#[test]
fn wind_bearing_wraps_past_a_full_turn() {
    assert_eq!(get_wind_bearing_icon(360), get_wind_bearing_icon(0));
    assert_eq!(get_wind_bearing_icon(u32::MAX), get_wind_bearing_icon(u32::MAX % 360));
    assert_eq!(get_wind_bearing_icon(158), "\u{2191}");
    assert_eq!(get_wind_bearing_icon(202), "\u{2191}");
    assert_eq!(get_wind_bearing_icon(203), "\u{2197}");
}
