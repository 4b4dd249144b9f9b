use weather::color::{CloudColors, Color, ColorError};

const TEST_COLOR: Color = Color {
    red: 0x55,
    green: 0xaa,
    blue: 0xff,
    alpha: 0,
};
const TEST_COLOR_STR: &'static str = "#55aaff00";
const TEST_COLOR_U32: u32 = 0x55_aa_ff_00;

#[test]
fn test_color_hex() {
    assert_eq!(TEST_COLOR_STR, TEST_COLOR.hex());
}

#[test]
fn test_color_rgb() {
    assert_eq!("rgba(85, 170, 255, 0)", TEST_COLOR.rgba());
}

#[test]
fn test_color_from_str() {
    assert_eq!(TEST_COLOR_STR.parse::<Color>().unwrap(), TEST_COLOR);
}

#[test]
fn test_color_from_u32() {
    assert_eq!(TEST_COLOR, Color::from(TEST_COLOR_U32));
}

#[test]
fn parse_accepts_uppercase_digits() {
    assert_eq!(Color::parse("#55AAFF00"), Ok(TEST_COLOR));
}

#[test]
fn parse_rejects_wrong_length() {
    assert_eq!(Color::parse("#55aaff0"), Err(ColorError::WrongLength));
    assert_eq!(Color::parse("#55aaff000"), Err(ColorError::WrongLength));
    assert_eq!(Color::parse(""), Err(ColorError::WrongLength));
}

#[test]
fn parse_rejects_missing_hash() {
    assert_eq!(Color::parse("055aaff00"), Err(ColorError::MissingHash));
}

#[test]
fn parse_rejects_non_hex_digit() {
    assert_eq!(Color::parse("#55aafg00"), Err(ColorError::InvalidDigit));
    assert_eq!(Color::parse("#+5aaff00"), Err(ColorError::InvalidDigit));
}

#[test]
fn hex_round_trips_through_parse() {
    for c in [
        TEST_COLOR,
        Color { red: 0, green: 0, blue: 0, alpha: 0 },
        Color { red: 255, green: 255, blue: 255, alpha: 255 },
        Color { red: 1, green: 16, blue: 171, alpha: 9 },
    ] {
        assert_eq!(Color::parse(&c.hex()), Ok(c));
    }
}

#[test]
fn hex_pads_and_lowercases() {
    let c = Color { red: 1, green: 0xab, blue: 0, alpha: 0xf };
    assert_eq!(c.hex(), "#01ab000f");
    assert_eq!(c.rgba(), "rgba(1, 171, 0, 15)");
}

#[test]
fn cloud_colors_unpack_their_codes() {
    assert_eq!(
        CloudColors::Clear.color(),
        Color { red: 0, green: 0xee, blue: 0xee, alpha: 0xf5 }
    );
    assert_eq!(
        CloudColors::PartlyCloudy.color(),
        Color { red: 0, green: 0x0d, blue: 0x5a, alpha: 0xe2 }
    );
    assert_eq!(CloudColors::Overcast.color().hex(), "#00b6bfcb");
}

#[test]
fn from_str_follows_parse() {
    assert_eq!("#55aaff0".parse::<Color>(), Err(ColorError::WrongLength));
    assert_eq!("x55aaff00".parse::<Color>(), Err(ColorError::MissingHash));
    assert_eq!("#55aaff0z".parse::<Color>(), Err(ColorError::InvalidDigit));
    let c = Color { red: 7, green: 0xc0, blue: 0xff, alpha: 0x10 };
    assert_eq!(c.hex().parse::<Color>(), Ok(c));
}
