use gamepad_overlay::color::{Color, ColorError};
use gamepad_overlay::config::{default_active, default_fill};

#[test]
fn parses_six_digit_form() {
    assert_eq!(Color::parse("#12ab9F"), Ok(Color::new(0x12, 0xab, 0x9f, 0xff)));
}

#[test]
fn parses_eight_digit_form() {
    assert_eq!(Color::parse("#12345678"), Ok(Color::new(0x12, 0x34, 0x56, 0x78)));
}

#[test]
fn short_forms_repeat_each_digit() {
    assert_eq!(Color::parse("#abc"), Ok(Color::new(0xaa, 0xbb, 0xcc, 0xff)));
    assert_eq!(Color::parse("#f08c"), Ok(Color::new(0xff, 0x00, 0x88, 0xcc)));
    assert_eq!(Color::parse("#fff"), Ok(Color::new(255, 255, 255, 255)));
}

#[test]
fn missing_hash_is_rejected() {
    assert_eq!(Color::parse("123456"), Err(ColorError::MissingHash));
    assert_eq!(Color::parse(""), Err(ColorError::MissingHash));
}

#[test]
fn bad_length_or_digit_is_rejected() {
    assert_eq!(Color::parse("#12345"), Err(ColorError::InvalidHex));
    assert_eq!(Color::parse("#"), Err(ColorError::InvalidHex));
    assert_eq!(Color::parse("#12345g"), Err(ColorError::InvalidHex));
    assert_eq!(Color::parse("#+ab"), Err(ColorError::InvalidHex));
}

#[test]
fn hex_text_of_opaque_and_translucent_colors() {
    assert_eq!(Color::new(0x12, 0xab, 0x00, 0xff).to_hex(), "#12ab00");
    assert_eq!(Color::new(0x12, 0xab, 0x00, 0x7f).to_hex(), "#12ab007f");
}

#[test]
fn hex_text_reads_back() {
    for c in [
        Color::new(0, 0, 0, 255),
        Color::new(255, 254, 1, 0),
        Color::new(34, 59, 224, 200),
        Color::new(127, 127, 127, 127),
    ] {
        assert_eq!(Color::parse(&c.to_hex()), Ok(c));
    }
}

#[test]
fn packed_constructors() {
    assert_eq!(Color::from_rgb(0x123456), Color::new(0x12, 0x34, 0x56, 0xff));
    assert_eq!(Color::from_rgba(0x12345678), Color::new(0x12, 0x34, 0x56, 0x78));
    assert_eq!(Color::from_rgb_packed(0x1f0), Color::new(0x11, 0xff, 0x00, 0xff));
    assert_eq!(Color::from_rgba_packed(0x1f08), Color::new(0x11, 0xff, 0x00, 0x88));
}

#[test]
fn default_colors() {
    assert_eq!(Color::default(), Color::new(0, 0, 0, 255));
    assert_eq!(default_fill(), Color::new(127, 127, 127, 127));
    assert_eq!(default_active(), Color::new(34, 59, 224, 200));
}
