//! Tests for the color model: hex codec round trips, rejection of
//! malformed input, and exact blend arithmetic.

use soze::color::{HtmlColor, RgbColor};
use soze::common::{ApiError, Color};

#[test]
fn common_test_parse_color() {
    assert_eq!(Color::parse("#000000").unwrap(), Color::from(0x000000));
    assert_eq!(Color::parse("#ff1234").unwrap(), Color::from(0xff1234));
    assert_eq!(Color::parse("#FFFFFF").unwrap(), Color::from(0xffffff));

    assert!(Color::parse("#fffff").is_err()); // Too short
    assert!(Color::parse("#fffffff").is_err()); // Too long
    assert!(Color::parse("ffffff").is_err()); // No #
    assert!(Color::parse("@fffffg").is_err()); // Incorrect prefix
    assert!(Color::parse("#fffffg").is_err()); // bad char
}

#[test]
fn common_test_display_color() {
    assert_eq!(Color::from(0x000000).to_html().as_str(), "#000000");
    assert_eq!(Color::from(0xff00ff).to_html().as_str(), "#ff00ff");
    assert_eq!(Color::from(0xffffff).to_html().as_str(), "#ffffff");
}

#[test]
fn color_test_parse_color() {
    assert_eq!(
        HtmlColor::parse("#000000").unwrap(),
        HtmlColor(0x000000.into())
    );
    assert_eq!(
        HtmlColor::parse("#ff1234").unwrap(),
        HtmlColor(0xff1234.into())
    );
    assert_eq!(
        HtmlColor::parse("#FFFFFF").unwrap(),
        HtmlColor(0xffffff.into())
    );

    assert!(HtmlColor::parse("#fffff").is_err()); // Too short
    assert!(HtmlColor::parse("#fffffff").is_err()); // Too long
    assert!(HtmlColor::parse("ffffff").is_err()); // No #
    assert!(HtmlColor::parse("@fffffg").is_err()); // Incorrect prefix
    assert!(HtmlColor::parse("#fffffg").is_err()); // bad char
}

#[test]
fn color_test_display_color() {
    assert_eq!(HtmlColor(0x000000.into()).to_html().as_str(), "#000000");
    assert_eq!(HtmlColor(0xff00ff.into()).to_html().as_str(), "#ff00ff");
    assert_eq!(HtmlColor(0xffffff.into()).to_html().as_str(), "#ffffff");
}

#[test]
fn state_test_parse_color() {
    assert_eq!(
        HtmlColor::parse("#000000").unwrap(),
        HtmlColor(0x000000.into())
    );
    assert_eq!(
        HtmlColor::parse("#ff1234").unwrap(),
        HtmlColor(0xff1234.into())
    );
    assert_eq!(
        HtmlColor::parse("#FFFFFF").unwrap(),
        HtmlColor(0xffffff.into())
    );

    assert!(HtmlColor::parse("#fffff").is_err()); // Too short
    assert!(HtmlColor::parse("#fffffff").is_err()); // Too long
    assert!(HtmlColor::parse("ffffff").is_err()); // No #
    assert!(HtmlColor::parse("@fffffg").is_err()); // Incorrect prefix
    assert!(HtmlColor::parse("#fffffg").is_err()); // bad char
}

#[test]
fn state_test_display_color() {
    assert_eq!(HtmlColor(0x000000.into()).to_html().as_str(), "#000000");
    assert_eq!(HtmlColor(0xff00ff.into()).to_html().as_str(), "#ff00ff");
    assert_eq!(HtmlColor(0xffffff.into()).to_html().as_str(), "#ffffff");
}

#[test]
fn parse_format_round_trip_lowercases() {
    // Mixed-case input comes back lowercased, otherwise unchanged.
    let c = Color::parse("#AbCdEf").unwrap();
    assert_eq!(c.to_html(), "#abcdef");
    let c = Color::parse("#0A9F3c").unwrap();
    assert_eq!(c.to_html(), "#0a9f3c");
}

#[test]
fn parse_error_echoes_input() {
    match Color::parse("#12345") {
        Err(ApiError::Validation { input }) => assert_eq!(input, "#12345"),
        Ok(_) => panic!("malformed color accepted"),
    }
}

#[test]
fn channel_accessors() {
    let c = Color::parse("#ff1234").unwrap();
    assert_eq!(c.red(), 0xff);
    assert_eq!(c.green(), 0x12);
    assert_eq!(c.blue(), 0x34);
    assert_eq!(c.to_bytes(), vec![0xff, 0x12, 0x34]);
    assert_eq!(u32::from(c), 0xff1234);
}

#[test]
fn rgb_u32_round_trip() {
    let c = RgbColor::from(0xa1b2c3);
    assert_eq!(c.red, 0xa1);
    assert_eq!(c.green, 0xb2);
    assert_eq!(c.blue, 0xc3);
    assert_eq!(u32::from(c), 0xa1b2c3);
}

#[test]
fn blend_identity_on_equal_endpoints() {
    let c = Color::parse("#9b3077").unwrap();
    for num in [0u32, 1, 250, 777, 1000] {
        assert_eq!(Color::blend(c, c, num, 1000), c);
    }
}

#[test]
fn blend_boundaries_are_exact() {
    let a = Color::parse("#123456").unwrap();
    let b = Color::parse("#fedcba").unwrap();
    assert_eq!(Color::blend(a, b, 0, 2000), a);
    assert_eq!(Color::blend(a, b, 2000, 2000), b);
}

#[test]
fn blend_midpoint_rounds() {
    let a = Color::parse("#000000").unwrap();
    let b = Color::parse("#ffff01").unwrap();
    let mid = Color::blend(a, b, 1, 2);
    // 255 * 0.5 = 127.5 rounds up to 128; 1 * 0.5 = 0.5 rounds up to 1.
    assert_eq!(mid.to_html(), "#808001");
}
