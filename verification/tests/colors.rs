use graphview::color::{parse_color, palette_color, Color};

#[test]
fn hex_color_parses_exactly() {
    let c = parse_color("#1f77b4");
    assert_eq!((c.r, c.g, c.b, c.a), (0x1f, 0x77, 0xb4, 1000));
}

#[test]
fn hex_color_bad_digit_defaults_that_channel() {
    let c = parse_color("#zz77b4");
    assert_eq!((c.r, c.g, c.b), (128, 0x77, 0xb4));
}

#[test]
fn hex_color_wrong_length_is_gray() {
    let c = parse_color("#fff");
    assert_eq!((c.r, c.g, c.b, c.a), (128, 128, 128, 1000));
}

#[test]
fn rgb_color_parses_with_spaces() {
    let c = parse_color("rgb(255, 0, 64)");
    assert_eq!((c.r, c.g, c.b, c.a), (255, 0, 64, 1000));
}

#[test]
fn rgba_color_parses_fractional_alpha() {
    let c = parse_color("rgba(10, 20, 30, 0.5)");
    assert_eq!((c.r, c.g, c.b, c.a), (10, 20, 30, 500));
}

#[test]
fn rgba_alpha_forms() {
    assert_eq!(parse_color("rgba(1, 2, 3, 1)").a, 1000);
    assert_eq!(parse_color("rgba(1, 2, 3, 1.0)").a, 1000);
    assert_eq!(parse_color("rgba(1, 2, 3, .25)").a, 250);
    assert_eq!(parse_color("rgba(1, 2, 3, 0.125)").a, 125);
    assert_eq!(parse_color("rgba(1, 2, 3, 2.5)").a, 1000);
    assert_eq!(parse_color("rgba(1, 2, 3, oops)").a, 1000);
}

#[test]
fn rgb_overflowing_channel_defaults() {
    let c = parse_color("rgb(300, 12, 12)");
    assert_eq!((c.r, c.g, c.b), (128, 12, 12));
}

#[test]
fn rgb_missing_pieces_default() {
    let c = parse_color("rgb(40)");
    assert_eq!((c.r, c.g, c.b, c.a), (40, 128, 128, 1000));
}

#[test]
fn unknown_color_is_gray() {
    let c = parse_color("cornflowerblue");
    assert_eq!((c.r, c.g, c.b, c.a), (128, 128, 128, 1000));
}

#[test]
fn palette_wraps_by_ten() {
    assert_eq!(palette_color(0), "#1f77b4");
    assert_eq!(palette_color(3), "#d62728");
    assert_eq!(palette_color(13), "#d62728");
    assert_eq!(palette_color(9), "#17becf");
}

#[test]
fn lighten_moves_toward_white() {
    let c = Color::rgb(100, 200, 0).lighten(400);
    assert_eq!((c.r, c.g, c.b), (162, 222, 102));
}

#[test]
fn darken_scales_toward_black() {
    let c = Color::rgb(100, 200, 50).darken(200);
    assert_eq!((c.r, c.g, c.b), (80, 160, 40));
}

#[test]
fn lerp_blends_half_way() {
    let a = Color::rgba(0, 100, 200, 0);
    let b = Color::rgba(100, 200, 0, 1000);
    let c = a.lerp(b, 500);
    assert_eq!((c.r, c.g, c.b, c.a), (50, 150, 100, 500));
}

#[test]
fn with_alpha_clamps() {
    assert_eq!(Color::rgb(1, 2, 3).with_alpha(1500).a, 1000);
    assert_eq!(Color::rgb(1, 2, 3).with_alpha(-5).a, 0);
}
