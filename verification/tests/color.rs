use wayland_overlay::color::{parse_color, Rgba};
use wayland_overlay::draw::Renderer;

fn rgba(r: u8, g: u8, b: u8, a: u8) -> Rgba {
    Rgba { r, g, b, a }
}

#[test]
fn eight_digits_are_alpha_red_green_blue() {
    assert_eq!(parse_color("0x80FFFFFF"), rgba(255, 255, 255, 128));
    assert_eq!(parse_color("0xFF0000FF"), rgba(0, 0, 255, 255));
    assert_eq!(parse_color("0xFFFF0000"), rgba(255, 0, 0, 255));
    assert_eq!(parse_color("#12345678"), rgba(0x34, 0x56, 0x78, 0x12));
    assert_eq!(parse_color("00000000"), rgba(0, 0, 0, 0));
}

#[test]
fn six_digits_are_opaque() {
    assert_eq!(parse_color("00FF00"), rgba(0, 255, 0, 255));
    assert_eq!(parse_color("0xFF0000"), rgba(255, 0, 0, 255));
    assert_eq!(parse_color("#0000ff"), rgba(0, 0, 255, 255));
    assert_eq!(parse_color("aBcDeF"), rgba(0xab, 0xcd, 0xef, 255));
}

#[test]
fn anything_else_is_opaque_black() {
    let black = rgba(0, 0, 0, 255);
    assert_eq!(parse_color(""), black);
    assert_eq!(parse_color("#"), black);
    assert_eq!(parse_color("0x"), black);
    assert_eq!(parse_color("red"), black);
    assert_eq!(parse_color("12345"), black);
    assert_eq!(parse_color("1234567"), black);
    assert_eq!(parse_color("123456789"), black);
    assert_eq!(parse_color("GG0000"), black);
    assert_eq!(parse_color("0xFFFFFFZZ"), black);
    assert_eq!(parse_color("0XFFFFFF"), black);
    assert_eq!(parse_color("#0xFFFFFF"), black);
    assert_eq!(parse_color(" FFFFFF"), black);
    assert_eq!(parse_color("+F0000"), black);
    assert_eq!(parse_color("ééé"), black);
    assert_eq!(parse_color("ｆｆｆｆｆｆ"), black);
}

#[test]
fn only_one_prefix_is_removed() {
    assert_eq!(parse_color("0x0x1234"), rgba(0, 0, 0, 255));
    assert_eq!(parse_color("##123456"), rgba(0, 0, 0, 255));
    assert_eq!(parse_color("0x#123456"), rgba(0, 0, 0, 255));
}

#[test]
fn renderer_parses_like_the_color_module() {
    assert_eq!(Renderer::parse_color("0x80FFFFFF"), parse_color("0x80FFFFFF"));
    assert_eq!(Renderer::parse_color("nonsense"), rgba(0, 0, 0, 255));
}

#[test]
fn premultiplied_half_white() {
    let straight = parse_color("0x80FFFFFF");
    assert_eq!(straight, rgba(255, 255, 255, 128));
    assert_eq!(straight.premultiplied(), rgba(127, 127, 127, 128));
}

#[test]
fn premultiplied_opaque_is_unchanged() {
    assert_eq!(rgba(255, 0, 0, 255).premultiplied(), rgba(255, 0, 0, 255));
    assert_eq!(rgba(17, 99, 200, 255).premultiplied(), rgba(17, 99, 200, 255));
}

#[test]
fn premultiplied_transparent_is_zero() {
    assert_eq!(rgba(255, 255, 255, 0).premultiplied(), rgba(0, 0, 0, 0));
}

#[test]
fn premultiplied_never_exceeds_alpha() {
    let mut a: u16 = 0;
    while a <= 255 {
        let mut c: u16 = 0;
        while c <= 255 {
            let p = rgba(c as u8, c as u8, c as u8, a as u8).premultiplied();
            assert!(p.r <= a as u8 && p.r <= c as u8);
            assert_eq!(p.a, a as u8);
            assert_eq!(p.r as u32, c as u32 * (a as u32 * 256 / 255) / 256);
            c += 1;
        }
        a += 1;
    }
}
