use wayland_overlay::color::Rgba;
use wayland_overlay::draw::{
    CircleParams, Length, LineParams, LineSide, PaintCommand, PixelParams, RectangleParams,
    Renderer,
};

const WHITE: Rgba = Rgba { r: 255, g: 255, b: 255, a: 255 };
const RED: Rgba = Rgba { r: 255, g: 0, b: 0, a: 255 };
const CLEAR: Rgba = Rgba { r: 0, g: 0, b: 0, a: 0 };

fn rectangle(x1: i32, y1: i32, x2: i32, y2: i32, outline_millis: i32) -> RectangleParams {
    RectangleParams {
        x1,
        y1,
        x2,
        y2,
        fill_color: "0xFFFFFFFF".to_string(),
        outline_width: Length { millis: outline_millis },
        outline_color: "0xFFFF0000".to_string(),
    }
}

fn fill_rect(x: i64, y: i64, width: i64, height: i64, color: Rgba) -> PaintCommand {
    PaintCommand::FillRect { x, y, width, height, color }
}

#[test]
fn length_from_pixels() {
    assert_eq!(Length::from_pixels(5), Length { millis: 5000 });
    assert_eq!(Length::from_pixels(0), Length { millis: 0 });
    assert_eq!(Length::from_pixels(-3), Length { millis: -3000 });
    assert_eq!(Length::from_pixels(2147483), Length { millis: 2147483000 });
    assert_eq!(Length::from_pixels(2147484), Length { millis: i32::MAX });
    assert_eq!(Length::from_pixels(i32::MAX), Length { millis: i32::MAX });
    assert_eq!(Length::from_pixels(-2147484), Length { millis: i32::MIN });
}

#[test]
fn new_renderer_is_empty() {
    let r = Renderer::new(640, 480);
    assert_eq!(r.width, 640);
    assert_eq!(r.height, 480);
    assert!(r.commands.is_empty());
}

#[test]
fn pixel_is_a_unit_square() {
    let mut r = Renderer::new(100, 100);
    r.draw_pixel(PixelParams { x: 3, y: -4, color: "0x80FFFFFF".to_string() });
    assert_eq!(
        r.commands,
        vec![fill_rect(3000, -4000, 1000, 1000, Rgba { r: 127, g: 127, b: 127, a: 128 })]
    );
}

#[test]
fn pixel_at_the_edge_of_the_coordinate_range() {
    let mut r = Renderer::new(1, 1);
    r.draw_pixel(PixelParams { x: i32::MAX, y: i32::MIN, color: "FF0000".to_string() });
    assert_eq!(
        r.commands,
        vec![fill_rect(2147483647000, -2147483648000, 1000, 1000, RED)]
    );
}

#[test]
fn line_is_one_stroke() {
    let mut r = Renderer::new(100, 100);
    r.draw_line(LineParams {
        x1: 0,
        y1: 5,
        x2: 10,
        y2: 5,
        width: Length { millis: 2500 },
        side: LineSide::Left,
        color: "FF0000".to_string(),
    });
    assert_eq!(
        r.commands,
        vec![PaintCommand::StrokeLine {
            x1: 0,
            y1: 5,
            x2: 10,
            y2: 5,
            width: Length { millis: 2500 },
            side: LineSide::Left,
            color: RED,
        }]
    );
}

#[test]
fn line_of_no_length_draws_nothing() {
    let mut r = Renderer::new(100, 100);
    r.draw_line(LineParams {
        x1: 7,
        y1: 7,
        x2: 7,
        y2: 7,
        width: Length { millis: 3000 },
        side: LineSide::Center,
        color: "FF0000".to_string(),
    });
    assert!(r.commands.is_empty());
}

#[test]
fn circle_is_ring_then_disc() {
    let mut r = Renderer::new(100, 100);
    r.draw_circle(CircleParams {
        x: 50,
        y: 60,
        radius: Length { millis: 10000 },
        fill_color: "0xFFFFFFFF".to_string(),
        outline_width: Length { millis: 2500 },
        outline_color: "0xFFFF0000".to_string(),
    });
    assert_eq!(
        r.commands,
        vec![
            PaintCommand::StrokeCircle {
                x: 50,
                y: 60,
                radius: Length { millis: 10000 },
                width: Length { millis: 2500 },
                color: RED,
            },
            PaintCommand::FillCircle { x: 50, y: 60, radius: 7500, color: WHITE },
        ]
    );
}

#[test]
fn circle_with_outline_as_wide_as_radius_has_no_disc() {
    for outline in [10000, 10001, i32::MAX] {
        let mut r = Renderer::new(100, 100);
        r.draw_circle(CircleParams {
            x: 50,
            y: 60,
            radius: Length { millis: 10000 },
            fill_color: "0xFFFFFFFF".to_string(),
            outline_width: Length { millis: outline },
            outline_color: "0xFFFF0000".to_string(),
        });
        assert_eq!(
            r.commands,
            vec![PaintCommand::StrokeCircle {
                x: 50,
                y: 60,
                radius: Length { millis: 10000 },
                width: Length { millis: outline },
                color: RED,
            }]
        );
    }
}

#[test]
fn circle_radius_range_does_not_overflow() {
    let mut r = Renderer::new(100, 100);
    r.draw_circle(CircleParams {
        x: 0,
        y: 0,
        radius: Length { millis: i32::MAX },
        fill_color: "0xFFFFFFFF".to_string(),
        outline_width: Length { millis: i32::MIN },
        outline_color: "0xFFFF0000".to_string(),
    });
    assert_eq!(r.commands.len(), 2);
    assert_eq!(
        r.commands[1],
        PaintCommand::FillCircle { x: 0, y: 0, radius: 4294967295, color: WHITE }
    );
}

#[test]
fn rectangle_without_outline_is_fill_only() {
    let mut r = Renderer::new(100, 100);
    let mut p = rectangle(0, 0, 10, 10, 0);
    p.outline_color = "0x00000000".to_string();
    r.draw_rectangle(p);
    assert_eq!(r.commands, vec![fill_rect(0, 0, 10000, 10000, WHITE)]);
}

#[test]
fn rectangle_is_fill_then_left_right_top_bottom() {
    let mut r = Renderer::new(100, 100);
    r.draw_rectangle(rectangle(10, 20, 110, 70, 5000));
    assert_eq!(
        r.commands,
        vec![
            fill_rect(15000, 25000, 90000, 40000, WHITE),
            fill_rect(10000, 20000, 5000, 50000, RED),
            fill_rect(105000, 20000, 5000, 50000, RED),
            fill_rect(15000, 20000, 90000, 5000, RED),
            fill_rect(15000, 65000, 90000, 5000, RED),
        ]
    );
}

#[test]
fn rectangle_with_fractional_outline() {
    let mut r = Renderer::new(100, 100);
    r.draw_rectangle(rectangle(0, 0, 4, 4, 1500));
    assert_eq!(
        r.commands,
        vec![
            fill_rect(1500, 1500, 1000, 1000, WHITE),
            fill_rect(0, 0, 1500, 4000, RED),
            fill_rect(2500, 0, 1500, 4000, RED),
            fill_rect(1500, 0, 1000, 1500, RED),
            fill_rect(1500, 2500, 1000, 1500, RED),
        ]
    );
}

#[test]
fn rectangle_with_outline_of_half_its_extent_has_no_fill() {
    let mut r = Renderer::new(100, 100);
    r.draw_rectangle(rectangle(0, 0, 10, 20, 5000));
    assert_eq!(
        r.commands,
        vec![
            fill_rect(0, 0, 5000, 20000, RED),
            fill_rect(5000, 0, 5000, 20000, RED),
            fill_rect(5000, 0, 0, 5000, RED),
            fill_rect(5000, 15000, 0, 5000, RED),
        ]
    );
}

#[test]
fn rectangle_with_wider_outline_is_left_and_right_strip() {
    let mut r = Renderer::new(100, 100);
    r.draw_rectangle(rectangle(0, 0, 10, 10, 6000));
    assert_eq!(
        r.commands,
        vec![fill_rect(0, 0, 6000, 10000, RED), fill_rect(4000, 0, 6000, 10000, RED)]
    );
}

#[test]
fn rectangle_turned_inside_out_draws_nothing_without_outline() {
    let mut r = Renderer::new(100, 100);
    r.draw_rectangle(rectangle(10, 10, 0, 0, 0));
    assert!(r.commands.is_empty());
}

#[test]
fn rectangle_with_negative_outline_grows_the_fill() {
    let mut r = Renderer::new(100, 100);
    r.draw_rectangle(rectangle(10, 10, 20, 20, -2000));
    assert_eq!(r.commands, vec![fill_rect(8000, 8000, 14000, 14000, WHITE)]);
}

#[test]
fn rectangle_over_the_whole_coordinate_range() {
    let mut r = Renderer::new(100, 100);
    r.draw_rectangle(rectangle(i32::MIN, i32::MIN, i32::MAX, i32::MAX, i32::MAX));
    let w = i32::MAX as i64;
    let x1 = i32::MIN as i64 * 1000;
    let x2 = i32::MAX as i64 * 1000;
    let span = x2 - x1;
    assert_eq!(
        r.commands,
        vec![
            fill_rect(x1 + w, x1 + w, span - 2 * w, span - 2 * w, WHITE),
            fill_rect(x1, x1, w, span, RED),
            fill_rect(x2 - w, x1, w, span, RED),
            fill_rect(x1 + w, x1, span - 2 * w, w, RED),
            fill_rect(x1 + w, x2 - w, span - 2 * w, w, RED),
        ]
    );
}

#[test]
fn commands_accumulate_until_cleared() {
    let mut r = Renderer::new(100, 100);
    r.draw_pixel(PixelParams { x: 1, y: 1, color: "FFFFFF".to_string() });
    r.draw_pixel(PixelParams { x: 2, y: 2, color: "0x00000000".to_string() });
    assert_eq!(
        r.commands,
        vec![fill_rect(1000, 1000, 1000, 1000, WHITE), fill_rect(2000, 2000, 1000, 1000, CLEAR)]
    );
    r.clear();
    assert!(r.commands.is_empty());
    assert_eq!((r.width, r.height), (100, 100));
}
