//! Draw operations as senders describe them, and the paint commands that
//! each of them stands for.
//!
//! Coordinates are whole surface pixels. Stroke widths and radii are held
//! in thousandths of a pixel, so that insets and strips are computed
//! exactly.

use vstd::prelude::*;
use crate::color::{parse_color, parse_color_spec, premultiply_spec, Rgba};

verus! {

/// Thousandths in one pixel.
pub const MILLIS_PER_PIXEL: i64 = 1000;

/// On which side of its segment a line is stroked.
#[derive(Clone, Copy, Debug, PartialEq, Eq, Structural)]
pub enum LineSide {
    Left,
    Right,
    Center,
}

/// A width or radius, in thousandths of a pixel.
#[derive(Clone, Copy, Debug, PartialEq, Eq, Structural)]
pub struct Length {
    pub millis: i32,
}

impl Length {
    /// A whole number of pixels; out of range it is the nearest length
    /// that can be held.
    pub fn from_pixels(pixels: i32) -> (l: Length)
        ensures
            -2147483 <= pixels <= 2147483 ==> l.millis == pixels * 1000,
            pixels > 2147483 ==> l.millis == i32::MAX,
            pixels < -2147483 ==> l.millis == i32::MIN,
    {
        if pixels > 2147483 {
            Length { millis: i32::MAX }
        } else if pixels < -2147483 {
            Length { millis: i32::MIN }
        } else {
            Length { millis: pixels * 1000 }
        }
    }
}

/// One pixel at (`x`, `y`).
#[derive(Clone, Debug)]
pub struct PixelParams {
    pub x: i32,
    pub y: i32,
    pub color: String,
}

/// A straight line from (`x1`, `y1`) to (`x2`, `y2`).
#[derive(Clone, Debug)]
pub struct LineParams {
    pub x1: i32,
    pub y1: i32,
    pub x2: i32,
    pub y2: i32,
    pub width: Length,
    pub side: LineSide,
    pub color: String,
}

/// A circle around (`x`, `y`). The outline lies on the radius, the fill
/// inside the outline.
#[derive(Clone, Debug)]
pub struct CircleParams {
    pub x: i32,
    pub y: i32,
    pub radius: Length,
    pub fill_color: String,
    pub outline_width: Length,
    pub outline_color: String,
}

/// The rectangle from (`x1`, `y1`) to (`x2`, `y2`). The outline lies
/// inside the rectangle, the fill inside the outline.
#[derive(Clone, Debug)]
pub struct RectangleParams {
    pub x1: i32,
    pub y1: i32,
    pub x2: i32,
    pub y2: i32,
    pub fill_color: String,
    pub outline_width: Length,
    pub outline_color: String,
}

/// What a sender can ask to have drawn.
#[derive(Clone, Debug)]
pub enum DrawOperation {
    Pixel(PixelParams),
    Line(LineParams),
    Circle(CircleParams),
    Rectangle(RectangleParams),
}

/// One step of painting. Colors are premultiplied; every command is
/// composited source-over onto what the earlier ones left.
#[derive(Clone, Copy, Debug, PartialEq, Eq, Structural)]
pub enum PaintCommand {
    /// Fill the axis-aligned rectangle with corner (`x`, `y`), all four
    /// values in thousandths of a pixel.
    FillRect { x: i64, y: i64, width: i64, height: i64, color: Rgba },
    /// Stroke the segment from (`x1`, `y1`) to (`x2`, `y2`), in pixels,
    /// moved by half the width along its unit normal (-dy, dx) / length:
    /// with the normal for `Left`, against it for `Right`, not at all for
    /// `Center`.
    StrokeLine { x1: i32, y1: i32, x2: i32, y2: i32, width: Length, side: LineSide, color: Rgba },
    /// Stroke the circle around (`x`, `y`), in pixels.
    StrokeCircle { x: i32, y: i32, radius: Length, width: Length, color: Rgba },
    /// Fill the disc around (`x`, `y`), in pixels; the radius is in
    /// thousandths of a pixel.
    FillCircle { x: i32, y: i32, radius: i64, color: Rgba },
}

/// The premultiplied color that a color text paints with.
pub open spec fn paint_color(text: Seq<char>) -> Rgba {
    premultiply_spec(parse_color_spec(text))
}

/// A pixel coordinate in thousandths.
pub open spec fn to_millis(pixels: i32) -> int {
    pixels as int * MILLIS_PER_PIXEL as int
}

/// A filled rectangle, or nothing where an extent is negative.
pub open spec fn rect_commands(x: int, y: int, width: int, height: int, color: Rgba) -> Seq<
    PaintCommand,
> {
    if width >= 0 && height >= 0 {
        seq![
            PaintCommand::FillRect {
                x: x as i64,
                y: y as i64,
                width: width as i64,
                height: height as i64,
                color,
            },
        ]
    } else {
        Seq::empty()
    }
}

/// A pixel is the unit square at its coordinates.
pub open spec fn pixel_commands(p: PixelParams) -> Seq<PaintCommand> {
    rect_commands(
        to_millis(p.x),
        to_millis(p.y),
        MILLIS_PER_PIXEL as int,
        MILLIS_PER_PIXEL as int,
        paint_color(p.color@),
    )
}

/// A line is one stroke, and nothing where its endpoints coincide.
pub open spec fn line_commands(p: LineParams) -> Seq<PaintCommand> {
    if p.x1 == p.x2 && p.y1 == p.y2 {
        Seq::empty()
    } else {
        seq![
            PaintCommand::StrokeLine {
                x1: p.x1,
                y1: p.y1,
                x2: p.x2,
                y2: p.y2,
                width: p.width,
                side: p.side,
                color: paint_color(p.color@),
            },
        ]
    }
}

/// The radius of a circle's fill: what the outline leaves of the radius.
pub open spec fn circle_inner_radius(p: CircleParams) -> int {
    p.radius.millis - p.outline_width.millis
}

/// A circle is its outline ring and then, where the outline leaves room,
/// a concentric filled disc.
pub open spec fn circle_commands(p: CircleParams) -> Seq<PaintCommand> {
    let ring = seq![
        PaintCommand::StrokeCircle {
            x: p.x,
            y: p.y,
            radius: p.radius,
            width: p.outline_width,
            color: paint_color(p.outline_color@),
        },
    ];
    if circle_inner_radius(p) > 0 {
        ring.push(
            PaintCommand::FillCircle {
                x: p.x,
                y: p.y,
                radius: circle_inner_radius(p) as i64,
                color: paint_color(p.fill_color@),
            },
        )
    } else {
        ring
    }
}

/// Width of a rectangle's interior: its width less the outline on both sides.
pub open spec fn rectangle_inner_width(p: RectangleParams) -> int {
    to_millis(p.x2) - to_millis(p.x1) - 2 * p.outline_width.millis
}

/// Height of a rectangle's interior.
pub open spec fn rectangle_inner_height(p: RectangleParams) -> int {
    to_millis(p.y2) - to_millis(p.y1) - 2 * p.outline_width.millis
}

/// The interior of a rectangle, inset by the outline width on all sides;
/// nothing unless both its extents are positive.
pub open spec fn rectangle_fill(p: RectangleParams) -> Seq<PaintCommand> {
    if rectangle_inner_width(p) > 0 && rectangle_inner_height(p) > 0 {
        rect_commands(
            to_millis(p.x1) + p.outline_width.millis,
            to_millis(p.y1) + p.outline_width.millis,
            rectangle_inner_width(p),
            rectangle_inner_height(p),
            paint_color(p.fill_color@),
        )
    } else {
        Seq::empty()
    }
}

/// The four border strips of a rectangle: left and right over the full
/// height, then top and bottom between them. Nothing unless the outline
/// width is positive.
pub open spec fn rectangle_border(p: RectangleParams) -> Seq<PaintCommand> {
    let w = p.outline_width.millis as int;
    let height = to_millis(p.y2) - to_millis(p.y1);
    let color = paint_color(p.outline_color@);
    if w > 0 {
        rect_commands(to_millis(p.x1), to_millis(p.y1), w, height, color) + rect_commands(
            to_millis(p.x2) - w,
            to_millis(p.y1),
            w,
            height,
            color,
        ) + rect_commands(
            to_millis(p.x1) + w,
            to_millis(p.y1),
            rectangle_inner_width(p),
            w,
            color,
        ) + rect_commands(
            to_millis(p.x1) + w,
            to_millis(p.y2) - w,
            rectangle_inner_width(p),
            w,
            color,
        )
    } else {
        Seq::empty()
    }
}

/// A rectangle is its fill and then its border.
pub open spec fn rectangle_commands(p: RectangleParams) -> Seq<PaintCommand> {
    rectangle_fill(p) + rectangle_border(p)
}

/// An outline as wide as half the rectangle's smaller extent, or wider,
/// leaves no interior: the rectangle is its border and nothing else.
pub proof fn lemma_wide_outline_leaves_no_fill(p: RectangleParams)
    requires
        2 * p.outline_width.millis >= to_millis(p.x2) - to_millis(p.x1) || 2
            * p.outline_width.millis >= to_millis(p.y2) - to_millis(p.y1),
    ensures
        rectangle_fill(p) == Seq::<PaintCommand>::empty(),
        rectangle_commands(p) == rectangle_border(p),
{
    assert(rectangle_commands(p) =~= rectangle_border(p));
}

/// Without an outline a rectangle is its fill and nothing else.
pub proof fn lemma_no_outline_leaves_no_border(p: RectangleParams)
    requires
        p.outline_width.millis <= 0,
    ensures
        rectangle_border(p) == Seq::<PaintCommand>::empty(),
        rectangle_commands(p) == rectangle_fill(p),
{
    assert(rectangle_commands(p) =~= rectangle_fill(p));
}

/// Whether a command fills the point (`x`, `y`), given in thousandths of a
/// pixel. Strokes and discs fill no point in this sense.
pub open spec fn fills_point(command: PaintCommand, x: int, y: int) -> bool {
    match command {
        PaintCommand::FillRect { x: left, y: top, width, height, .. } => left <= x < left + width
            && top <= y < top + height,
        _ => false,
    }
}

/// How many of the commands fill the point.
pub open spec fn times_filled(commands: Seq<PaintCommand>, x: int, y: int) -> nat
    decreases commands.len(),
{
    if commands.len() == 0 {
        0
    } else {
        times_filled(commands.drop_last(), x, y) + if fills_point(commands.last(), x, y) {
            1nat
        } else {
            0nat
        }
    }
}

/// The commands of two lists fill a point as often as both lists together.
proof fn lemma_times_filled_concat(a: Seq<PaintCommand>, b: Seq<PaintCommand>, x: int, y: int)
    ensures
        times_filled(a + b, x, y) == times_filled(a, x, y) + times_filled(b, x, y),
    decreases b.len(),
{
    if b.len() == 0 {
        assert(a + b =~= a);
    } else {
        lemma_times_filled_concat(a, b.drop_last(), x, y);
        assert((a + b).drop_last() =~= a + b.drop_last());
        assert((a + b).last() == b.last());
    }
}

/// A rectangle fills the points inside it once, and no other point.
proof fn lemma_times_filled_rect(
    left: int,
    top: int,
    width: int,
    height: int,
    color: Rgba,
    x: int,
    y: int,
)
    requires
        i64::MIN <= left <= i64::MAX,
        i64::MIN <= top <= i64::MAX,
        i64::MIN <= width <= i64::MAX,
        i64::MIN <= height <= i64::MAX,
    ensures
        times_filled(rect_commands(left, top, width, height, color), x, y) == (if left <= x < left
            + width && top <= y < top + height {
            1nat
        } else {
            0nat
        }),
{
    let commands = rect_commands(left, top, width, height, color);
    if width >= 0 && height >= 0 {
        assert(commands.drop_last() =~= Seq::empty());
        assert(times_filled(commands.drop_last(), x, y) == 0);
    }
}

/// An outline that fits, one no wider than half of either extent, tiles
/// the rectangle with the fill and the four strips: every point inside the
/// rectangle is filled exactly once, corners included, and no point
/// outside it is filled at all.
pub proof fn lemma_rectangle_is_tiled(p: RectangleParams, x: int, y: int)
    requires
        0 <= p.outline_width.millis,
        2 * p.outline_width.millis <= to_millis(p.x2) - to_millis(p.x1),
        2 * p.outline_width.millis <= to_millis(p.y2) - to_millis(p.y1),
    ensures
        times_filled(rectangle_commands(p), x, y) == (if to_millis(p.x1) <= x < to_millis(p.x2)
            && to_millis(p.y1) <= y < to_millis(p.y2) {
            1nat
        } else {
            0nat
        }),
{
    let w = p.outline_width.millis as int;
    let x1 = to_millis(p.x1);
    let y1 = to_millis(p.y1);
    let x2 = to_millis(p.x2);
    let y2 = to_millis(p.y2);
    let fill = paint_color(p.fill_color@);
    let line = paint_color(p.outline_color@);
    let inner_w = rectangle_inner_width(p);
    let inner_h = rectangle_inner_height(p);
    let left = rect_commands(x1, y1, w, y2 - y1, line);
    let right = rect_commands(x2 - w, y1, w, y2 - y1, line);
    let upper = rect_commands(x1 + w, y1, inner_w, w, line);
    let lower = rect_commands(x1 + w, y2 - w, inner_w, w, line);
    lemma_times_filled_rect(x1 + w, y1 + w, inner_w, inner_h, fill, x, y);
    lemma_times_filled_rect(x1, y1, w, y2 - y1, line, x, y);
    lemma_times_filled_rect(x2 - w, y1, w, y2 - y1, line, x, y);
    lemma_times_filled_rect(x1 + w, y1, inner_w, w, line, x, y);
    lemma_times_filled_rect(x1 + w, y2 - w, inner_w, w, line, x, y);
    lemma_times_filled_concat(left, right, x, y);
    lemma_times_filled_concat(left + right, upper, x, y);
    lemma_times_filled_concat(left + right + upper, lower, x, y);
    lemma_times_filled_concat(rectangle_fill(p), rectangle_border(p), x, y);
    if inner_w > 0 && inner_h > 0 {
    } else {
        assert(times_filled(rectangle_fill(p), x, y) == 0);
    }
    if w > 0 {
    } else {
        assert(times_filled(rectangle_border(p), x, y) == 0);
    }
}

/// What one operation paints.
pub open spec fn operation_commands(op: DrawOperation) -> Seq<PaintCommand> {
    match op {
        DrawOperation::Pixel(p) => pixel_commands(p),
        DrawOperation::Line(p) => line_commands(p),
        DrawOperation::Circle(p) => circle_commands(p),
        DrawOperation::Rectangle(p) => rectangle_commands(p),
    }
}

/// What a list of operations paints, in the order of the list.
pub open spec fn operations_commands(ops: Seq<DrawOperation>) -> Seq<PaintCommand>
    decreases ops.len(),
{
    if ops.len() == 0 {
        Seq::empty()
    } else {
        operations_commands(ops.drop_last()) + operation_commands(ops.last())
    }
}

/// Records the paint commands of one frame, to be carried out in order on
/// a cleared surface of `width` by `height` pixels.
pub struct Renderer {
    pub width: u32,
    pub height: u32,
    pub commands: Vec<PaintCommand>,
}

impl View for Renderer {
    type V = Seq<PaintCommand>;

    open spec fn view(&self) -> Seq<PaintCommand> {
        self.commands@
    }
}

impl Renderer {
    /// A renderer for a surface of the given size, with nothing painted.
    pub fn new(width: u32, height: u32) -> (r: Renderer)
        ensures
            r@ == Seq::<PaintCommand>::empty(),
            r.width == width,
            r.height == height,
    {
        Renderer { width, height, commands: Vec::new() }
    }

    /// The straight-alpha color that `hex` stands for.
    pub fn parse_color(hex: &str) -> (c: Rgba)
        ensures
            c == parse_color_spec(hex@),
    {
        parse_color(hex)
    }

    /// Forgets what was painted: the surface is fully transparent again.
    pub fn clear(&mut self)
        ensures
            final(self)@ == Seq::<PaintCommand>::empty(),
            final(self).width == old(self).width,
            final(self).height == old(self).height,
    {
        self.commands.clear();
    }

    /// Records a filled rectangle, unless an extent is negative.
    fn fill_rect(&mut self, x: i64, y: i64, width: i64, height: i64, color: Rgba)
        ensures
            final(self)@ == old(self)@ + rect_commands(
                x as int,
                y as int,
                width as int,
                height as int,
                color,
            ),
            final(self).width == old(self).width,
            final(self).height == old(self).height,
    {
        if width >= 0 && height >= 0 {
            self.commands.push(PaintCommand::FillRect { x, y, width, height, color });
            assert(self@ =~= old(self)@ + rect_commands(
                x as int,
                y as int,
                width as int,
                height as int,
                color,
            ));
        } else {
            assert(self@ =~= old(self)@ + Seq::<PaintCommand>::empty());
        }
    }

    /// The premultiplied color that a color text paints with.
    fn paint_color(text: &str) -> (c: Rgba)
        ensures
            c == paint_color(text@),
    {
        parse_color(text).premultiplied()
    }

    /// Paints one pixel.
    pub fn draw_pixel(&mut self, params: PixelParams)
        ensures
            final(self)@ == old(self)@ + pixel_commands(params),
            final(self).width == old(self).width,
            final(self).height == old(self).height,
    {
        let color = Self::paint_color(params.color.as_str());
        self.fill_rect(
            params.x as i64 * MILLIS_PER_PIXEL,
            params.y as i64 * MILLIS_PER_PIXEL,
            MILLIS_PER_PIXEL,
            MILLIS_PER_PIXEL,
            color,
        );
    }

    /// Strokes a line; one whose endpoints coincide paints nothing.
    pub fn draw_line(&mut self, params: LineParams)
        ensures
            final(self)@ == old(self)@ + line_commands(params),
            final(self).width == old(self).width,
            final(self).height == old(self).height,
    {
        if params.x1 == params.x2 && params.y1 == params.y2 {
            assert(self@ =~= old(self)@ + line_commands(params));
            return ;
        }
        let color = Self::paint_color(params.color.as_str());
        self.commands.push(
            PaintCommand::StrokeLine {
                x1: params.x1,
                y1: params.y1,
                x2: params.x2,
                y2: params.y2,
                width: params.width,
                side: params.side,
                color,
            },
        );
        assert(self@ =~= old(self)@ + line_commands(params));
    }

    /// Strokes the outline of a circle, then fills the disc inside it
    /// where the outline is narrower than the radius.
    pub fn draw_circle(&mut self, params: CircleParams)
        ensures
            final(self)@ == old(self)@ + circle_commands(params),
            final(self).width == old(self).width,
            final(self).height == old(self).height,
    {
        let outline_color = Self::paint_color(params.outline_color.as_str());
        self.commands.push(
            PaintCommand::StrokeCircle {
                x: params.x,
                y: params.y,
                radius: params.radius,
                width: params.outline_width,
                color: outline_color,
            },
        );
        let inner_radius: i64 = params.radius.millis as i64 - params.outline_width.millis as i64;
        if inner_radius > 0 {
            let fill_color = Self::paint_color(params.fill_color.as_str());
            self.commands.push(
                PaintCommand::FillCircle {
                    x: params.x,
                    y: params.y,
                    radius: inner_radius,
                    color: fill_color,
                },
            );
        }
        assert(self@ =~= old(self)@ + circle_commands(params));
    }

    /// Fills the interior of a rectangle, inset by the outline width, then
    /// paints the outline as four strips inside the rectangle.
    pub fn draw_rectangle(&mut self, params: RectangleParams)
        ensures
            final(self)@ == old(self)@ + rectangle_commands(params),
            final(self).width == old(self).width,
            final(self).height == old(self).height,
    {
        let x1: i64 = params.x1 as i64 * MILLIS_PER_PIXEL;
        let y1: i64 = params.y1 as i64 * MILLIS_PER_PIXEL;
        let x2: i64 = params.x2 as i64 * MILLIS_PER_PIXEL;
        let y2: i64 = params.y2 as i64 * MILLIS_PER_PIXEL;
        let width: i64 = x2 - x1;
        let height: i64 = y2 - y1;
        let fill_color = Self::paint_color(params.fill_color.as_str());
        let outline_color = Self::paint_color(params.outline_color.as_str());
        let outline_width: i64 = params.outline_width.millis as i64;
        let inner_x: i64 = x1 + outline_width;
        let inner_y: i64 = y1 + outline_width;
        let inner_width: i64 = width - 2 * outline_width;
        let inner_height: i64 = height - 2 * outline_width;
        if inner_width > 0 && inner_height > 0 {
            self.fill_rect(inner_x, inner_y, inner_width, inner_height, fill_color);
        }
        assert(self@ =~= old(self)@ + rectangle_fill(params));
        if outline_width > 0 {
            self.fill_rect(x1, y1, outline_width, height, outline_color);
            self.fill_rect(x2 - outline_width, y1, outline_width, height, outline_color);
            self.fill_rect(inner_x, y1, inner_width, outline_width, outline_color);
            self.fill_rect(inner_x, y2 - outline_width, inner_width, outline_width, outline_color);
        }
        assert(self@ =~= old(self)@ + rectangle_fill(params) + rectangle_border(params));
        assert(self@ =~= old(self)@ + rectangle_commands(params));
    }
}

} // verus!
