//! Integer scan conversion: single points and Bresenham line drawing over
//! the pixel buffer.  Every write goes through the bounds-ignoring blend,
//! so drawing never panics, whatever the coordinates.

use vstd::prelude::*;
use crate::color::Col3q;
use crate::image::{Image, over_cell_spec};
use crate::scalar::{q_ok, q_add, q_sub, q_div, q_add_spec, q_sub_spec, q_div_spec, tdiv_spec, ONE};
use crate::vector::{Vec2i, i32_sat_spec, q_to_i32};

verus! {

/// The triangle scan-conversion strategies the renderer distinguishes.
/// The scanline fill lives here; the coverage-sampled variant computes
/// floating-point coverage fractions and lives with the program around the
/// library.
#[derive(Clone, Copy, Debug, PartialEq, Eq, Structural)]
pub enum TriangleType {
    Scanline,
    CrossAntialiased,
}

/// The line scan-conversion strategies the renderer distinguishes.  The
/// Bresenham walk and the fixed-point antialiased walk live here; the
/// experimental addition-only walk and the wrapping-accumulator coverage
/// walk live with the program around the library.
#[derive(Clone, Copy, Debug, PartialEq, Eq, Structural)]
pub enum LineType {
    Bresenham,
    Antialiased,
    ExperimentalBresenham,
    XiaolinWu,
}

/// The point-stamp shapes the renderer distinguishes.
#[derive(Clone, Copy, Debug, PartialEq, Eq, Structural)]
pub enum PointType {
    Square,
    Circle,
}

impl Image {
    /// Stamp a point of the chosen shape and radius onto the image.
    pub fn draw_point(&mut self, a: Vec2i, color: Col3q, alpha: i64, radius: i32, point_type: PointType)
        requires
            old(self).wf(),
            old(self).width <= 0x4000_0000,
            old(self).height <= 0x4000_0000,
            -0x1000_0000 <= a.x <= 0x1000_0000,
            -0x1000_0000 <= a.y <= 0x1000_0000,
            0 <= radius <= 30000,
        ensures
            final(self).width == old(self).width,
            final(self).height == old(self).height,
            final(self).wf(),
            point_type == PointType::Square ==> final(self).data@ == square_rows_spec(old(
            self).data@, old(self).width as int, old(self).height as int, a.x as int, a.y as int,
                -radius + 1, radius - 1, -radius + 1, radius - 1, color, alpha as int),
            point_type == PointType::Circle ==> final(self).data@ == circle_rows_spec(old(
            self).data@, old(self).width as int, old(self).height as int, a.x as int, a.y as int,
                -radius + 1, radius - 1, -radius + 1, radius - 1, radius as int, color,
                alpha as int),
    {
        match point_type {
            PointType::Square => draw_point_square(self, a, color, alpha, radius),
            PointType::Circle => draw_point_circle(self, a, color, alpha, radius),
        }
    }
}

/// Paint a single pixel by blending a color at one coordinate.
pub fn draw_point(img: &mut Image, point: Vec2i, color: Col3q, alpha: i64)
    requires
        old(img).wf(),
    ensures
        final(img).width == old(img).width,
        final(img).height == old(img).height,
        final(img).data@ == over_cell_spec(old(img).data@, old(img).width as int, old(
        img).height as int, point.x as int, point.y as int, color, alpha as int),
        final(img).wf(),
{
    img.over_signed(point.x, point.y, color, alpha);
}

/// The pixel data after the shallow-slope Bresenham walk from `x` to
/// `end_x`: each step paints white and advances the error term, stepping in
/// `y` when it turns positive.
pub open spec fn plot_line_low_steps_spec(
    data: Seq<Col3q>,
    width: int,
    height: int,
    x: int,
    end_x: int,
    y: int,
    d: int,
    yi: int,
    dx: int,
    dy: int,
) -> Seq<Col3q>
    decreases end_x + 1 - x,
{
    if x > end_x {
        data
    } else {
        let data2 = over_cell_spec(data, width, height, x, y, Col3q { r: ONE, g: ONE, b: ONE },
            ONE as int);
        if d > 0 {
            plot_line_low_steps_spec(data2, width, height, x + 1, end_x, y + yi, d + 2 * (dy
                - dx), yi, dx, dy)
        } else {
            plot_line_low_steps_spec(data2, width, height, x + 1, end_x, y, d + 2 * dy, yi, dx,
                dy)
        }
    }
}

/// The shallow-slope Bresenham line from `start` to `end`, painted white.
pub open spec fn plot_line_low_spec(
    data: Seq<Col3q>,
    width: int,
    height: int,
    start: Vec2i,
    end: Vec2i,
) -> Seq<Col3q> {
    let dx = end.x - start.x;
    let dy0 = end.y - start.y;
    let yi = if dy0 < 0 {
        -1
    } else {
        1
    };
    let dy = if dy0 < 0 {
        -dy0
    } else {
        dy0
    };
    plot_line_low_steps_spec(data, width, height, start.x as int, end.x as int, start.y as int, 2
        * dy - dx, yi, dx, dy)
}

/// Walk a shallow line (|slope| at most 1) left to right, painting white.
pub fn plot_line_low(img: &mut Image, start: Vec2i, end: Vec2i)
    requires
        old(img).wf(),
        old(img).width <= 0x4000_0000,
        old(img).height <= 0x4000_0000,
        -0x1000_0000 <= start.x <= 0x1000_0000,
        -0x1000_0000 <= start.y <= 0x1000_0000,
        -0x1000_0000 <= end.x <= 0x1000_0000,
        -0x1000_0000 <= end.y <= 0x1000_0000,
        start.x <= end.x,
        end.y - start.y <= end.x - start.x,
        start.y - end.y <= end.x - start.x,
    ensures
        final(img).width == old(img).width,
        final(img).height == old(img).height,
        final(img).data@ == plot_line_low_spec(old(img).data@, old(img).width as int, old(
        img).height as int, start, end),
        final(img).wf(),
{
    let width: usize = img.width;
    let height: usize = img.height;
    let dx: i32 = end.x - start.x;
    let mut dy: i32 = end.y - start.y;
    let mut yi: i32 = 1;
    if dy < 0 {
        yi = -1;
        dy = -dy;
    }
    let mut d: i32 = (2 * dy) - dx;
    let mut y: i32 = start.y;
    let mut x: i32 = start.x;
    while x <= end.x
        invariant
            img.wf(),
            img.width == width,
            img.height == height,
            width <= 0x4000_0000,
            height <= 0x4000_0000,
            dx == end.x - start.x,
            0 <= dy <= dx,
            yi == 1 || yi == -1i32,
            start.x <= x <= end.x + 1,
            2 * dy - 2 * dx <= d <= 2 * dy,
            start.y - (x - start.x) <= y <= start.y + (x - start.x),
            -0x1000_0000 <= start.x <= 0x1000_0000,
            -0x1000_0000 <= start.y <= 0x1000_0000,
            -0x1000_0000 <= end.x <= 0x1000_0000,
            plot_line_low_spec(old(img).data@, width as int, height as int, start, end)
                == plot_line_low_steps_spec(img.data@, width as int, height as int, x as int,
                end.x as int, y as int, d as int, yi as int, dx as int, dy as int),
        decreases end.x + 1 - x,
    {
        img.over_signed(x, y, Col3q::white(), ONE);
        if d > 0 {
            y = y + yi;
            d = d + (2 * (dy - dx));
        } else {
            d = d + 2 * dy;
        }
        x = x + 1;
    }
}

/// The pixel data after the steep-slope Bresenham walk from `y` to `end_y`.
pub open spec fn plot_line_high_steps_spec(
    data: Seq<Col3q>,
    width: int,
    height: int,
    y: int,
    end_y: int,
    x: int,
    d: int,
    xi: int,
    dx: int,
    dy: int,
) -> Seq<Col3q>
    decreases end_y + 1 - y,
{
    if y > end_y {
        data
    } else {
        let data2 = over_cell_spec(data, width, height, x, y, Col3q { r: ONE, g: ONE, b: ONE },
            ONE as int);
        if d > 0 {
            plot_line_high_steps_spec(data2, width, height, y + 1, end_y, x + xi, d + 2 * (dx
                - dy), xi, dx, dy)
        } else {
            plot_line_high_steps_spec(data2, width, height, y + 1, end_y, x, d + 2 * dx, xi, dx,
                dy)
        }
    }
}

/// The steep-slope Bresenham line from `start` to `end`, painted white.
pub open spec fn plot_line_high_spec(
    data: Seq<Col3q>,
    width: int,
    height: int,
    start: Vec2i,
    end: Vec2i,
) -> Seq<Col3q> {
    let dx0 = end.x - start.x;
    let dy = end.y - start.y;
    let xi = if dx0 < 0 {
        -1
    } else {
        1
    };
    let dx = if dx0 < 0 {
        -dx0
    } else {
        dx0
    };
    plot_line_high_steps_spec(data, width, height, start.y as int, end.y as int, start.x as int, 2
        * dx - dy, xi, dx, dy)
}

/// Walk a steep line (|slope| at least 1) top to bottom, painting white.
pub fn plot_line_high(img: &mut Image, start: Vec2i, end: Vec2i)
    requires
        old(img).wf(),
        old(img).width <= 0x4000_0000,
        old(img).height <= 0x4000_0000,
        -0x1000_0000 <= start.x <= 0x1000_0000,
        -0x1000_0000 <= start.y <= 0x1000_0000,
        -0x1000_0000 <= end.x <= 0x1000_0000,
        -0x1000_0000 <= end.y <= 0x1000_0000,
        start.y <= end.y,
        end.x - start.x <= end.y - start.y,
        start.x - end.x <= end.y - start.y,
    ensures
        final(img).width == old(img).width,
        final(img).height == old(img).height,
        final(img).data@ == plot_line_high_spec(old(img).data@, old(img).width as int, old(
        img).height as int, start, end),
        final(img).wf(),
{
    let width: usize = img.width;
    let height: usize = img.height;
    let mut dx: i32 = end.x - start.x;
    let dy: i32 = end.y - start.y;
    let mut xi: i32 = 1;
    if dx < 0 {
        xi = -1;
        dx = -dx;
    }
    let mut d: i32 = (2 * dx) - dy;
    let mut x: i32 = start.x;
    let mut y: i32 = start.y;
    while y <= end.y
        invariant
            img.wf(),
            img.width == width,
            img.height == height,
            width <= 0x4000_0000,
            height <= 0x4000_0000,
            dy == end.y - start.y,
            0 <= dx <= dy,
            xi == 1 || xi == -1i32,
            start.y <= y <= end.y + 1,
            2 * dx - 2 * dy <= d <= 2 * dx,
            start.x - (y - start.y) <= x <= start.x + (y - start.y),
            -0x1000_0000 <= start.x <= 0x1000_0000,
            -0x1000_0000 <= start.y <= 0x1000_0000,
            -0x1000_0000 <= end.y <= 0x1000_0000,
            plot_line_high_spec(old(img).data@, width as int, height as int, start, end)
                == plot_line_high_steps_spec(img.data@, width as int, height as int, y as int,
                end.y as int, x as int, d as int, xi as int, dx as int, dy as int),
        decreases end.y + 1 - y,
    {
        img.over_signed(x, y, Col3q::white(), ONE);
        if d > 0 {
            x = x + xi;
            d = d + (2 * (dx - dy));
        } else {
            d = d + 2 * dx;
        }
        y = y + 1;
    }
}

/// The full Bresenham dispatch: the shallow walk when the line runs more
/// horizontal than vertical, the steep walk otherwise, endpoints ordered so
/// the walk always moves forward.
pub open spec fn bresenham_spec(
    data: Seq<Col3q>,
    width: int,
    height: int,
    start: Vec2i,
    end: Vec2i,
) -> Seq<Col3q> {
    let adx = if end.x >= start.x {
        end.x - start.x
    } else {
        start.x - end.x
    };
    let ady = if end.y >= start.y {
        end.y - start.y
    } else {
        start.y - end.y
    };
    if ady < adx {
        if start.x > end.x {
            plot_line_low_spec(data, width, height, end, start)
        } else {
            plot_line_low_spec(data, width, height, start, end)
        }
    } else {
        if start.y > end.y {
            plot_line_high_spec(data, width, height, end, start)
        } else {
            plot_line_high_spec(data, width, height, start, end)
        }
    }
}

/// Draw a white line segment between two pixels with Bresenham scan
/// conversion.
pub fn bresenham(img: &mut Image, start: Vec2i, end: Vec2i)
    requires
        old(img).wf(),
        old(img).width <= 0x4000_0000,
        old(img).height <= 0x4000_0000,
        -0x1000_0000 <= start.x <= 0x1000_0000,
        -0x1000_0000 <= start.y <= 0x1000_0000,
        -0x1000_0000 <= end.x <= 0x1000_0000,
        -0x1000_0000 <= end.y <= 0x1000_0000,
    ensures
        final(img).width == old(img).width,
        final(img).height == old(img).height,
        final(img).data@ == bresenham_spec(old(img).data@, old(img).width as int, old(
        img).height as int, start, end),
        final(img).wf(),
{
    let adx: i32 = if end.x >= start.x {
        end.x - start.x
    } else {
        start.x - end.x
    };
    let ady: i32 = if end.y >= start.y {
        end.y - start.y
    } else {
        start.y - end.y
    };
    if ady < adx {
        if start.x > end.x {
            plot_line_low(img, end, start);
        } else {
            plot_line_low(img, start, end);
        }
    } else {
        if start.y > end.y {
            plot_line_high(img, end, start);
        } else {
            plot_line_high(img, start, end);
        }
    }
}

/// One column of a filled square: blend the color down the cells
/// `[j, j_end)` of column `x`.
pub open spec fn square_col_spec(
    data: Seq<Col3q>,
    width: int,
    height: int,
    x: int,
    y: int,
    j: int,
    j_end: int,
    color: Col3q,
    alpha: int,
) -> Seq<Col3q>
    decreases j_end - j,
{
    if j >= j_end {
        data
    } else {
        square_col_spec(over_cell_spec(data, width, height, x, y + j, color, alpha), width,
            height, x, y, j + 1, j_end, color, alpha)
    }
}

/// The columns of a filled square over `[i, i_end)`.
pub open spec fn square_rows_spec(
    data: Seq<Col3q>,
    width: int,
    height: int,
    x: int,
    y: int,
    i: int,
    i_end: int,
    j0: int,
    j_end: int,
    color: Col3q,
    alpha: int,
) -> Seq<Col3q>
    decreases i_end - i,
{
    if i >= i_end {
        data
    } else {
        square_rows_spec(square_col_spec(data, width, height, x + i, y, j0, j_end, color, alpha),
            width, height, x, y, i + 1, i_end, j0, j_end, color, alpha)
    }
}

/// Blend a filled square of side `2 * radius - 3` centered on a pixel.
pub fn draw_point_square(img: &mut Image, a: Vec2i, color: Col3q, alpha: i64, radius: i32)
    requires
        old(img).wf(),
        old(img).width <= 0x4000_0000,
        old(img).height <= 0x4000_0000,
        -0x1000_0000 <= a.x <= 0x1000_0000,
        -0x1000_0000 <= a.y <= 0x1000_0000,
        0 <= radius <= 0x1000_0000,
    ensures
        final(img).width == old(img).width,
        final(img).height == old(img).height,
        final(img).data@ == square_rows_spec(old(img).data@, old(img).width as int, old(
        img).height as int, a.x as int, a.y as int, -radius + 1, radius - 1, -radius + 1, radius
            - 1, color, alpha as int),
        final(img).wf(),
{
    let width: usize = img.width;
    let height: usize = img.height;
    let mut i: i32 = -radius + 1;
    while i < radius - 1
        invariant
            img.wf(),
            img.width == width,
            img.height == height,
            width <= 0x4000_0000,
            height <= 0x4000_0000,
            -0x1000_0000 <= a.x <= 0x1000_0000,
            -0x1000_0000 <= a.y <= 0x1000_0000,
            0 <= radius <= 0x1000_0000,
            -radius + 1 <= i,
            i <= radius - 1 || i == -radius + 1,
            square_rows_spec(old(img).data@, width as int, height as int, a.x as int, a.y as int,
                -radius + 1, radius - 1, -radius + 1, radius - 1, color, alpha as int)
                == square_rows_spec(img.data@, width as int, height as int, a.x as int,
                a.y as int, i as int, radius - 1, -radius + 1, radius - 1, color, alpha as int),
        decreases radius - 1 - i,
    {
        let mut j: i32 = -radius + 1;
        while j < radius - 1
            invariant
                img.wf(),
                img.width == width,
                img.height == height,
                width <= 0x4000_0000,
                height <= 0x4000_0000,
                -0x1000_0000 <= a.x <= 0x1000_0000,
                -0x1000_0000 <= a.y <= 0x1000_0000,
                0 <= radius <= 0x1000_0000,
                -radius + 1 <= i < radius - 1,
                -radius + 1 <= j,
                j <= radius - 1 || j == -radius + 1,
                square_rows_spec(old(img).data@, width as int, height as int, a.x as int,
                    a.y as int, -radius + 1, radius - 1, -radius + 1, radius - 1, color,
                    alpha as int) == square_rows_spec(square_col_spec(img.data@, width as int,
                    height as int, a.x + i, a.y as int, j as int, radius - 1, color,
                    alpha as int), width as int, height as int, a.x as int, a.y as int, i + 1,
                    radius - 1, -radius + 1, radius - 1, color, alpha as int),
            decreases radius - 1 - j,
        {
            img.over_signed(a.x + i, a.y + j, color, alpha);
            j = j + 1;
        }
        i = i + 1;
    }
}

/// One column of a filled disk: blend the color down the cells `[j, j_end]`
/// of column `x` that lie within the radius.
pub open spec fn circle_col_spec(
    data: Seq<Col3q>,
    width: int,
    height: int,
    x: int,
    y: int,
    i: int,
    j: int,
    j_end: int,
    radius: int,
    color: Col3q,
    alpha: int,
) -> Seq<Col3q>
    decreases j_end + 1 - j,
{
    if j > j_end {
        data
    } else {
        let data2 = if i * i + j * j <= radius * radius {
            over_cell_spec(data, width, height, x + i, y + j, color, alpha)
        } else {
            data
        };
        circle_col_spec(data2, width, height, x, y, i, j + 1, j_end, radius, color, alpha)
    }
}

/// The columns of a filled disk over `[i, i_end]`.
pub open spec fn circle_rows_spec(
    data: Seq<Col3q>,
    width: int,
    height: int,
    x: int,
    y: int,
    i: int,
    i_end: int,
    j0: int,
    j_end: int,
    radius: int,
    color: Col3q,
    alpha: int,
) -> Seq<Col3q>
    decreases i_end + 1 - i,
{
    if i > i_end {
        data
    } else {
        circle_rows_spec(circle_col_spec(data, width, height, x, y, i, j0, j_end, radius, color,
            alpha), width, height, x, y, i + 1, i_end, j0, j_end, radius, color, alpha)
    }
}

/// Blend a filled disk of the given radius centered on a pixel.
pub fn draw_point_circle(img: &mut Image, a: Vec2i, color: Col3q, alpha: i64, radius: i32)
    requires
        old(img).wf(),
        old(img).width <= 0x4000_0000,
        old(img).height <= 0x4000_0000,
        -0x1000_0000 <= a.x <= 0x1000_0000,
        -0x1000_0000 <= a.y <= 0x1000_0000,
        0 <= radius <= 30000,
    ensures
        final(img).width == old(img).width,
        final(img).height == old(img).height,
        final(img).data@ == circle_rows_spec(old(img).data@, old(img).width as int, old(
        img).height as int, a.x as int, a.y as int, -radius + 1, radius - 1, -radius + 1, radius
            - 1, radius as int, color, alpha as int),
        final(img).wf(),
{
    let width: usize = img.width;
    let height: usize = img.height;
    let mut i: i32 = -radius + 1;
    while i <= radius - 1
        invariant
            img.wf(),
            img.width == width,
            img.height == height,
            width <= 0x4000_0000,
            height <= 0x4000_0000,
            -0x1000_0000 <= a.x <= 0x1000_0000,
            -0x1000_0000 <= a.y <= 0x1000_0000,
            0 <= radius <= 30000,
            -radius + 1 <= i,
            i <= radius || i == -radius + 1,
            circle_rows_spec(old(img).data@, width as int, height as int, a.x as int, a.y as int,
                -radius + 1, radius - 1, -radius + 1, radius - 1, radius as int, color,
                alpha as int) == circle_rows_spec(img.data@, width as int, height as int,
                a.x as int, a.y as int, i as int, radius - 1, -radius + 1, radius - 1,
                radius as int, color, alpha as int),
        decreases radius - i,
    {
        let mut j: i32 = -radius + 1;
        while j <= radius - 1
            invariant
                img.wf(),
                img.width == width,
                img.height == height,
                width <= 0x4000_0000,
                height <= 0x4000_0000,
                -0x1000_0000 <= a.x <= 0x1000_0000,
                -0x1000_0000 <= a.y <= 0x1000_0000,
                0 <= radius <= 30000,
                -radius + 1 <= i <= radius - 1,
                -radius + 1 <= j <= radius,
                circle_rows_spec(old(img).data@, width as int, height as int, a.x as int,
                    a.y as int, -radius + 1, radius - 1, -radius + 1, radius - 1, radius as int,
                    color, alpha as int) == circle_rows_spec(circle_col_spec(img.data@,
                    width as int, height as int, a.x as int, a.y as int, i as int, j as int,
                    radius - 1, radius as int, color, alpha as int), width as int, height as int,
                    a.x as int, a.y as int, i + 1, radius - 1, -radius + 1, radius - 1,
                    radius as int, color, alpha as int),
            decreases radius - j,
        {
            proof {
                assert(-900000000 <= (i as int) * (i as int) <= 900000000 && -900000000 <= (
                j as int) * (j as int) <= 900000000 && -900000000 <= (radius as int) * (
                radius as int) <= 900000000) by (nonlinear_arith)
                    requires
                        -30000 <= i as int <= 30000,
                        -30000 <= j as int <= 30000,
                        0 <= radius as int <= 30000,
                ;
            }
            if i * i + j * j <= radius * radius {
                img.over_signed(a.x + i, a.y + j, color, alpha);
            }
            j = j + 1;
        }
        i = i + 1;
    }
}

/// The whole pixel at or below a fixed-point coordinate.
pub open spec fn floor_px_spec(x: int) -> int {
    x / (ONE as int)
}

/// The whole pixel at or above a fixed-point coordinate.
pub open spec fn ceil_px_spec(x: int) -> int {
    -((-x) / (ONE as int))
}

/// The floor of an in-range coordinate stays within the pixel range.
proof fn lemma_floor_px_bounds(x: int)
    requires
        q_ok(x),
    ensures
        -0x4000_0000 <= x / (ONE as int) <= 0x4000_0000,
{
    vstd::arithmetic::div_mod::lemma_div_is_ordered(x, crate::scalar::Q_MAX as int, ONE as int);
    vstd::arithmetic::div_mod::lemma_div_is_ordered(-(crate::scalar::Q_MAX as int), x, ONE as int);
}

/// Round a fixed-point coordinate down to a whole pixel.
pub fn floor_px(x: i64) -> (r: i32)
    requires
        q_ok(x as int),
    ensures
        r as int == floor_px_spec(x as int),
        -0x4000_0000 <= r <= 0x4000_0000,
{
    proof {
        lemma_floor_px_bounds(x as int);
    }
    x.checked_div_euclid(65536).unwrap() as i32
}

/// Round a fixed-point coordinate up to a whole pixel.
pub fn ceil_px(x: i64) -> (r: i32)
    requires
        q_ok(x as int),
    ensures
        r as int == ceil_px_spec(x as int),
        -0x4000_0000 <= r <= 0x4000_0000,
{
    proof {
        lemma_floor_px_bounds(-x as int);
    }
    -((-x).checked_div_euclid(65536).unwrap() as i32)
}

/// A horizontal span of blended pixels on row `y`, from `x` up to `x_end`
/// (inclusive or not).
pub open spec fn span_spec(
    data: Seq<Col3q>,
    width: int,
    height: int,
    x: int,
    x_end: int,
    y: int,
    color: Col3q,
    alpha: int,
    inclusive: bool,
) -> Seq<Col3q>
    decreases x_end + 1 - x,
{
    let done = if inclusive {
        x > x_end
    } else {
        x >= x_end
    };
    if done {
        data
    } else {
        span_spec(over_cell_spec(data, width, height, x, y, color, alpha), width, height, x + 1,
            x_end, y, color, alpha, inclusive)
    }
}

/// The rows of a scanline fill from `y` up to `y_end`: each row blends the
/// span between the rounded walker positions, then both walkers advance by
/// their edge slopes (saturating, like every scalar step).
pub open spec fn scan_rows_spec(
    data: Seq<Col3q>,
    width: int,
    height: int,
    y: int,
    y_end: int,
    xl: int,
    xr: int,
    sl: int,
    sr: int,
    color: Col3q,
    alpha: int,
    span_inclusive: bool,
    rows_inclusive: bool,
) -> Seq<Col3q>
    decreases y_end + 1 - y,
{
    let done = if rows_inclusive {
        y > y_end
    } else {
        y >= y_end
    };
    if done {
        data
    } else {
        let data2 = span_spec(data, width, height, floor_px_spec(xl), ceil_px_spec(xr), y, color,
            alpha, span_inclusive);
        scan_rows_spec(data2, width, height, y + 1, y_end, q_add_spec(xl, sl), q_add_spec(xr, sr),
            sl, sr, color, alpha, span_inclusive, rows_inclusive)
    }
}

/// A scanline walker position after a number of slope steps.
pub open spec fn walker_after_spec(x: int, s: int, n: nat) -> int
    decreases n,
{
    if n == 0 {
        x
    } else {
        walker_after_spec(q_add_spec(x, s), s, (n - 1) as nat)
    }
}

/// One more slope step extends the walker from the tail end.
proof fn lemma_walker_step(x: int, s: int, n: nat)
    ensures
        walker_after_spec(x, s, n + 1) == q_add_spec(walker_after_spec(x, s, n), s),
    decreases n,
{
    assert(walker_after_spec(x, s, n + 1) == walker_after_spec(q_add_spec(x, s), s, n));
    if n > 0 {
        lemma_walker_step(q_add_spec(x, s), s, (n - 1) as nat);
    }
}

/// The three corners sorted by row, as the scanline fill orders them.
pub open spec fn sorted_corners_spec(a: Vec2i, b: Vec2i, c: Vec2i) -> (Vec2i, Vec2i, Vec2i) {
    let (t1, m1) = if a.y > b.y {
        (b, a)
    } else {
        (a, b)
    };
    let (m2, b2) = if m1.y > c.y {
        (c, m1)
    } else {
        (m1, c)
    };
    let (t3, m3) = if t1.y > m2.y {
        (m2, t1)
    } else {
        (t1, m2)
    };
    (t3, m3, b2)
}

/// The scanline triangle fill: a flat-bottom top half walked with the
/// top-to-mid and top-to-bottom edge slopes, then a flat-top bottom half
/// with the two slopes into the bottom corner, the walkers carrying over.
pub open spec fn scanline_triangle_spec(
    data: Seq<Col3q>,
    width: int,
    height: int,
    a: Vec2i,
    b: Vec2i,
    c: Vec2i,
    color: Col3q,
    alpha: int,
) -> Seq<Col3q> {
    let (top, mid, bottom) = sorted_corners_spec(a, b, c);
    let sl1 = q_div_spec((mid.x - top.x) * ONE, (mid.y - top.y) * ONE);
    let sr1 = q_div_spec((bottom.x - top.x) * ONE, (bottom.y - top.y) * ONE);
    let (sl1o, sr1o) = if sl1 > sr1 {
        (sr1, sl1)
    } else {
        (sl1, sr1)
    };
    let x0 = (top.x as int) * ONE;
    let d1 = scan_rows_spec(data, width, height, top.y as int, mid.y as int, x0, x0, sl1o, sr1o,
        color, alpha, true, false);
    let steps = if mid.y >= top.y {
        (mid.y - top.y) as nat
    } else {
        0nat
    };
    let xl2 = walker_after_spec(x0, sl1o, steps);
    let xr2 = walker_after_spec(x0, sr1o, steps);
    let sl2 = q_div_spec((bottom.x - top.x) * ONE, (bottom.y - top.y) * ONE);
    let sr2 = q_div_spec((bottom.x - mid.x) * ONE, (bottom.y - mid.y) * ONE);
    let (sl2o, sr2o) = if sr2 > sl2 {
        (sr2, sl2)
    } else {
        (sl2, sr2)
    };
    scan_rows_spec(d1, width, height, mid.y as int, bottom.y as int, xl2, xr2, sl2o, sr2o, color,
        alpha, false, true)
}

/// Fill a triangle by scanline conversion, blending each covered pixel.
pub fn scanline_triangle(
    img: &mut Image,
    a: Vec2i,
    b: Vec2i,
    c: Vec2i,
    color: Col3q,
    alpha: i64,
)
    requires
        old(img).wf(),
        old(img).width <= 0x4000_0000,
        old(img).height <= 0x4000_0000,
        -0x1000_0000 <= a.x <= 0x1000_0000,
        -0x1000_0000 <= a.y <= 0x1000_0000,
        -0x1000_0000 <= b.x <= 0x1000_0000,
        -0x1000_0000 <= b.y <= 0x1000_0000,
        -0x1000_0000 <= c.x <= 0x1000_0000,
        -0x1000_0000 <= c.y <= 0x1000_0000,
    ensures
        final(img).width == old(img).width,
        final(img).height == old(img).height,
        final(img).data@ == scanline_triangle_spec(old(img).data@, old(img).width as int, old(
        img).height as int, a, b, c, color, alpha as int),
        final(img).wf(),
{
    let width: usize = img.width;
    let height: usize = img.height;
    let mut top_point: Vec2i = a;
    let mut mid_point: Vec2i = b;
    let mut bottom_point: Vec2i = c;
    if top_point.y > mid_point.y {
        let t = top_point;
        top_point = mid_point;
        mid_point = t;
    }
    if mid_point.y > bottom_point.y {
        let t = bottom_point;
        bottom_point = mid_point;
        mid_point = t;
    }
    if top_point.y > mid_point.y {
        let t = top_point;
        top_point = mid_point;
        mid_point = t;
    }
    proof {
        assert((top_point, mid_point, bottom_point) == sorted_corners_spec(a, b, c));
    }
    // Top flat-bottom half.
    let mut slope_left: i64 = q_div(
        ((mid_point.x - top_point.x) as i64) * ONE,
        ((mid_point.y - top_point.y) as i64) * ONE,
    );
    let mut slope_right: i64 = q_div(
        ((bottom_point.x - top_point.x) as i64) * ONE,
        ((bottom_point.y - top_point.y) as i64) * ONE,
    );
    if slope_left > slope_right {
        let t = slope_left;
        slope_left = slope_right;
        slope_right = t;
    }
    let mut x_left: i64 = (top_point.x as i64) * ONE;
    let mut x_right: i64 = (top_point.x as i64) * ONE;
    let ghost x0 = x_left as int;
    let mut y: i32 = top_point.y;
    let ghost mid_data = scan_rows_spec(old(img).data@, width as int, height as int,
        top_point.y as int, mid_point.y as int, x0, x0, slope_left as int, slope_right as int,
        color, alpha as int, true, false);
    while y < mid_point.y
        invariant
            img.wf(),
            img.width == width,
            img.height == height,
            width <= 0x4000_0000,
            height <= 0x4000_0000,
            top_point.y <= y <= mid_point.y,
            -0x1000_0000 <= mid_point.y <= 0x1000_0000,
            q_ok(x_left as int),
            q_ok(x_right as int),
            x_left as int == walker_after_spec(x0, slope_left as int, (y - top_point.y) as nat),
            x_right as int == walker_after_spec(x0, slope_right as int, (y - top_point.y) as nat),
            mid_data == scan_rows_spec(img.data@, width as int, height as int, y as int,
                mid_point.y as int, x_left as int, x_right as int, slope_left as int,
                slope_right as int, color, alpha as int, true, false),
        decreases mid_point.y - y,
    {
        let xi_left: i32 = floor_px(x_left);
        let xi_right: i32 = ceil_px(x_right);
        let ghost row_entry = img.data@;
        let mut x: i32 = xi_left;
        while x <= xi_right
            invariant
                img.wf(),
                img.width == width,
                img.height == height,
                xi_left <= x,
                x <= xi_right + 1 || x == xi_left,
                -0x4000_0000 <= xi_right <= 0x4000_0000,
                span_spec(row_entry, width as int, height as int, xi_left as int,
                    xi_right as int, y as int, color, alpha as int, true) == span_spec(img.data@,
                    width as int, height as int, x as int, xi_right as int, y as int, color,
                    alpha as int, true),
            decreases xi_right + 1 - x,
        {
            img.over_signed(x, y, color, alpha);
            x = x + 1;
        }
        proof {
            lemma_walker_step(x0, slope_left as int, (y - top_point.y) as nat);
            lemma_walker_step(x0, slope_right as int, (y - top_point.y) as nat);
        }
        x_left = q_add(x_left, slope_left);
        x_right = q_add(x_right, slope_right);
        y = y + 1;
    }
    // Bottom flat-top half; the walkers carry over from the top half.
    let mut slope_left2: i64 = q_div(
        ((bottom_point.x - top_point.x) as i64) * ONE,
        ((bottom_point.y - top_point.y) as i64) * ONE,
    );
    let mut slope_right2: i64 = q_div(
        ((bottom_point.x - mid_point.x) as i64) * ONE,
        ((bottom_point.y - mid_point.y) as i64) * ONE,
    );
    if slope_right2 > slope_left2 {
        let t = slope_left2;
        slope_left2 = slope_right2;
        slope_right2 = t;
    }
    let ghost end_data = scan_rows_spec(mid_data, width as int, height as int, mid_point.y as int,
        bottom_point.y as int, x_left as int, x_right as int, slope_left2 as int,
        slope_right2 as int, color, alpha as int, false, true);
    proof {
        assert(end_data == scanline_triangle_spec(old(img).data@, width as int, height as int, a,
            b, c, color, alpha as int));
        assert(mid_data == img.data@);
    }
    while y <= bottom_point.y
        invariant
            img.wf(),
            img.width == width,
            img.height == height,
            width <= 0x4000_0000,
            height <= 0x4000_0000,
            mid_point.y <= y <= bottom_point.y + 1,
            -0x1000_0000 <= bottom_point.y <= 0x1000_0000,
            q_ok(x_left as int),
            q_ok(x_right as int),
            end_data == scan_rows_spec(img.data@, width as int, height as int, y as int,
                bottom_point.y as int, x_left as int, x_right as int, slope_left2 as int,
                slope_right2 as int, color, alpha as int, false, true),
        decreases bottom_point.y + 1 - y,
    {
        let xi_left: i32 = floor_px(x_left);
        let xi_right: i32 = ceil_px(x_right);
        let ghost row_entry = img.data@;
        let mut x: i32 = xi_left;
        while x < xi_right
            invariant
                img.wf(),
                img.width == width,
                img.height == height,
                xi_left <= x,
                x <= xi_right || x == xi_left,
                -0x4000_0000 <= xi_right <= 0x4000_0000,
                span_spec(row_entry, width as int, height as int, xi_left as int,
                    xi_right as int, y as int, color, alpha as int, false) == span_spec(
                    img.data@, width as int, height as int, x as int, xi_right as int, y as int,
                    color, alpha as int, false),
            decreases xi_right - x,
        {
            img.over_signed(x, y, color, alpha);
            x = x + 1;
        }
        x_left = q_add(x_left, slope_left2);
        x_right = q_add(x_right, slope_right2);
        y = y + 1;
    }
}

/// One antialiased column step: the accumulated crossing coordinate is
/// split into a whole pixel and a remainder, and the color is blended over
/// the two neighboring pixels with complementary weights.
pub open spec fn antialiased_pair_spec(
    data: Seq<Col3q>,
    width: int,
    height: int,
    other: int,
    vertical: bool,
    color: Col3q,
    acc: int,
) -> Seq<Col3q> {
    let ipix = i32_sat_spec(tdiv_spec(acc, ONE as int));
    let remainder = acc - ipix * ONE;
    let first = if vertical {
        over_cell_spec(data, width, height, ipix, other, color, q_sub_spec(ONE as int, remainder))
    } else {
        over_cell_spec(data, width, height, other, ipix, color, q_sub_spec(ONE as int, remainder))
    };
    if vertical {
        over_cell_spec(first, width, height, ipix + 1, other, color, remainder)
    } else {
        over_cell_spec(first, width, height, other, ipix + 1, color, remainder)
    }
}

/// The pixel data after walking an antialiased line: one step per major
/// coordinate from `major` to `end_major`, with the minor crossing
/// coordinate accumulated in fixed point.
pub open spec fn antialiased_steps_spec(
    data: Seq<Col3q>,
    width: int,
    height: int,
    major: int,
    end_major: int,
    acc: int,
    m: int,
    vertical: bool,
    color: Col3q,
) -> Seq<Col3q>
    decreases end_major + 1 - major,
{
    if major > end_major {
        data
    } else {
        let data2 = antialiased_pair_spec(data, width, height, major, vertical, color, acc);
        antialiased_steps_spec(data2, width, height, major + 1, end_major, q_add_spec(acc, m), m,
            vertical, color)
    }
}

/// A mostly-vertical antialiased line from `start` down to `end`.
pub open spec fn draw_vertical_line_antialiased_spec(
    data: Seq<Col3q>,
    width: int,
    height: int,
    start: Vec2i,
    end: Vec2i,
    color: Col3q,
) -> Seq<Col3q> {
    let m = q_div_spec((end.x - start.x) * ONE, (end.y - start.y) * ONE);
    antialiased_steps_spec(data, width, height, start.y as int, end.y as int, (start.x as int)
        * ONE, m, true, color)
}

/// Walk a mostly-vertical line downward, blending the color over the two
/// pixels astride the true crossing on each row.
pub fn draw_vertical_line_antialiased(img: &mut Image, start: Vec2i, end: Vec2i, color: Col3q)
    requires
        old(img).wf(),
        old(img).width <= 0x4000_0000,
        old(img).height <= 0x4000_0000,
        -0x1000_0000 <= start.x <= 0x1000_0000,
        -0x1000_0000 <= start.y <= 0x1000_0000,
        -0x1000_0000 <= end.x <= 0x1000_0000,
        -0x1000_0000 <= end.y <= 0x1000_0000,
        start.y <= end.y,
    ensures
        final(img).width == old(img).width,
        final(img).height == old(img).height,
        final(img).data@ == draw_vertical_line_antialiased_spec(old(img).data@, old(
        img).width as int, old(img).height as int, start, end, color),
        final(img).wf(),
{
    let width: usize = img.width;
    let height: usize = img.height;
    let dx: i64 = (end.x - start.x) as i64;
    let dy: i64 = (end.y - start.y) as i64;
    let m: i64 = q_div(dx * ONE, dy * ONE);
    let mut x: i64 = (start.x as i64) * ONE;
    let mut iy: i32 = start.y;
    while iy <= end.y
        invariant
            img.wf(),
            img.width == width,
            img.height == height,
            width <= 0x4000_0000,
            height <= 0x4000_0000,
            start.y <= iy <= end.y + 1,
            q_ok(m as int),
            q_ok(x as int),
            -0x1000_0000 <= start.x <= 0x1000_0000,
            -0x1000_0000 <= end.y <= 0x1000_0000,
            draw_vertical_line_antialiased_spec(old(img).data@, width as int, height as int,
                start, end, color) == antialiased_steps_spec(img.data@, width as int,
                height as int, iy as int, end.y as int, x as int, m as int, true, color),
        decreases end.y + 1 - iy,
    {
        let ix: i32 = q_to_i32(x);
        let remainder: i64 = x - (ix as i64) * ONE;
        img.over_signed(ix, iy, color, q_sub(ONE, remainder));
        img.over_signed(ix + 1, iy, color, remainder);
        x = q_add(x, m);
        iy = iy + 1;
    }
}

/// A mostly-horizontal antialiased line from `start` across to `end`.
pub open spec fn draw_horizontal_line_antialiased_spec(
    data: Seq<Col3q>,
    width: int,
    height: int,
    start: Vec2i,
    end: Vec2i,
    color: Col3q,
) -> Seq<Col3q> {
    let m = q_div_spec((end.y - start.y) * ONE, (end.x - start.x) * ONE);
    antialiased_steps_spec(data, width, height, start.x as int, end.x as int, (start.y as int)
        * ONE, m, false, color)
}

/// Walk a mostly-horizontal line rightward, blending the color over the two
/// pixels astride the true crossing in each column.
pub fn draw_horizontal_line_antialiased(img: &mut Image, start: Vec2i, end: Vec2i, color: Col3q)
    requires
        old(img).wf(),
        old(img).width <= 0x4000_0000,
        old(img).height <= 0x4000_0000,
        -0x1000_0000 <= start.x <= 0x1000_0000,
        -0x1000_0000 <= start.y <= 0x1000_0000,
        -0x1000_0000 <= end.x <= 0x1000_0000,
        -0x1000_0000 <= end.y <= 0x1000_0000,
        start.x <= end.x,
    ensures
        final(img).width == old(img).width,
        final(img).height == old(img).height,
        final(img).data@ == draw_horizontal_line_antialiased_spec(old(img).data@, old(
        img).width as int, old(img).height as int, start, end, color),
        final(img).wf(),
{
    let width: usize = img.width;
    let height: usize = img.height;
    let dx: i64 = (end.x - start.x) as i64;
    let dy: i64 = (end.y - start.y) as i64;
    let m: i64 = q_div(dy * ONE, dx * ONE);
    let mut y: i64 = (start.y as i64) * ONE;
    let mut ix: i32 = start.x;
    while ix <= end.x
        invariant
            img.wf(),
            img.width == width,
            img.height == height,
            width <= 0x4000_0000,
            height <= 0x4000_0000,
            start.x <= ix <= end.x + 1,
            q_ok(m as int),
            q_ok(y as int),
            -0x1000_0000 <= start.y <= 0x1000_0000,
            -0x1000_0000 <= end.x <= 0x1000_0000,
            draw_horizontal_line_antialiased_spec(old(img).data@, width as int, height as int,
                start, end, color) == antialiased_steps_spec(img.data@, width as int,
                height as int, ix as int, end.x as int, y as int, m as int, false, color),
        decreases end.x + 1 - ix,
    {
        let iy: i32 = q_to_i32(y);
        let remainder: i64 = y - (iy as i64) * ONE;
        img.over_signed(ix, iy, color, q_sub(ONE, remainder));
        img.over_signed(ix, iy + 1, color, remainder);
        y = q_add(y, m);
        ix = ix + 1;
    }
}

/// The antialiased-line dispatch: walk along whichever axis the line runs
/// farther, with the endpoints ordered so the walk moves forward.
pub open spec fn draw_line_antialiased_spec(
    data: Seq<Col3q>,
    width: int,
    height: int,
    start: Vec2i,
    end: Vec2i,
    color: Col3q,
) -> Seq<Col3q> {
    let adx = if end.x >= start.x {
        end.x - start.x
    } else {
        start.x - end.x
    };
    let ady = if end.y >= start.y {
        end.y - start.y
    } else {
        start.y - end.y
    };
    if ady > adx {
        if start.y < end.y {
            draw_vertical_line_antialiased_spec(data, width, height, start, end, color)
        } else {
            draw_vertical_line_antialiased_spec(data, width, height, end, start, color)
        }
    } else {
        if start.x < end.x {
            draw_horizontal_line_antialiased_spec(data, width, height, start, end, color)
        } else {
            draw_horizontal_line_antialiased_spec(data, width, height, end, start, color)
        }
    }
}

/// Draw an antialiased line segment between two pixels.
pub fn draw_line_antialiased(img: &mut Image, start: Vec2i, end: Vec2i, color: Col3q)
    requires
        old(img).wf(),
        old(img).width <= 0x4000_0000,
        old(img).height <= 0x4000_0000,
        -0x1000_0000 <= start.x <= 0x1000_0000,
        -0x1000_0000 <= start.y <= 0x1000_0000,
        -0x1000_0000 <= end.x <= 0x1000_0000,
        -0x1000_0000 <= end.y <= 0x1000_0000,
    ensures
        final(img).width == old(img).width,
        final(img).height == old(img).height,
        final(img).data@ == draw_line_antialiased_spec(old(img).data@, old(img).width as int,
            old(img).height as int, start, end, color),
        final(img).wf(),
{
    let adx: i32 = if end.x >= start.x {
        end.x - start.x
    } else {
        start.x - end.x
    };
    let ady: i32 = if end.y >= start.y {
        end.y - start.y
    } else {
        start.y - end.y
    };
    if ady > adx {
        if start.y < end.y {
            draw_vertical_line_antialiased(img, start, end, color);
        } else {
            draw_vertical_line_antialiased(img, end, start, color);
        }
    } else {
        if start.x < end.x {
            draw_horizontal_line_antialiased(img, start, end, color);
        } else {
            draw_horizontal_line_antialiased(img, end, start, color);
        }
    }
}

} // verus!
