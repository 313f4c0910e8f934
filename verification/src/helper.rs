//! Rasterization primitives: a bounds-checked pixel write into the flat
//! row-major pixel buffer, the eight-way symmetric point plot, and the
//! midpoint-style arc sweep built on it.
//!
//! Every drawing function is clipping, never failing: a coordinate off the
//! canvas is silently dropped. Negative coordinates are rejected before any
//! cast to an unsigned buffer index.

use vstd::prelude::*;

verus! {

/// Width of the pixel buffer, in pixels.
pub const WIDTH: usize = 1512;

/// Height of the pixel buffer, in pixels.
pub const HEIGHT: usize = 720;

/// Pixels per buffer cell along a row.
pub const PITCH: usize = 1;

/// The row-major buffer index of screen coordinate `(x, y)`.
pub open spec fn pixel_index(x: int, y: int) -> int {
    y * (WIDTH as int) + x
}

/// Whether `(x, y)` lies on the canvas.
pub open spec fn on_canvas(x: int, y: int) -> bool {
    0 <= x < WIDTH && 0 <= y < HEIGHT
}

/// One clipped pixel write: the buffer with `(x, y)` set to `color` when the
/// coordinate lies on the canvas, and the buffer unchanged otherwise.
pub open spec fn plotted(buf: Seq<u32>, x: int, y: int, color: u32) -> Seq<u32> {
    if on_canvas(x, y) {
        buf.update(pixel_index(x, y), color)
    } else {
        buf
    }
}

/// Writing the same pixel in the same color twice is one write.
pub proof fn lemma_plotted_idempotent(buf: Seq<u32>, x: int, y: int, color: u32)
    requires
        buf.len() == WIDTH * HEIGHT,
    ensures
        plotted(plotted(buf, x, y, color), x, y, color) == plotted(buf, x, y, color),
{
    if on_canvas(x, y) {
        assert(plotted(plotted(buf, x, y, color), x, y, color) =~= plotted(buf, x, y, color));
    }
}

/// A cell already holding `color` still holds it after any clipped write of
/// the same `color`.
pub proof fn lemma_plotted_keeps_color(buf: Seq<u32>, x: int, y: int, color: u32, i: int)
    requires
        buf.len() == WIDTH * HEIGHT,
        0 <= i < buf.len(),
        buf[i] == color,
    ensures
        plotted(buf, x, y, color)[i] == color,
{
}

/// Writes `color` into the flat buffer at row-major index `y * WIDTH + x` iff
/// `(x, y)` lies on the canvas; silently does nothing otherwise.
pub fn plot_pixel(buffer: &mut Vec<u32>, x: usize, y: usize, color: u32)
    requires
        old(buffer)@.len() == WIDTH * HEIGHT,
    ensures
        final(buffer)@ == plotted(old(buffer)@, x as int, y as int, color),
        x < WIDTH && y < HEIGHT ==> final(buffer)@ == old(buffer)@.update(
            pixel_index(x as int, y as int),
            color,
        ),
        x >= WIDTH || y >= HEIGHT ==> final(buffer)@ == old(buffer)@,
{
    if x > WIDTH - 1 || y > HEIGHT - 1 {
        return ;
    }
    let offset_into_line = PITCH * x;
    buffer[(y * WIDTH * PITCH) + offset_into_line] = color;
}

/// A clipped pixel write for signed coordinates: a negative coordinate is off
/// the canvas and is rejected before the cast to an unsigned index.
pub fn plot_pixel_signed(buffer: &mut Vec<u32>, x: i64, y: i64, color: u32)
    requires
        old(buffer)@.len() == WIDTH * HEIGHT,
    ensures
        final(buffer)@ == plotted(old(buffer)@, x as int, y as int, color),
{
    if x >= 0 && y >= 0 && x < WIDTH as i64 && y < HEIGHT as i64 {
        plot_pixel(buffer, x as usize, y as usize, color);
    }
}

/// The buffer after plotting the symmetric images of offset `(x0, y0)` around
/// center `(cx, cy)`: two points reflected across the diagonal for each
/// enabled quadrant.
pub open spec fn sym_plotted(
    buf: Seq<u32>,
    x0: int,
    y0: int,
    cx: int,
    cy: int,
    color: u32,
    top_right: bool,
    top_left: bool,
    bottom_right: bool,
    bottom_left: bool,
) -> Seq<u32> {
    let b1 = if top_left {
        plotted(plotted(buf, cx - x0, cy - y0, color), cx - y0, cy - x0, color)
    } else {
        buf
    };
    let b2 = if bottom_right {
        plotted(plotted(b1, cx + y0, cy + x0, color), cx + x0, cy + y0, color)
    } else {
        b1
    };
    let b3 = if bottom_left {
        plotted(plotted(b2, cx - x0, cy + y0, color), cx - y0, cy + x0, color)
    } else {
        b2
    };
    if top_right {
        plotted(plotted(b3, cx + y0, cy - x0, color), cx + x0, cy - y0, color)
    } else {
        b3
    }
}

/// Given an offset `(x0, y0)` from a circle sweep and a center `(cx, cy)`,
/// plots the corresponding points in each of the four quadrants whose flag is
/// set, two symmetric points per enabled quadrant.
pub fn symetric_pixel(
    frame: &mut Vec<u32>,
    x0: i32,
    y0: i32,
    cx: i32,
    cy: i32,
    color: u32,
    top_right: bool,
    top_left: bool,
    bottom_right: bool,
    bottom_left: bool,
)
    requires
        old(frame)@.len() == WIDTH * HEIGHT,
    ensures
        final(frame)@ == sym_plotted(
            old(frame)@,
            x0 as int,
            y0 as int,
            cx as int,
            cy as int,
            color,
            top_right,
            top_left,
            bottom_right,
            bottom_left,
        ),
{
    if top_left {
        plot_pixel_signed(frame, cx as i64 - x0 as i64, cy as i64 - y0 as i64, color);
        plot_pixel_signed(frame, cx as i64 - y0 as i64, cy as i64 - x0 as i64, color);
    }
    if bottom_right {
        plot_pixel_signed(frame, cx as i64 + y0 as i64, cy as i64 + x0 as i64, color);
        plot_pixel_signed(frame, cx as i64 + x0 as i64, cy as i64 + y0 as i64, color);
    }
    if bottom_left {
        plot_pixel_signed(frame, cx as i64 - x0 as i64, cy as i64 + y0 as i64, color);
        plot_pixel_signed(frame, cx as i64 - y0 as i64, cy as i64 + x0 as i64, color);
    }
    if top_right {
        plot_pixel_signed(frame, cx as i64 + y0 as i64, cy as i64 - x0 as i64, color);
        plot_pixel_signed(frame, cx as i64 + x0 as i64, cy as i64 - y0 as i64, color);
    }
}

/// The buffer after the midpoint sweep from offset state `(x, y)` with error
/// numerator `t1` (the running error term scaled by 16, so one step of the
/// sweep adds `16 * y` and crossing zero subtracts `16 * x`): each state
/// plots its symmetric images, then the sweep continues until `x < y`.
pub open spec fn arc_swept(
    buf: Seq<u32>,
    x: int,
    y: int,
    t1: int,
    x0: int,
    y0: int,
    color: u32,
    top_right: bool,
    top_left: bool,
    bottom_right: bool,
    bottom_left: bool,
) -> Seq<u32>
    decreases x - y + 2,
{
    if x < y {
        buf
    } else {
        let b1 = sym_plotted(
            buf,
            x,
            y,
            x0,
            y0,
            color,
            top_right,
            top_left,
            bottom_right,
            bottom_left,
        );
        let yn = y + 1;
        let t1n = t1 + 16 * yn;
        let t2 = t1n - 16 * x;
        if t2 >= 0 {
            arc_swept(
                b1,
                x - 1,
                yn,
                t2,
                x0,
                y0,
                color,
                top_right,
                top_left,
                bottom_right,
                bottom_left,
            )
        } else {
            arc_swept(
                b1,
                x,
                yn,
                t1n,
                x0,
                y0,
                color,
                top_right,
                top_left,
                bottom_right,
                bottom_left,
            )
        }
    }
}

/// A midpoint-circle-style sweep: starting at offset `(radius, 0)` it
/// increments `y` and decrements `x` as the error term crosses zero, plotting
/// the symmetric images of every offset until `x < y`. The error term starts
/// at `radius / 16` and is carried here as an exact numerator scaled by 16.
#[verifier::rlimit(50)]
pub fn plot_arc(
    frame: &mut Vec<u32>,
    x0: i32,
    y0: i32,
    radius: i32,
    color: u32,
    top_right: bool,
    top_left: bool,
    bottom_right: bool,
    bottom_left: bool,
)
    requires
        old(frame)@.len() == WIDTH * HEIGHT,
        0 <= radius,
    ensures
        final(frame)@ == arc_swept(
            old(frame)@,
            radius as int,
            0,
            radius as int,
            x0 as int,
            y0 as int,
            color,
            top_right,
            top_left,
            bottom_right,
            bottom_left,
        ),
{
    let mut t1: i64 = radius as i64;
    let mut x: i64 = radius as i64;
    let mut y: i64 = 0;

    while !(x < y)
        invariant
            frame@.len() == WIDTH * HEIGHT,
            0 <= y,
            y <= x + 2,
            x <= radius,
            0 <= t1,
            t1 <= 16 * (radius as i64) + 16 * y + 32,
            arc_swept(
                old(frame)@,
                radius as int,
                0,
                radius as int,
                x0 as int,
                y0 as int,
                color,
                top_right,
                top_left,
                bottom_right,
                bottom_left,
            ) == arc_swept(
                frame@,
                x as int,
                y as int,
                t1 as int,
                x0 as int,
                y0 as int,
                color,
                top_right,
                top_left,
                bottom_right,
                bottom_left,
            ),
        decreases x - y + 2,
    {
        symetric_pixel(
            frame,
            x as i32,
            y as i32,
            x0,
            y0,
            color,
            top_right,
            top_left,
            bottom_right,
            bottom_left,
        );

        y = y + 1;
        t1 = t1 + 16 * y;
        let t2: i64 = t1 - 16 * x;
        if t2 >= 0 {
            t1 = t2;
            x = x - 1;
        }
    }
}

} // verus!


