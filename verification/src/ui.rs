//! Integer line drawing and the rectangle outline built from it.
//!
//! `dda_line` is a direction-sign/error-term stepping line plot: from the
//! start point it walks toward the end point, stepping each axis when the
//! running error term crosses its threshold, and plots every visited pixel,
//! start and end points included.

use vstd::prelude::*;

use crate::helper::{
    plotted, on_canvas, pixel_index, plot_pixel_signed, WIDTH, HEIGHT,
};

verus! {

/// Absolute difference of two coordinates.
pub open spec fn line_delta(a: int, b: int) -> int {
    if b > a {
        b - a
    } else {
        a - b
    }
}

/// The step direction from `a` toward `b` (`-1` when they are equal).
pub open spec fn line_sign(a: int, b: int) -> int {
    if a < b {
        1
    } else {
        -1
    }
}

/// The initial error term of the line walk.
pub open spec fn line_err0(dx: int, dy: int) -> int {
    if dx > dy {
        dx / 2
    } else {
        -(dy / 2)
    }
}

/// The point `steps` steps from `start` in direction `sign`.
pub open spec fn moved(start: int, steps: int, sign: int) -> int {
    if sign == 1 {
        start + steps
    } else {
        start - steps
    }
}

/// The buffer after the line walk from `(cx, cy)` to `(x1, y1)` with error
/// term `err`: the current point is plotted, then each axis steps when the
/// error term crosses its threshold, until the end point has been plotted.
/// `fuel` bounds the recursion; the walk reaches the end point within
/// `dx + dy` steps, so the fuel chosen by `line_painted` never runs out.
pub open spec fn line_traced(
    buf: Seq<u32>,
    cx: int,
    cy: int,
    x1: int,
    y1: int,
    err: int,
    dx: int,
    dy: int,
    sx: int,
    sy: int,
    color: u32,
    fuel: nat,
) -> Seq<u32>
    decreases fuel,
{
    let b1 = plotted(buf, cx, cy, color);
    if cx == x1 && cy == y1 {
        b1
    } else if fuel == 0 {
        b1
    } else {
        let e2 = err;
        let err1 = if e2 > -dx {
            err - dy
        } else {
            err
        };
        let cxn = if e2 > -dx {
            cx + sx
        } else {
            cx
        };
        let err2 = if e2 < dy {
            err1 + dx
        } else {
            err1
        };
        let cyn = if e2 < dy {
            cy + sy
        } else {
            cy
        };
        line_traced(b1, cxn, cyn, x1, y1, err2, dx, dy, sx, sy, color, (fuel - 1) as nat)
    }
}

/// The buffer after drawing the line from `(x0, y0)` to `(x1, y1)`.
pub open spec fn line_painted(
    buf: Seq<u32>,
    x0: int,
    y0: int,
    x1: int,
    y1: int,
    color: u32,
) -> Seq<u32> {
    let dx = line_delta(x0, x1);
    let dy = line_delta(y0, y1);
    line_traced(
        buf,
        x0,
        y0,
        x1,
        y1,
        line_err0(dx, dy),
        dx,
        dy,
        line_sign(x0, x1),
        line_sign(y0, y1),
        color,
        (dx + dy + 1) as nat,
    )
}

/// A clipped write of a cell that already holds `color` changes nothing.
proof fn lemma_plotted_absorbed(buf: Seq<u32>, x: int, y: int, color: u32)
    requires
        buf.len() == WIDTH * HEIGHT,
        on_canvas(x, y) ==> buf[pixel_index(x, y)] == color,
    ensures
        plotted(buf, x, y, color) == buf,
{
    if on_canvas(x, y) {
        assert(plotted(buf, x, y, color) =~= buf);
    }
}

/// The line walk plots its current point first, so walking from a buffer that
/// already took that clipped write gives the same result.
proof fn lemma_line_traced_absorb(
    buf: Seq<u32>,
    cx: int,
    cy: int,
    x1: int,
    y1: int,
    err: int,
    dx: int,
    dy: int,
    sx: int,
    sy: int,
    color: u32,
    fuel: nat,
)
    requires
        buf.len() == WIDTH * HEIGHT,
    ensures
        line_traced(plotted(buf, cx, cy, color), cx, cy, x1, y1, err, dx, dy, sx, sy, color, fuel)
            == line_traced(buf, cx, cy, x1, y1, err, dx, dy, sx, sy, color, fuel),
{
    crate::helper::lemma_plotted_idempotent(buf, cx, cy, color);
}

proof fn lemma_mul_succ(a: int, d: int)
    by (nonlinear_arith)
    ensures
        (a + 1) * d == a * d + d,
{
}

proof fn lemma_mul_mono(a: int, b: int, d: int)
    by (nonlinear_arith)
    requires
        a <= b,
        d >= 0,
    ensures
        a * d <= b * d,
{
}

/// Plots every pixel of the line from `(x0, y0)` to `(x1, y1)` inclusive,
/// stepping by direction signs and a running error term; both end points are
/// always plotted. Coordinates off the canvas are clipped pixel by pixel.
pub fn dda_line(buffer: &mut Vec<u32>, x0: i64, y0: i64, x1: i64, y1: i64, color: u32)
    requires
        old(buffer)@.len() == WIDTH * HEIGHT,
        -0x1000_0000_0000_0000 <= x0 <= 0x1000_0000_0000_0000,
        -0x1000_0000_0000_0000 <= y0 <= 0x1000_0000_0000_0000,
        -0x1000_0000_0000_0000 <= x1 <= 0x1000_0000_0000_0000,
        -0x1000_0000_0000_0000 <= y1 <= 0x1000_0000_0000_0000,
    ensures
        final(buffer)@.len() == old(buffer)@.len(),
        final(buffer)@ == line_painted(
            old(buffer)@,
            x0 as int,
            y0 as int,
            x1 as int,
            y1 as int,
            color,
        ),
        on_canvas(x0 as int, y0 as int) ==> final(buffer)@[pixel_index(
            x0 as int,
            y0 as int,
        )] == color,
        on_canvas(x1 as int, y1 as int) ==> final(buffer)@[pixel_index(
            x1 as int,
            y1 as int,
        )] == color,
{
    let ghost buf0: Seq<u32> = buffer@;

    let mut cx: i64 = x0;
    let mut cy: i64 = y0;

    let dx: i64 = if x1 > cx {
        x1 - cx
    } else {
        cx - x1
    };
    let dy: i64 = if y1 > cy {
        y1 - cy
    } else {
        cy - y1
    };
    let sx: i64 = if cx < x1 {
        1
    } else {
        -1
    };
    let sy: i64 = if cy < y1 {
        1
    } else {
        -1
    };
    let mut err: i64 = if dx > dy {
        dx / 2
    } else {
        -(dy / 2)
    };

    let ghost mut a: int = 0;
    let ghost mut b: int = 0;

    plot_pixel_signed(buffer, cx, cy, color);
    proof {
        lemma_line_traced_absorb(
            buf0,
            x0 as int,
            y0 as int,
            x1 as int,
            y1 as int,
            err as int,
            dx as int,
            dy as int,
            sx as int,
            sy as int,
            color,
            (dx + dy + 1) as nat,
        );
    }

    while !(cx == x1 && cy == y1)
        invariant
            buffer@.len() == WIDTH * HEIGHT,
            buf0.len() == WIDTH * HEIGHT,
            -0x1000_0000_0000_0000 <= x0 <= 0x1000_0000_0000_0000,
            -0x1000_0000_0000_0000 <= y0 <= 0x1000_0000_0000_0000,
            -0x1000_0000_0000_0000 <= x1 <= 0x1000_0000_0000_0000,
            -0x1000_0000_0000_0000 <= y1 <= 0x1000_0000_0000_0000,
            dx == line_delta(x0 as int, x1 as int),
            dy == line_delta(y0 as int, y1 as int),
            sx == line_sign(x0 as int, x1 as int),
            sy == line_sign(y0 as int, y1 as int),
            0 <= a <= dx,
            0 <= b <= dy,
            cx == moved(x0 as int, a, sx as int),
            cy == moved(y0 as int, b, sy as int),
            x1 == moved(x0 as int, dx as int, sx as int),
            y1 == moved(y0 as int, dy as int, sy as int),
            err == line_err0(dx as int, dy as int) - a * dy + b * dx,
            dx > dy ==> 0 <= err <= dx - 1,
            dx <= dy && dy > 0 ==> 1 - dy <= err <= 0,
            dx <= dy && dy == 0 ==> a == 0 && b == 0,
            line_painted(buf0, x0 as int, y0 as int, x1 as int, y1 as int, color)
                == line_traced(
                buffer@,
                cx as int,
                cy as int,
                x1 as int,
                y1 as int,
                err as int,
                dx as int,
                dy as int,
                sx as int,
                sy as int,
                color,
                ((dx + dy + 1) - (if dx > dy {
                    a
                } else {
                    b
                })) as nat,
            ),
            on_canvas(x0 as int, y0 as int) ==> buffer@[pixel_index(x0 as int, y0 as int)]
                == color,
            on_canvas(cx as int, cy as int) ==> buffer@[pixel_index(cx as int, cy as int)]
                == color,
        decreases dx - a + dy - b,
    {
        proof {
            if dx <= dy && dy == 0 {
                // then dx == 0 and the walk is already at the end point
                assert(cx == x1 && cy == y1);
                assert(false);
            }
            if dx > dy {
                // x-major: were the x axis done, the band would force the y
                // axis done as well, and the loop would have exited
                if a == dx {
                    if b <= dy - 1 {
                        lemma_mul_mono(b, dy - 1, dx as int);
                        lemma_mul_succ(dy - 1, dx as int);
                        assert(err <= line_err0(dx as int, dy as int) - dx * dy + (dy - 1) * dx);
                        assert(dx * dy == dy * dx) by (nonlinear_arith);
                        assert(err <= line_err0(dx as int, dy as int) - dx);
                        assert(false);
                    }
                    assert(b == dy);
                    assert(cx == x1 && cy == y1);
                    assert(false);
                }
                assert(a < dx);
            } else {
                // y-major: mirrored argument
                if b == dy {
                    if a <= dx - 1 {
                        lemma_mul_mono(a, dx - 1, dy as int);
                        lemma_mul_succ(dx - 1, dy as int);
                        assert(dy * dx == dx * dy) by (nonlinear_arith);
                        assert(err >= line_err0(dx as int, dy as int) + dy);
                        assert(false);
                    }
                    assert(a == dx);
                    assert(cx == x1 && cy == y1);
                    assert(false);
                }
                assert(b < dy);
            }
        }

        let ghost pre_cx: int = cx as int;
        let ghost pre_cy: int = cy as int;
        let ghost pre_err: int = err as int;
        let ghost pre_a: int = a;
        let ghost pre_b: int = b;
        let ghost pre_buf: Seq<u32> = buffer@;
        let ghost pre_fuel: nat = ((dx + dy + 1) - (if dx > dy {
            a
        } else {
            b
        })) as nat;

        let e2 = err;
        proof {
            if dx > dy {
                // the x axis steps on every iteration
                assert(e2 > -dx);
                // the y axis never oversteps
                if b == dy && e2 < dy {
                    assert(err == line_err0(dx as int, dy as int) - a * dy + dy * dx);
                    assert(dy * dx - a * dy == (dx - a) * dy) by (nonlinear_arith);
                    lemma_mul_mono(1, dx - a, dy as int);
                    assert(false);
                }
            } else {
                // the y axis steps on every iteration
                assert(e2 < dy);
                // the x axis never oversteps
                if a == dx && e2 > -dx {
                    assert(err == line_err0(dx as int, dy as int) - dx * dy + b * dx);
                    assert(b * dx - dx * dy == (b - dy) * dx) by (nonlinear_arith);
                    lemma_mul_mono(b - dy, -1, dx as int);
                    assert(false);
                }
            }
        }
        if e2 > -dx {
            err = err - dy;
            cx = cx + sx;
            proof {
                lemma_mul_succ(a, dy as int);
                a = a + 1;
            }
        }
        if e2 < dy {
            err = err + dx;
            cy = cy + sy;
            proof {
                lemma_mul_succ(b, dx as int);
                b = b + 1;
            }
        }

        proof {
            // the exec step above is exactly one unfolding of the walk
            assert(line_traced(
                pre_buf,
                pre_cx,
                pre_cy,
                x1 as int,
                y1 as int,
                pre_err,
                dx as int,
                dy as int,
                sx as int,
                sy as int,
                color,
                pre_fuel,
            ) == line_traced(
                pre_buf,
                cx as int,
                cy as int,
                x1 as int,
                y1 as int,
                err as int,
                dx as int,
                dy as int,
                sx as int,
                sy as int,
                color,
                (pre_fuel - 1) as nat,
            )) by {
                lemma_plotted_absorbed(pre_buf, pre_cx, pre_cy, color);
            }
        }

        let ghost mid_buf: Seq<u32> = buffer@;
        plot_pixel_signed(buffer, cx, cy, color);
        proof {
            lemma_line_traced_absorb(
                mid_buf,
                cx as int,
                cy as int,
                x1 as int,
                y1 as int,
                err as int,
                dx as int,
                dy as int,
                sx as int,
                sy as int,
                color,
                ((dx + dy + 1) - (if dx > dy {
                    a
                } else {
                    b
                })) as nat,
            );
            if on_canvas(x0 as int, y0 as int) {
                crate::helper::lemma_plotted_keeps_color(
                    mid_buf,
                    cx as int,
                    cy as int,
                    color,
                    pixel_index(x0 as int, y0 as int),
                );
            }
        }
    }

    proof {
        lemma_plotted_absorbed(buffer@, cx as int, cy as int, color);
    }
}

/// The buffer after drawing the four outline segments of the rectangle
/// anchored at `(x, y)` with its height measured upward.
pub open spec fn rectangle_painted(
    buf: Seq<u32>,
    x: int,
    y: int,
    width: int,
    height: int,
    color: u32,
) -> Seq<u32> {
    let b1 = line_painted(buf, x, y, x + width, y, color);
    let b2 = line_painted(b1, x, y, x, y - height, color);
    let b3 = line_painted(b2, x, y - height, x + width, y - height, color);
    line_painted(b3, x + width, y - height, x + width, y, color)
}

/// Draws a rectangle outline with `(x, y)` as its anchor corner and its
/// height measured upward (subtracted from `y`, not added).
pub fn rectangle(buffer: &mut Vec<u32>, x: i32, y: i32, width: i32, height: i32, color: u32)
    requires
        old(buffer)@.len() == WIDTH * HEIGHT,
    ensures
        final(buffer)@.len() == old(buffer)@.len(),
        final(buffer)@ == rectangle_painted(
            old(buffer)@,
            x as int,
            y as int,
            width as int,
            height as int,
            color,
        ),
{
    let x: i64 = x as i64;
    let y: i64 = y as i64;
    let width: i64 = width as i64;
    let height: i64 = height as i64;
    dda_line(buffer, x, y, x + width, y, color);  // anchor corner to the right
    dda_line(buffer, x, y, x, y - height, color);  // anchor corner upward
    dda_line(buffer, x, y - height, x + width, y - height, color);  // top edge
    dda_line(buffer, x + width, y - height, x + width, y, color);  // right edge
}

} // verus!
