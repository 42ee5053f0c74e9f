use vstd::prelude::*;
use crate::level::lemma_cell_index;

verus! {

/// The four bytes of pixel `p` of an RGBA buffer.
pub open spec fn pixel(frame: Seq<u8>, p: int) -> (u8, u8, u8, u8) {
    (frame[4 * p], frame[4 * p + 1], frame[4 * p + 2], frame[4 * p + 3])
}

pub open spec fn rgba(c: [u8; 4]) -> (u8, u8, u8, u8) {
    (c@[0], c@[1], c@[2], c@[3])
}

/// An RGBA buffer of `w * h` pixels.
pub open spec fn frame_fits(frame: Seq<u8>, w: int, h: int) -> bool {
    0 <= w && 0 <= h && frame.len() == w * h * 4
}

/// The palette entry of a wall id, by Rust's remainder of `id` by 6.
pub open spec fn wall_palette(id: int) -> (u8, u8, u8, u8) {
    if id % 6 == 0 || (id < 0 && (-id) % 6 == 0) {
        (200u8, 60u8, 60u8, 255u8)
    } else if id < 0 {
        (60u8, 200u8, 200u8, 255u8)
    } else if id % 6 == 1 {
        (60u8, 200u8, 60u8, 255u8)
    } else if id % 6 == 2 {
        (60u8, 60u8, 200u8, 255u8)
    } else if id % 6 == 3 {
        (200u8, 200u8, 60u8, 255u8)
    } else if id % 6 == 4 {
        (200u8, 60u8, 200u8, 255u8)
    } else {
        (60u8, 200u8, 200u8, 255u8)
    }
}

/// The display color of a wall id.
pub fn wall_color(id: i32) -> (r: [u8; 4])
    ensures
        rgba(r) == wall_palette(id as int),
{
    let m: i64 = if id >= 0 {
        id as i64 % 6
    } else if (-(id as i64)) % 6 == 0 {
        0
    } else {
        -1
    };
    match m {
        0 => [200, 60, 60, 255],
        1 => [60, 200, 60, 255],
        2 => [60, 60, 200, 255],
        3 => [200, 200, 60, 255],
        4 => [200, 60, 200, 255],
        _ => [60, 200, 200, 255],
    }
}

/// Writes one pixel; every other pixel keeps its bytes.
pub fn set_pixel(frame: &mut Vec<u8>, p: usize, c: [u8; 4])
    requires
        4 * p + 4 <= old(frame)@.len(),
    ensures
        final(frame)@.len() == old(frame)@.len(),
        pixel(final(frame)@, p as int) == rgba(c),
        forall|q: int|
            0 <= q && 4 * q + 4 <= old(frame)@.len() && q != p ==> #[trigger] pixel(final(frame)@, q)
                == pixel(old(frame)@, q),
{
    let len = frame.len();
    let i = 4 * p;
    frame.set(i, c[0]);
    frame.set(i + 1, c[1]);
    frame.set(i + 2, c[2]);
    frame.set(i + 3, c[3]);
}

/// The row-major pixel index of a cell, checked to lie in the buffer.
pub(crate) fn pixel_index(w: i32, h: i32, x: i32, y: i32) -> (r: usize)
    requires
        0 <= x < w,
        0 <= y < h,
        w * h * 4 <= usize::MAX,
    ensures
        r == y * w + x,
        4 * r + 4 <= w * h * 4,
{
    proof {
        lemma_cell_index(w as int, h as int, x as int, y as int);
    }
    y as usize * w as usize + x as usize
}

/// Paints the whole buffer one opaque color.
pub fn fill(frame: &mut Vec<u8>, w: i32, h: i32, r: u8, g: u8, b: u8)
    requires
        frame_fits(old(frame)@, w as int, h as int),
    ensures
        final(frame)@.len() == old(frame)@.len(),
        forall|p: int| 0 <= p < w * h ==> #[trigger] pixel(final(frame)@, p) == (r, g, b, 255u8),
{
    let c: [u8; 4] = [r, g, b, 255];
    assert(rgba(c) == (r, g, b, 255u8));
    let len = frame.len();
    let ghost n = w * h;
    let mut y: i32 = 0;
    while y < h
        invariant
            0 <= y <= h,
            frame_fits(frame@, w as int, h as int),
            frame@.len() == len,
            rgba(c) == (r, g, b, 255u8),
            n == w * h,
            forall|p: int| 0 <= p < y * w ==> #[trigger] pixel(frame@, p) == (r, g, b, 255u8),
        decreases h - y,
    {
        let mut x: i32 = 0;
        while x < w
            invariant
                0 <= x <= w,
                0 <= y < h,
                frame_fits(frame@, w as int, h as int),
                frame@.len() == len,
                rgba(c) == (r, g, b, 255u8),
                n == w * h,
                forall|p: int| 0 <= p < y * w + x ==> #[trigger] pixel(frame@, p) == (r, g, b, 255u8),
            decreases w - x,
        {
            let p = pixel_index(w, h, x, y);
            let ghost before = frame@;
            set_pixel(frame, p, c);
            assert forall|q: int| 0 <= q < y * w + x + 1 implies #[trigger] pixel(frame@, q) == (
                r,
                g,
                b,
                255u8,
            ) by {
                lemma_cell_index(w as int, h as int, x as int, y as int);
                if q != p {
                    assert(4 * q + 4 <= before.len());
                    assert(pixel(frame@, q) == pixel(before, q));
                }
            }
            x = x + 1;
        }
        assert((y + 1) * w == y * w + w) by (nonlinear_arith);
        y = y + 1;
    }
    assert(h * w == w * h) by (nonlinear_arith);
}

/// The row-major index of cell `(x, y)` in a grid `w` wide.
pub open spec fn cell(w: int, x: int, y: int) -> int {
    y * w + x
}

/// Two cells of a grid share an index only if they are the same cell.
pub proof fn lemma_cell_injective(w: int, x1: int, y1: int, x2: int, y2: int)
    requires
        0 <= x1 < w,
        0 <= x2 < w,
        cell(w, x1, y1) == cell(w, x2, y2),
    ensures
        x1 == x2,
        y1 == y2,
{
    assert(y1 == y2) by (nonlinear_arith)
        requires
            0 <= x1 < w,
            0 <= x2 < w,
            y1 * w + x1 == y2 * w + x2,
    ;
}

/// The sky color of the upper half of the view.
pub open spec fn ceiling_rgba() -> (u8, u8, u8, u8) {
    (40u8, 60u8, 120u8, 255u8)
}

/// The ground color of the lower half of the view.
pub open spec fn floor_rgba() -> (u8, u8, u8, u8) {
    (40u8, 40u8, 40u8, 255u8)
}

/// Paints rows `0..h / 2` the sky color and the other rows the ground color.
pub fn draw_ceiling_floor(frame: &mut Vec<u8>, w: i32, h: i32)
    requires
        frame_fits(old(frame)@, w as int, h as int),
    ensures
        final(frame)@.len() == old(frame)@.len(),
        forall|p: int|
            0 <= p < w * h ==> #[trigger] pixel(final(frame)@, p) == if p < (h / 2) * w {
                ceiling_rgba()
            } else {
                floor_rgba()
            },
{
    let sky: [u8; 4] = [40, 60, 120, 255];
    let ground: [u8; 4] = [40, 40, 40, 255];
    let len = frame.len();
    let half = h / 2;
    let mut y: i32 = 0;
    while y < h
        invariant
            0 <= y <= h,
            half == h / 2,
            frame_fits(frame@, w as int, h as int),
            frame@.len() == len,
            rgba(sky) == ceiling_rgba(),
            rgba(ground) == floor_rgba(),
            forall|p: int|
                0 <= p < y * w ==> #[trigger] pixel(frame@, p) == if p < half * w {
                    ceiling_rgba()
                } else {
                    floor_rgba()
                },
        decreases h - y,
    {
        let c = if y < half { sky } else { ground };
        let mut x: i32 = 0;
        while x < w
            invariant
                0 <= x <= w,
                0 <= y < h,
                half == h / 2,
                frame_fits(frame@, w as int, h as int),
                frame@.len() == len,
                rgba(sky) == ceiling_rgba(),
                rgba(ground) == floor_rgba(),
                c == if y < half { sky } else { ground },
                forall|p: int|
                    0 <= p < y * w + x ==> #[trigger] pixel(frame@, p) == if p < half * w {
                        ceiling_rgba()
                    } else {
                        floor_rgba()
                    },
            decreases w - x,
        {
            let p = pixel_index(w, h, x, y);
            let ghost before = frame@;
            set_pixel(frame, p, c);
            assert forall|q: int| 0 <= q < y * w + x + 1 implies #[trigger] pixel(frame@, q)
                == if q < half * w {
                ceiling_rgba()
            } else {
                floor_rgba()
            } by {
                lemma_cell_index(w as int, h as int, x as int, y as int);
                if q != p {
                    assert(4 * q + 4 <= before.len());
                    assert(pixel(frame@, q) == pixel(before, q));
                } else if y < half {
                    assert(q < half * w) by (nonlinear_arith)
                        requires
                            q == y * w + x,
                            0 <= x < w,
                            y < half,
                    ;
                } else {
                    assert(q >= half * w) by (nonlinear_arith)
                        requires
                            q == y * w + x,
                            0 <= x,
                            0 <= w,
                            y >= half,
                    ;
                }
            }
            x = x + 1;
        }
        assert((y + 1) * w == y * w + w) by (nonlinear_arith);
        y = y + 1;
    }
    assert(h * w == w * h) by (nonlinear_arith);
}

/// Whether cell `(cx, cy)` lies in the rectangle at `(x, y)` of size `rw` by `rh`.
pub open spec fn in_rect(cx: int, cy: int, x: int, y: int, rw: int, rh: int) -> bool {
    x <= cx < x + rw && y <= cy < y + rh
}

/// Paints the part of a rectangle that lies on screen; every other pixel
/// keeps its bytes.
pub fn rect_fill(frame: &mut Vec<u8>, w: i32, h: i32, x: i32, y: i32, rw: i32, rh: i32, color: [u8; 4])
    requires
        frame_fits(old(frame)@, w as int, h as int),
    ensures
        final(frame)@.len() == old(frame)@.len(),
        forall|cx: int, cy: int|
            0 <= cx < w && 0 <= cy < h ==> #[trigger] pixel(final(frame)@, cell(w as int, cx, cy))
                == if in_rect(cx, cy, x as int, y as int, rw as int, rh as int) {
                rgba(color)
            } else {
                pixel(old(frame)@, cell(w as int, cx, cy))
            },
{
    let ghost start = frame@;
    let len = frame.len();
    let x0: i64 = if x < 0 { 0 } else { x as i64 };
    let y0: i64 = if y < 0 { 0 } else { y as i64 };
    let x1: i64 = if (x as i64 + rw as i64) < w as i64 { x as i64 + rw as i64 } else { w as i64 };
    let y1: i64 = if (y as i64 + rh as i64) < h as i64 { y as i64 + rh as i64 } else { h as i64 };
    let mut yy: i64 = y0;
    while yy < y1
        invariant
            0 <= y0 <= yy,
            y1 <= h,
            y0 <= yy || yy >= y1,
            x0 == (if x < 0 { 0 } else { x as int }),
            y0 == (if y < 0 { 0 } else { y as int }),
            x1 == (if x + rw < w { x + rw } else { w as int }),
            y1 == (if y + rh < h { y + rh } else { h as int }),
            frame_fits(frame@, w as int, h as int),
            frame@.len() == len,
            start.len() == len,
            forall|cx: int, cy: int|
                0 <= cx < w && 0 <= cy < h ==> #[trigger] pixel(frame@, cell(w as int, cx, cy))
                    == if in_rect(cx, cy, x as int, y as int, rw as int, rh as int) && cy < yy {
                    rgba(color)
                } else {
                    pixel(start, cell(w as int, cx, cy))
                },
        decreases y1 - yy,
    {
        let mut xx: i64 = x0;
        while xx < x1
            invariant
                0 <= x0 <= xx,
                x1 <= w,
                y0 <= yy < y1,
                0 <= yy < h,
                x0 == (if x < 0 { 0 } else { x as int }),
                y0 == (if y < 0 { 0 } else { y as int }),
                x1 == (if x + rw < w { x + rw } else { w as int }),
                y1 == (if y + rh < h { y + rh } else { h as int }),
                frame_fits(frame@, w as int, h as int),
                frame@.len() == len,
                start.len() == len,
                forall|cx: int, cy: int|
                    0 <= cx < w && 0 <= cy < h ==> #[trigger] pixel(frame@, cell(w as int, cx, cy))
                        == if in_rect(cx, cy, x as int, y as int, rw as int, rh as int) && (cy < yy
                        || (cy == yy && cx < xx)) {
                        rgba(color)
                    } else {
                        pixel(start, cell(w as int, cx, cy))
                    },
            decreases x1 - xx,
        {
            let p = pixel_index(w, h, xx as i32, yy as i32);
            let ghost before = frame@;
            set_pixel(frame, p, color);
            assert forall|cx: int, cy: int| 0 <= cx < w && 0 <= cy < h implies #[trigger] pixel(
                frame@,
                cell(w as int, cx, cy),
            ) == if in_rect(cx, cy, x as int, y as int, rw as int, rh as int) && (cy < yy || (cy
                == yy && cx < xx + 1)) {
                rgba(color)
            } else {
                pixel(start, cell(w as int, cx, cy))
            } by {
                lemma_cell_index(w as int, h as int, cx, cy);
                if cell(w as int, cx, cy) == p {
                    lemma_cell_injective(w as int, cx, cy, xx as int, yy as int);
                } else {
                    assert(pixel(frame@, cell(w as int, cx, cy)) == pixel(before, cell(w as int, cx, cy)));
                }
            }
            xx = xx + 1;
        }
        yy = yy + 1;
    }
}

/// Draws a line from `(x0, y0)` to `(x1, y1)` by Bresenham's walk; points off
/// screen are skipped. Only the line's color is written, and the start point
/// gets it.
pub fn draw_line(frame: &mut Vec<u8>, w: i32, h: i32, x0: i32, y0: i32, x1: i32, y1: i32, color: [u8; 4])
    requires
        frame_fits(old(frame)@, w as int, h as int),
    ensures
        final(frame)@.len() == old(frame)@.len(),
        forall|q: int|
            0 <= q && 4 * q + 4 <= old(frame)@.len() ==> #[trigger] pixel(final(frame)@, q) == pixel(
                old(frame)@,
                q,
            ) || pixel(final(frame)@, q) == rgba(color),
        0 <= x0 < w && 0 <= y0 < h ==> pixel(final(frame)@, cell(w as int, x0 as int, y0 as int))
            == rgba(color),
{
    let ghost start = frame@;
    let ghost mut painted = false;
    let len = frame.len();
    let mut cx: i64 = x0 as i64;
    let mut cy: i64 = y0 as i64;
    let tx: i64 = x1 as i64;
    let ty: i64 = y1 as i64;
    let dx: i64 = if tx > cx { tx - cx } else { cx - tx };
    let sx: i64 = if cx < tx { 1 } else { -1 };
    let dy: i64 = if ty > cy { cy - ty } else { ty - cy };
    let sy: i64 = if cy < ty { 1 } else { -1 };
    let mut err: i64 = dx + dy;
    // Each step moves at least one coordinate one unit towards the end point,
    // so the walk ends within `dx - dy + 1` steps.
    let limit: i64 = dx - dy + 1;
    let mut steps: i64 = 0;
    let mut done = false;
    while steps < limit && !done
        invariant
            0 <= steps <= limit,
            limit == dx - dy + 1,
            0 <= dx <= 0x1_0000_0000,
            -0x1_0000_0000 <= dy <= 0,
            sx == 1 || sx == -1,
            sy == 1 || sy == -1,
            -0x1_0000_0000 - steps <= cx <= 0x1_0000_0000 + steps,
            -0x1_0000_0000 - steps <= cy <= 0x1_0000_0000 + steps,
            2 * dy <= err <= 2 * dx,
            frame_fits(frame@, w as int, h as int),
            frame@.len() == len,
            start == old(frame)@,
            forall|q: int|
                0 <= q && 4 * q + 4 <= len ==> #[trigger] pixel(frame@, q) == pixel(start, q) || pixel(
                    frame@,
                    q,
                ) == rgba(color),
            !painted ==> steps == 0 && cx == x0 && cy == y0,
            steps > 0 || done ==> painted,
            painted ==> (0 <= x0 < w && 0 <= y0 < h ==> pixel(frame@, cell(w as int, x0 as int, y0 as int))
                == rgba(color)),
        decreases limit - steps + if done { 0int } else { 1int },
    {
        if cx >= 0 && cx < w as i64 && cy >= 0 && cy < h as i64 {
            let p = pixel_index(w, h, cx as i32, cy as i32);
            let ghost before = frame@;
            set_pixel(frame, p, color);
            proof {
                assert forall|q: int| 0 <= q && 4 * q + 4 <= len implies #[trigger] pixel(frame@, q)
                    == pixel(start, q) || pixel(frame@, q) == rgba(color) by {
                    if q != p {
                        assert(pixel(frame@, q) == pixel(before, q));
                    }
                }
                if painted && 0 <= x0 < w && 0 <= y0 < h {
                    lemma_cell_index(w as int, h as int, x0 as int, y0 as int);
                    assert(pixel(before, cell(w as int, x0 as int, y0 as int)) == rgba(color));
                    if cell(w as int, x0 as int, y0 as int) != p {
                        assert(pixel(frame@, cell(w as int, x0 as int, y0 as int)) == pixel(
                            before,
                            cell(w as int, x0 as int, y0 as int),
                        ));
                    }
                }
            }
        }
        proof {
            painted = true;
        }
        if cx == tx && cy == ty {
            done = true;
        } else {
            let e2 = 2 * err;
            let mut next = err;
            if e2 >= dy {
                next = next + dy;
                cx = cx + sx;
            }
            if e2 <= dx {
                next = next + dx;
                cy = cy + sy;
            }
            err = next;
            steps = steps + 1;
        }
    }
    proof {
        if 0 <= x0 < w && 0 <= y0 < h {
            assert(painted);
        }
    }
}

} // verus!
