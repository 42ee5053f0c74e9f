use vstd::prelude::*;
use crate::draw::{
    ceiling_rgba, cell, floor_rgba, frame_fits, lemma_cell_injective, pixel, pixel_index, set_pixel, wall_color,
    wall_palette,
};
use crate::fixed::{div_trunc, tdiv, ONE};
use crate::level::{lemma_cell_index, Level, MAX_DIM};
use crate::player::{lemma_basis_of_angle, lemma_heading_length, on_grid, unit_length, Player};
use crate::fixed::lemma_tdiv_le;
use crate::draw::{draw_ceiling_floor, rgba};
use crate::sprites::{Sprite, SpriteKind};

verus! {

/// The depth stored for a column whose ray leaves the grid without hitting
/// a wall: a million tiles, in fixed point.
pub const NO_HIT_DEPTH: i64 = 1_000_000 * 65536;

/// One perpendicular wall distance per screen column, in fixed point.
pub struct DepthBuffer {
    pub cols: Vec<i64>,
}

impl DepthBuffer {
    /// A buffer of `width` columns, each holding the no-hit depth.
    pub fn new(width: usize) -> (r: DepthBuffer)
        ensures
            r.cols@.len() == width,
            forall|i: int| 0 <= i < width ==> r.cols@[i] == NO_HIT_DEPTH,
    {
        let mut cols: Vec<i64> = Vec::new();
        let mut i: usize = 0;
        while i < width
            invariant
                i <= width,
                cols@.len() == i,
                forall|k: int| 0 <= k < i ==> cols@[k] == NO_HIT_DEPTH,
            decreases width - i,
        {
            cols.push(NO_HIT_DEPTH);
            i = i + 1;
        }
        DepthBuffer { cols }
    }
}

/// Widest and tallest screen, in pixels.
pub const MAX_SCREEN: i32 = 16384;

/// Smallest depth stored for a wall hit: 1e-4 tiles.
pub const MIN_DEPTH: i64 = 7;

/// Step length standing for "never" on an axis the ray runs parallel to.
pub const FAR: i64 = 0x4000_0000_0000_0000;

/// The camera-space offset of screen column `x`: `2 x / w - 1`, fixed point.
pub open spec fn camera_offset(x: int, w: int) -> int {
    (2 * x * ONE) / w - ONE
}

/// The ray direction of screen column `x`: the heading plus the camera plane
/// scaled by the column's offset.
pub open spec fn column_ray(p: Player, x: int, w: int) -> (int, int) {
    let c = camera_offset(x, w);
    (p.dir_x + tdiv(p.plane_x * c, ONE as int), p.dir_y + tdiv(p.plane_y * c, ONE as int))
}

/// The perpendicular distance from the camera plane to the face of cell
/// `(mx, my)` that a ray from `(px, py)` along `(rx, ry)` enters, across an
/// x boundary (`side == 0`) or a y boundary (`side == 1`), floored at
/// `MIN_DEPTH`.
pub open spec fn wall_distance(px: int, py: int, rx: int, ry: int, mx: int, my: int, side: int) -> int {
    let num = if side == 0 {
        mx * ONE - px + if rx < 0 { ONE as int } else { 0 }
    } else {
        my * ONE - py + if ry < 0 { ONE as int } else { 0 }
    };
    let r = if side == 0 { rx } else { ry };
    let an = if num >= 0 { num } else { -num };
    let ar = if r >= 0 { r } else { -r };
    let d = (an * ONE) / ar;
    if d < MIN_DEPTH { MIN_DEPTH as int } else { d }
}

/// `d` is the distance to the face of some wall cell of the grid along the
/// ray. This says less than `dda`, which fixes the first wall on the walk.
pub open spec fn hit_depth(level: Level, px: int, py: int, rx: int, ry: int, d: int) -> bool {
    exists|mx: int, my: int, side: int|
        #![trigger level.tile_at(mx, my), wall_distance(px, py, rx, ry, mx, my, side)]
        level.in_grid(mx, my) && level.tile_at(mx, my) > 0 && (side == 0 || side == 1)
            && d == wall_distance(px, py, rx, ry, mx, my, side)
}

/// Every cell on the border of the grid is a wall.
pub open spec fn enclosed(level: Level) -> bool {
    forall|x: int, y: int|
        level.in_grid(x, y) && (x == 0 || y == 0 || x == level.w - 1 || y == level.h - 1)
            ==> #[trigger] level.tile_at(x, y) > 0
}

/// The point lies in a cell off the border of the grid.
pub open spec fn off_border(level: Level, px: int, py: int) -> bool {
    1 <= px / ONE as int && px / ONE as int + 1 < level.w && 1 <= py / ONE as int && py / ONE as int
        + 1 < level.h
}


/// A column ray is never zero: the camera plane is shorter than the heading
/// and perpendicular to it.
proof fn lemma_ray_nonzero(p: Player, cam: int)
    requires
        p.wf(),
        -ONE <= cam <= ONE,
    ensures
        p.dir_x + tdiv(p.plane_x * cam, ONE as int) != 0 || p.dir_y + tdiv(p.plane_y * cam, ONE as int)
            != 0,
{
    lemma_heading_length(p.angle as int);
    lemma_basis_of_angle(p.angle as int);
    let kc = p.dir_x / 32;
    let ks = p.dir_y / 32;
    assert(p.dir_x == 32 * kc && p.dir_y == 32 * ks);
    assert(p.plane_x == 21 * ks && p.plane_y == -21 * kc);
    let akc = if kc >= 0 { kc } else { -kc };
    let aks = if ks >= 0 { ks } else { -ks };
    assert(-(21 * aks) * ONE <= p.plane_x * cam <= 21 * aks * ONE) by (nonlinear_arith)
        requires
            p.plane_x == 21 * ks,
            aks == if ks >= 0 { ks } else { -ks },
            -ONE <= cam <= ONE,
    ;
    assert(-(21 * akc) * ONE <= p.plane_y * cam <= 21 * akc * ONE) by (nonlinear_arith)
        requires
            p.plane_y == -21 * kc,
            akc == if kc >= 0 { kc } else { -kc },
            -ONE <= cam <= ONE,
    ;
    lemma_tdiv_le(p.plane_x * cam, ONE as int, 21 * aks * ONE);
    lemma_tdiv_le(p.plane_y * cam, ONE as int, 21 * akc * ONE);
    assert((21 * aks * ONE) / (ONE as int) == 21 * aks) by {
        vstd::arithmetic::div_mod::lemma_div_multiples_vanish(21 * aks, ONE as int);
        assert(21 * aks * ONE == ONE * (21 * aks)) by (nonlinear_arith);
    }
    assert((21 * akc * ONE) / (ONE as int) == 21 * akc) by {
        vstd::arithmetic::div_mod::lemma_div_multiples_vanish(21 * akc, ONE as int);
        assert(21 * akc * ONE == ONE * (21 * akc)) by (nonlinear_arith);
    }
    if p.dir_x + tdiv(p.plane_x * cam, ONE as int) == 0 && p.dir_y + tdiv(p.plane_y * cam, ONE as int) == 0 {
        assert(32 * akc <= 21 * aks);
        assert(32 * aks <= 21 * akc);
        assert(akc == 0 && aks == 0);
        assert(unit_length(p.dir_x as int, p.dir_y as int));
    }
}

/// Step length between grid boundaries along an axis the ray's component
/// `r` crosses; `FAR` where the ray runs parallel to it.
pub open spec fn ray_delta(r: int) -> int {
    if r == 0 {
        FAR as int
    } else {
        (ONE * ONE) / (if r < 0 { -r } else { r })
    }
}

/// The cell step along an axis: back for a negative component.
pub open spec fn ray_step(r: int) -> int {
    if r < 0 {
        -1
    } else {
        1
    }
}

/// What the walk finds: depth, wall id (`0` for none) and the axis of the
/// last boundary crossed.
pub open spec fn no_hit() -> (int, int, int) {
    (NO_HIT_DEPTH as int, 0, 0)
}

/// The grid walk from cell `(mx, my)` with accumulated boundary distances
/// `(sx, sy)`, for at most `fuel` more cell steps: step along the axis whose
/// next boundary is nearer (y on a tie), stop with no hit on leaving the
/// grid, stop at the first cell with a wall.
pub open spec fn dda_from(
    level: Level,
    px: int,
    py: int,
    rx: int,
    ry: int,
    mx: int,
    my: int,
    sx: int,
    sy: int,
    fuel: nat,
) -> (int, int, int)
    decreases fuel,
{
    if fuel == 0 {
        no_hit()
    } else {
        let go_x = sx < sy;
        let mx2 = if go_x { mx + ray_step(rx) } else { mx };
        let my2 = if go_x { my } else { my + ray_step(ry) };
        let sx2 = if go_x { sx + ray_delta(rx) } else { sx };
        let sy2 = if go_x { sy } else { sy + ray_delta(ry) };
        let side = if go_x { 0int } else { 1int };
        if !level.in_grid(mx2, my2) {
            no_hit()
        } else if level.tile_at(mx2, my2) > 0 {
            if (if go_x { rx } else { ry }) == 0 {
                no_hit()
            } else {
                (wall_distance(px, py, rx, ry, mx2, my2, side), level.tile_at(mx2, my2), side)
            }
        } else {
            dda_from(level, px, py, rx, ry, mx2, my2, sx2, sy2, (fuel - 1) as nat)
        }
    }
}

/// The ray walk of `cast_ray`, from the camera's cell, for at most
/// `w + h + 2` cell steps (enough to leave the grid).
pub open spec fn dda(level: Level, px: int, py: int, rx: int, ry: int) -> (int, int, int) {
    if rx == 0 && ry == 0 {
        no_hit()
    } else {
        let mx = px / ONE as int;
        let my = py / ONE as int;
        let fx = if rx < 0 { px - mx * ONE } else { (mx + 1) * ONE - px };
        let fy = if ry < 0 { py - my * ONE } else { (my + 1) * ONE - py };
        let sx = if rx == 0 { FAR as int } else { fx * ray_delta(rx) / ONE as int };
        let sy = if ry == 0 { FAR as int } else { fy * ray_delta(ry) / ONE as int };
        dda_from(level, px, py, rx, ry, mx, my, sx, sy, (level.w + level.h + 2) as nat)
    }
}

/// Cells left to cross along one axis of `n` cells, stepping by `step`,
/// from cell `m` (counted from just outside the grid).
pub open spec fn axis_left(m: int, n: int, step: int) -> int {
    let c = if m < -1 { -1 } else if m > n { n } else { m };
    if step > 0 {
        n + 1 - c
    } else {
        c + 1
    }
}

/// The cell of a fixed-point coordinate: its floor in tiles.
fn floor_cell(v: i64) -> (r: i64)
    requires
        -0x2000_0000 <= v <= 0x4000_0000,
    ensures
        r == v as int / ONE as int,
        -0x8000 <= r <= 0x8000,
{
    if v >= 0 {
        v / ONE
    } else {
        let m = (-v + ONE - 1) / ONE;
        proof {
            vstd::arithmetic::div_mod::lemma_fundamental_div_mod_converse(v as int, ONE as int, -m, v + m * ONE);
        }
        -m
    }
}

/// What one ray finds: a depth, the wall id hit (`0` for none) and the axis
/// of the last boundary crossed.
pub struct RayHit {
    pub dist: i64,
    pub tile: i32,
    pub side: u8,
}

/// Walks the grid cell by cell from `(px, py)` along `(rx, ry)` until a wall
/// cell or the edge of the grid.
#[verifier::rlimit(100)]
pub fn cast_ray(level: &Level, px: i64, py: i64, rx: i64, ry: i64) -> (r: RayHit)
    requires
        level.wf(),
        -0x2000_0000 <= px <= 0x4000_0000,
        -0x2000_0000 <= py <= 0x4000_0000,
        -0x100_0000 <= rx <= 0x100_0000,
        -0x100_0000 <= ry <= 0x100_0000,
    ensures
        r.side < 2,
        (r.dist as int, r.tile as int, r.side as int) == dda(*level, px as int, py as int, rx as int, ry as int),
        r.tile > 0 ==> hit_depth(*level, px as int, py as int, rx as int, ry as int, r.dist as int),
        r.tile <= 0 ==> r.dist == NO_HIT_DEPTH && r.tile == 0,
        MIN_DEPTH <= r.dist,
        enclosed(*level) && off_border(*level, px as int, py as int) && !(rx == 0 && ry == 0) ==> r.tile
            > 0,
{
    if rx == 0 && ry == 0 {
        return RayHit { dist: NO_HIT_DEPTH, tile: 0, side: 0 };
    }
    let w = level.w as i64;
    let h = level.h as i64;
    let mut map_x: i64 = floor_cell(px);
    let mut map_y: i64 = floor_cell(py);
    let arx: i64 = if rx < 0 { -rx } else { rx };
    let ary: i64 = if ry < 0 { -ry } else { ry };
    let delta_x: i64 = if rx == 0 { FAR } else { ONE * ONE / arx };
    let delta_y: i64 = if ry == 0 { FAR } else { ONE * ONE / ary };
    let step_x: i64 = if rx < 0 { -1 } else { 1 };
    let step_y: i64 = if ry < 0 { -1 } else { 1 };
    proof {
        assert(delta_x == FAR || delta_x <= ONE * ONE) by {
            if rx != 0 {
                vstd::arithmetic::div_mod::lemma_div_is_ordered_by_denominator(ONE * ONE, 1, arx as int);
            }
        }
        assert(delta_y == FAR || delta_y <= ONE * ONE) by {
            if ry != 0 {
                vstd::arithmetic::div_mod::lemma_div_is_ordered_by_denominator(ONE * ONE, 1, ary as int);
            }
        }
    }
    let fx: i64 = if rx < 0 { px - map_x * ONE } else { (map_x + 1) * ONE - px };
    let fy: i64 = if ry < 0 { py - map_y * ONE } else { (map_y + 1) * ONE - py };
    proof {
        assert(0 <= fx <= ONE);
        assert(0 <= fy <= ONE);
        if rx != 0 {
            assert(0 <= fx * delta_x <= ONE * delta_x) by (nonlinear_arith)
                requires
                    0 <= fx <= ONE,
                    0 <= delta_x,
            ;
            vstd::arithmetic::div_mod::lemma_div_is_ordered(fx * delta_x, ONE * delta_x, ONE as int);
            vstd::arithmetic::div_mod::lemma_div_pos_is_pos(fx * delta_x, ONE as int);
        }
        if ry != 0 {
            assert(0 <= fy * delta_y <= ONE * delta_y) by (nonlinear_arith)
                requires
                    0 <= fy <= ONE,
                    0 <= delta_y,
            ;
            vstd::arithmetic::div_mod::lemma_div_is_ordered(fy * delta_y, ONE * delta_y, ONE as int);
            vstd::arithmetic::div_mod::lemma_div_pos_is_pos(fy * delta_y, ONE as int);
        }
    }
    let mut side_x: i64 = if rx == 0 { FAR } else { fx * delta_x / ONE };
    let mut side_y: i64 = if ry == 0 { FAR } else { fy * delta_y / ONE };
    let ghost target = dda(*level, px as int, py as int, rx as int, ry as int);
    let ghost fuel0 = level.w + level.h + 2;
    assert(target == dda_from(*level, px as int, py as int, rx as int, ry as int, map_x as int, map_y as int, side_x as int, side_y as int, fuel0 as nat));
    let mut count: i64 = 0;
    loop
        invariant
            level.wf(),
            w == level.w,
            h == level.h,
            count == 0 || (0 <= map_x < w && 0 <= map_y < h),
            -0x8000 <= map_x <= 0x8000,
            -0x8000 <= map_y <= 0x8000,
            -0x2000_0000 <= px <= 0x4000_0000,
            -0x2000_0000 <= py <= 0x4000_0000,
            arx == (if rx < 0 { -rx } else { rx as int }),
            ary == (if ry < 0 { -ry } else { ry as int }),
            -0x100_0000 <= rx <= 0x100_0000,
            -0x100_0000 <= ry <= 0x100_0000,
            !(rx == 0 && ry == 0),
            step_x == (if rx < 0 { -1int } else { 1int }),
            step_y == (if ry < 0 { -1int } else { 1int }),
            rx == 0 ==> delta_x == FAR && side_x == FAR,
            ry == 0 ==> delta_y == FAR && side_y == FAR,
            rx != 0 ==> 0 <= delta_x <= ONE * ONE && 0 <= side_x <= (count + 2) * 0x1_0000_0000,
            ry != 0 ==> 0 <= delta_y <= ONE * ONE && 0 <= side_y <= (count + 2) * 0x1_0000_0000,
            0 <= count,
            fuel0 == level.w + level.h + 2,
            delta_x == ray_delta(rx as int),
            delta_y == ray_delta(ry as int),
            target == dda(*level, px as int, py as int, rx as int, ry as int),
            target == dda_from(*level, px as int, py as int, rx as int, ry as int, map_x as int, map_y as int, side_x as int, side_y as int, (fuel0 - count) as nat),
            enclosed(*level) && off_border(*level, px as int, py as int) ==> 1 <= map_x < w - 1 && 1
                <= map_y < h - 1,
            count == 0 || count + axis_left(map_x as int, w as int, step_x as int) + axis_left(
                map_y as int,
                h as int,
                step_y as int,
            ) <= w + h + 3,
        decreases axis_left(map_x as int, w as int, step_x as int) + axis_left(map_y as int, h as int, step_y as int),
    {
        let side: u8;
        if side_x < side_y {
            side_x = side_x + delta_x;
            map_x = map_x + step_x;
            side = 0;
        } else {
            side_y = side_y + delta_y;
            map_y = map_y + step_y;
            side = 1;
        }
        count = count + 1;
        if map_x < 0 || map_y < 0 || map_x >= w || map_y >= h {
            return RayHit { dist: NO_HIT_DEPTH, tile: 0, side: 0 };
        }
        let tile = level.tile(map_x as i32, map_y as i32);
        proof {
            if enclosed(*level) && off_border(*level, px as int, py as int) && tile <= 0 {
                assert(!(map_x == 0 || map_y == 0 || map_x == w - 1 || map_y == h - 1));
            }
        }
        if tile > 0 {
            let num: i64 = if side == 0 {
                map_x * ONE - px + if rx < 0 { ONE } else { 0 }
            } else {
                map_y * ONE - py + if ry < 0 { ONE } else { 0 }
            };
            let r: i64 = if side == 0 { arx } else { ary };
            if r == 0 {
                return RayHit { dist: NO_HIT_DEPTH, tile: 0, side: 0 };
            }
            let an: i64 = if num >= 0 { num } else { -num };
            let raw = an * ONE / r;
            proof {
                vstd::arithmetic::div_mod::lemma_div_is_ordered_by_denominator(an * ONE, 1, r as int);
            }
            let dist = if raw < MIN_DEPTH { MIN_DEPTH } else { raw };
            let hit = RayHit { dist, tile, side };
            assert(tile > 0);
            proof {
                assert(level.tile_at(map_x as int, map_y as int) > 0);
                assert(dist == wall_distance(px as int, py as int, rx as int, ry as int, map_x as int, map_y as int, side as int));
            }
            return hit;
        }
    }
}

/// The color of a wall column: the wall's palette entry, or black where the
/// ray hit nothing, darkened to 7/10 on walls crossed at a y boundary.
pub open spec fn column_rgba(tile: int, side: int) -> (u8, u8, u8, u8) {
    let c = if tile > 0 { wall_palette(tile) } else { (0u8, 0u8, 0u8, 255u8) };
    if side == 1 {
        ((c.0 * 7 / 10) as u8, (c.1 * 7 / 10) as u8, (c.2 * 7 / 10) as u8, c.3)
    } else {
        c
    }
}

/// The scene before entities are drawn: each column's wall span, centered,
/// `h` over the depth rows tall and clipped to the screen, in the column's
/// color; sky above it and ground below.
pub open spec fn wall_pixel(level: Level, p: Player, w: int, h: int, cx: int, cy: int) -> (u8, u8, u8, u8) {
    let ray = column_ray(p, cx, w);
    let hit = dda(level, p.x as int, p.y as int, ray.0, ray.1);
    let lh = (h * ONE) / hit.0;
    let y0 = if h / 2 - lh / 2 < 0 { 0 } else { h / 2 - lh / 2 };
    let y1 = if lh / 2 + h / 2 >= h { h - 1 } else { lh / 2 + h / 2 };
    if y0 <= cy <= y1 {
        column_rgba(hit.1, hit.2)
    } else if cy < h / 2 {
        ceiling_rgba()
    } else {
        floor_rgba()
    }
}

/// The color of a wall column.
fn column_color(hit: &RayHit) -> (r: [u8; 4])
    ensures
        rgba(r) == column_rgba(hit.tile as int, hit.side as int),
{
    let c: [u8; 4] = if hit.tile > 0 { wall_color(hit.tile) } else { [0, 0, 0, 255] };
    let r: [u8; 4] = if hit.side == 1 {
        [
            (c[0] as u32 * 7 / 10) as u8,
            (c[1] as u32 * 7 / 10) as u8,
            (c[2] as u32 * 7 / 10) as u8,
            c[3],
        ]
    } else {
        c
    };
    assert(rgba(r) == column_rgba(hit.tile as int, hit.side as int));
    r
}

/// Paints rows `y0..=y1` of column `x` one color.
fn paint_column(frame: &mut Vec<u8>, w: i32, h: i32, x: i32, y0: i64, y1: i64, c: [u8; 4])
    requires
        frame_fits(old(frame)@, w as int, h as int),
        w * h * 4 <= usize::MAX,
        0 <= x < w,
        0 <= y0,
        y1 < h,
    ensures
        final(frame)@.len() == old(frame)@.len(),
        forall|cx: int, cy: int|
            0 <= cx < w && 0 <= cy < h ==> #[trigger] pixel(final(frame)@, cell(w as int, cx, cy)) == if cx
                == x && y0 <= cy <= y1 {
                rgba(c)
            } else {
                pixel(old(frame)@, cell(w as int, cx, cy))
            },
{
    let mut y: i64 = y0;
    while y <= y1
        invariant
            frame_fits(frame@, w as int, h as int),
            w * h * 4 <= usize::MAX,
            0 <= x < w,
            0 <= y0 <= y,
            y1 < h,
            y <= y1 + 1 || y == y0,
            frame@.len() == old(frame)@.len(),
            forall|cx: int, cy: int|
                0 <= cx < w && 0 <= cy < h ==> #[trigger] pixel(frame@, cell(w as int, cx, cy)) == if cx == x
                    && y0 <= cy < y {
                    rgba(c)
                } else {
                    pixel(old(frame)@, cell(w as int, cx, cy))
                },
        decreases y1 + 1 - y,
    {
        let p = pixel_index(w, h, x, y as i32);
        let ghost before = frame@;
        set_pixel(frame, p, c);
        proof {
            assert forall|cx: int, cy: int| 0 <= cx < w && 0 <= cy < h implies #[trigger] pixel(
                frame@,
                cell(w as int, cx, cy),
            ) == if cx == x && y0 <= cy < y + 1 {
                rgba(c)
            } else {
                pixel(old(frame)@, cell(w as int, cx, cy))
            } by {
                lemma_cell_index(w as int, h as int, cx, cy);
                if cell(w as int, cx, cy) == p {
                    lemma_cell_injective(w as int, cx, cy, x as int, y as int);
                } else {
                    assert(pixel(frame@, cell(w as int, cx, cy)) == pixel(before, cell(w as int, cx, cy)));
                }
            }
        }
        y = y + 1;
    }
}

/// A pixel lies in the upper `h / 2` rows exactly when its row-major index
/// is below `(h / 2) * w`.
proof fn lemma_row_half(w: int, h: int, cx: int, cy: int)
    requires
        0 <= cx < w,
        0 <= cy < h,
    ensures
        (cell(w, cx, cy) < (h / 2) * w) == (cy < h / 2),
{
    let hh = h / 2;
    if cy < hh {
        assert(cy * w + cx < hh * w) by (nonlinear_arith)
            requires
                0 <= cx < w,
                cy < hh,
                0 <= cy,
        ;
    } else {
        assert(cy * w + cx >= hh * w) by (nonlinear_arith)
            requires
                0 <= cx,
                cy >= hh,
                0 <= w,
        ;
    }
}

/// A screen of at most `MAX_SCREEN` pixels each way fits in memory indices.
proof fn lemma_screen_size(w: int, h: int)
    requires
        1 <= w <= MAX_SCREEN,
        1 <= h <= MAX_SCREEN,
    ensures
        w * h * 4 <= 0x4_0000_0000,
{
    assert(w * h * 4 <= 0x4_0000_0000) by (nonlinear_arith)
        requires
            1 <= w <= 16384,
            1 <= h <= 16384,
    ;
}

/// Draws sky, ground and one wall column per screen column, filling the
/// depth buffer with each column's wall distance (or the no-hit depth),
/// then draws the entities over it.
pub fn render_scene(
    frame: &mut Vec<u8>,
    w: i32,
    h: i32,
    level: &Level,
    player: &Player,
    sprites: &Vec<Sprite>,
    depth: &mut DepthBuffer,
)
    requires
        frame_fits(old(frame)@, w as int, h as int),
        1 <= w <= MAX_SCREEN,
        1 <= h <= MAX_SCREEN,
        old(depth).cols@.len() == w,
        level.wf(),
        player.wf(),
        -0x2000_0000 <= player.x <= 0x4000_0000,
        -0x2000_0000 <= player.y <= 0x4000_0000,
        forall|i: int| 0 <= i < sprites@.len() ==> on_grid(*level, (#[trigger] sprites@[i]).x as int, sprites@[i].y as int),
    ensures
        final(frame)@.len() == old(frame)@.len(),
        final(depth).cols@.len() == w,
        forall|x: int|
            0 <= x < w ==> {
                let ray = column_ray(*player, x, w as int);
                ||| #[trigger] final(depth).cols@[x] == NO_HIT_DEPTH
                ||| hit_depth(*level, player.x as int, player.y as int, ray.0, ray.1, final(depth).cols@[x] as int)
            },
        enclosed(*level) && off_border(*level, player.x as int, player.y as int) ==> forall|x: int|
            0 <= x < w ==> {
                let ray = column_ray(*player, x, w as int);
                hit_depth(*level, player.x as int, player.y as int, ray.0, ray.1, #[trigger] final(depth).cols@[x] as int)
            },
        forall|x: int|
            0 <= x < w ==> #[trigger] final(depth).cols@[x] == dda(
                *level,
                player.x as int,
                player.y as int,
                column_ray(*player, x, w as int).0,
                column_ray(*player, x, w as int).1,
            ).0,
        forall|cx: int, cy: int|
            0 <= cx < w && 0 <= cy < h ==> composited(
                *player,
                sprites@,
                w as int,
                h as int,
                final(depth).cols@[cx] as int,
                cx,
                cy,
                #[trigger] pixel(final(frame)@, cell(w as int, cx, cy)),
                wall_pixel(*level, *player, w as int, h as int, cx, cy),
            ),
{
    proof {
        lemma_screen_size(w as int, h as int);
        lemma_basis_of_angle(player.angle as int);
    }
    draw_ceiling_floor(frame, w, h);
    proof {
        assert forall|cx: int, cy: int| 0 <= cx < w && 0 <= cy < h implies #[trigger] pixel(
            frame@,
            cell(w as int, cx, cy),
        ) == if cy < h / 2 {
            ceiling_rgba()
        } else {
            floor_rgba()
        } by {
            lemma_cell_index(w as int, h as int, cx, cy);
            lemma_row_half(w as int, h as int, cx, cy);
        }
    }
    let flen = frame.len();
    let mut x: i32 = 0;
    while x < w
        invariant
            frame_fits(frame@, w as int, h as int),
            frame@.len() == flen,
            frame@.len() == old(frame)@.len(),
            w * h * 4 <= 0x4_0000_0000,
            1 <= w <= MAX_SCREEN,
            1 <= h <= MAX_SCREEN,
            0 <= x <= w,
            depth.cols@.len() == w,
            forall|i: int|
                0 <= i < x ==> #[trigger] depth.cols@[i] == dda(
                    *level,
                    player.x as int,
                    player.y as int,
                    column_ray(*player, i, w as int).0,
                    column_ray(*player, i, w as int).1,
                ).0,
            forall|cx: int, cy: int|
                0 <= cx < w && 0 <= cy < h ==> #[trigger] pixel(frame@, cell(w as int, cx, cy)) == if cx < x {
                    wall_pixel(*level, *player, w as int, h as int, cx, cy)
                } else if cy < h / 2 {
                    ceiling_rgba()
                } else {
                    floor_rgba()
                },
            level.wf(),
            player.wf(),
            -0x2000_0000 <= player.x <= 0x4000_0000,
            -0x2000_0000 <= player.y <= 0x4000_0000,
            -0x20_0000 < player.dir_x < 0x20_0000,
            -0x20_0000 < player.dir_y < 0x20_0000,
            forall|i: int|
                0 <= i < x ==> {
                    let ray = column_ray(*player, i, w as int);
                    ||| #[trigger] depth.cols@[i] == NO_HIT_DEPTH
                    ||| hit_depth(*level, player.x as int, player.y as int, ray.0, ray.1, depth.cols@[i] as int)
                },
            enclosed(*level) && off_border(*level, player.x as int, player.y as int) ==> forall|i: int|
                0 <= i < x ==> {
                    let ray = column_ray(*player, i, w as int);
                    hit_depth(*level, player.x as int, player.y as int, ray.0, ray.1, #[trigger] depth.cols@[i] as int)
                },
        decreases w - x,
    {
        proof {
            assert(0 <= 2 * x * ONE <= 2 * w * ONE) by (nonlinear_arith)
                requires
                    0 <= x <= w,
            ;
            vstd::arithmetic::div_mod::lemma_div_is_ordered(2 * x * ONE, 2 * w * ONE, w as int);
            vstd::arithmetic::div_mod::lemma_div_pos_is_pos(2 * x * ONE, w as int);
            assert((2 * w * ONE) / (w as int) == 2 * ONE) by {
                vstd::arithmetic::div_mod::lemma_div_multiples_vanish(2 * ONE, w as int);
                assert(2 * w * ONE == w * (2 * ONE)) by (nonlinear_arith);
            }
        }
        let cam = (2 * x as i64 * ONE) / w as i64 - ONE;
        proof {
            assert(-0x40_0000_0000 <= player.plane_x * cam <= 0x40_0000_0000) by (nonlinear_arith)
                requires
                    -ONE <= cam <= ONE,
                    -0x20_0000 <= player.plane_x <= 0x20_0000,
            ;
            assert(-0x40_0000_0000 <= player.plane_y * cam <= 0x40_0000_0000) by (nonlinear_arith)
                requires
                    -ONE <= cam <= ONE,
                    -0x20_0000 <= player.plane_y <= 0x20_0000,
            ;
            vstd::arithmetic::div_mod::lemma_div_is_ordered(
                if player.plane_x * cam >= 0 { player.plane_x * cam } else { -(player.plane_x * cam) },
                0x40_0000_0000,
                ONE as int,
            );
            vstd::arithmetic::div_mod::lemma_div_is_ordered(
                if player.plane_y * cam >= 0 { player.plane_y * cam } else { -(player.plane_y * cam) },
                0x40_0000_0000,
                ONE as int,
            );
        }
        let rx = player.dir_x + div_trunc(player.plane_x * cam, ONE);
        let ry = player.dir_y + div_trunc(player.plane_y * cam, ONE);
        proof {
            lemma_ray_nonzero(*player, cam as int);
        }
        let hit = cast_ray(level, player.x, player.y, rx, ry);
        let line_height = (h as i64 * ONE) / hit.dist;
        proof {
            vstd::arithmetic::div_mod::lemma_div_is_ordered_by_denominator(h * ONE, 1, hit.dist as int);
        }
        let mut draw_start = h as i64 / 2 - line_height / 2;
        if draw_start < 0 {
            draw_start = 0;
        }
        let mut draw_end = line_height / 2 + h as i64 / 2;
        if draw_end >= h as i64 {
            draw_end = h as i64 - 1;
        }
        let color = column_color(&hit);
        paint_column(frame, w, h, x, draw_start, draw_end, color);
        depth.cols.set(x as usize, hit.dist);
        x = x + 1;
    }
    render_sprites(frame, w, h, player, sprites, depth);
}

/// Entities farther than this many fixed-point units in front of the camera
/// plane are drawn: 0.01 tiles.
pub const NEAR_PLANE: i64 = 655;

/// Whether index `i` occurs in `s`.
pub open spec fn holds_index(s: Seq<usize>, i: int) -> bool {
    exists|m: int| 0 <= m < s.len() && #[trigger] s[m] == i
}

/// The indices `0..n` of `keys`, each once, ordered by descending key.
pub fn sort_far_to_near(keys: &Vec<i64>) -> (r: Vec<usize>)
    ensures
        r@.len() == keys@.len(),
        forall|i: int| 0 <= i < r@.len() ==> (#[trigger] r@[i]) < keys@.len(),
        forall|i: int, j: int| 0 <= i < j < r@.len() ==> r@[i] != r@[j],
        forall|i: int| 0 <= i < keys@.len() ==> #[trigger] holds_index(r@, i),
        forall|i: int, j: int|
            0 <= i < j < r@.len() ==> keys@[#[trigger] r@[i] as int] >= keys@[#[trigger] r@[j] as int],
{
    let n = keys.len();
    let mut order: Vec<usize> = Vec::new();
    let mut k: usize = 0;
    while k < n
        invariant
            n == keys@.len(),
            k <= n,
            order@.len() == k,
            forall|i: int| 0 <= i < order@.len() ==> (#[trigger] order@[i]) < k,
            forall|i: int, j: int| 0 <= i < j < order@.len() ==> order@[i] != order@[j],
            forall|i: int| 0 <= i < k ==> #[trigger] holds_index(order@, i),
            forall|i: int, j: int|
                0 <= i < j < order@.len() ==> keys@[#[trigger] order@[i] as int] >= keys@[#[trigger] order@[j] as int],
        decreases n - k,
    {
        // Insert `k` after every entry whose key is at least its own.
        let key = keys[k];
        let mut pos: usize = 0;
        while pos < order.len() && keys[order[pos]] >= key
            invariant
                n == keys@.len(),
                k < n,
                key == keys@[k as int],
                pos <= order@.len(),
                forall|i: int| 0 <= i < order@.len() ==> (#[trigger] order@[i]) < k,
                forall|i: int| 0 <= i < pos ==> keys@[(#[trigger] order@[i]) as int] >= key,
            decreases order@.len() - pos,
        {
            pos = pos + 1;
        }
        let ghost before = order@;
        order.insert(pos, k);
        proof {
            assert(order@ == before.insert(pos as int, k));
            assert forall|i: int, j: int| 0 <= i < j < order@.len() implies keys@[#[trigger] order@[i] as int]
                >= keys@[#[trigger] order@[j] as int] by {
                if j < pos {
                } else if j == pos {
                    assert(order@[i] == before[i]);
                } else if i == pos {
                    assert(order@[j] == before[j - 1]);
                    if pos < before.len() {
                        assert(keys@[before[pos as int] as int] < key);
                        assert(keys@[before[pos as int] as int] >= keys@[before[j - 1] as int] || j - 1 == pos);
                    }
                } else if i < pos {
                    assert(order@[j] == before[j - 1]);
                    assert(order@[i] == before[i]);
                } else {
                    assert(order@[j] == before[j - 1]);
                    assert(order@[i] == before[i - 1]);
                }
            }
            assert forall|i: int| 0 <= i < order@.len() implies (#[trigger] order@[i]) < k + 1 by {
                if i < pos {
                    assert(order@[i] == before[i]);
                } else if i > pos {
                    assert(order@[i] == before[i - 1]);
                }
            }
            assert forall|i: int| 0 <= i < k + 1 implies #[trigger] holds_index(order@, i) by {
                if i == k {
                    assert(order@[pos as int] == k);
                } else {
                    assert(holds_index(before, i));
                    let m = choose|m: int| 0 <= m < before.len() && #[trigger] before[m] == i;
                    if m < pos {
                        assert(order@[m] == before[m]);
                    } else {
                        assert(order@[m + 1] == before[m]);
                    }
                }
            }
            assert forall|i: int, j: int| 0 <= i < j < order@.len() implies order@[i] != order@[j] by {
                if j < pos {
                    assert(order@[i] == before[i] && order@[j] == before[j]);
                } else if j == pos {
                    assert(order@[i] == before[i]);
                } else if i == pos {
                    assert(order@[j] == before[j - 1]);
                } else if i < pos {
                    assert(order@[i] == before[i] && order@[j] == before[j - 1]);
                } else {
                    assert(order@[i] == before[i - 1] && order@[j] == before[j - 1]);
                }
            }
        }
        k = k + 1;
    }
    order
}

/// `v` held within `[lo, hi]`.
pub open spec fn clamp_spec(v: int, lo: int, hi: int) -> int {
    if v < lo {
        lo
    } else if v > hi {
        hi
    } else {
        v
    }
}

/// `v` held within `[lo, hi]`.
fn clamp(v: i64, lo: i64, hi: i64) -> (r: i64)
    requires
        lo <= hi,
    ensures
        r == clamp_spec(v as int, lo as int, hi as int),
{
    if v < lo {
        lo
    } else if v > hi {
        hi
    } else {
        v
    }
}

/// A color dimmed by `shade / 255`, made opaque.
pub open spec fn shade_rgba(c: (u8, u8, u8, u8), shade: int) -> (u8, u8, u8, u8) {
    (
        (c.0 as int * shade / 255) as u8,
        (c.1 as int * shade / 255) as u8,
        (c.2 as int * shade / 255) as u8,
        255u8,
    )
}

/// A color dimmed by `shade / 255`, made opaque.
fn shaded(c: [u8; 4], shade: u32) -> (r: [u8; 4])
    requires
        shade <= 255,
    ensures
        rgba(r) == shade_rgba(rgba(c), shade as int),
{
    proof {
        assert(c[0] as u32 * shade <= 255 * 255) by (nonlinear_arith)
            requires
                c[0] <= 255,
                shade <= 255,
        ;
        assert(c[1] as u32 * shade <= 255 * 255) by (nonlinear_arith)
            requires
                c[1] <= 255,
                shade <= 255,
        ;
        assert(c[2] as u32 * shade <= 255 * 255) by (nonlinear_arith)
            requires
                c[2] <= 255,
                shade <= 255,
        ;
    }
    let r: [u8; 4] = [
        (c[0] as u32 * shade / 255) as u8,
        (c[1] as u32 * shade / 255) as u8,
        (c[2] as u32 * shade / 255) as u8,
        255,
    ];
    assert(rgba(r) == shade_rgba(rgba(c), shade as int));
    r
}

/// Distance shading of an entity at forward depth `ty`: `start - ty * num /
/// den` (fixed point), held within `[0.5, 1]`, as a byte.
pub open spec fn depth_shade_spec(ty: int, start: int, num: int, den: int) -> int {
    clamp_spec(start - ty * num / den, ONE / 2, ONE as int) * 255 / ONE as int
}

/// Distance shading of an entity at forward depth `ty`.
fn depth_shade(ty: i64, start: i64, num: i64, den: i64) -> (r: u32)
    requires
        0 <= ty <= 0x20_0000_0000_0000,
        0 <= num <= 100,
        1 <= den <= 100,
        0 <= start <= 2 * ONE,
    ensures
        r <= 255,
        r == depth_shade_spec(ty as int, start as int, num as int, den as int),
{
    proof {
        assert(0 <= ty * num <= 0x20_0000_0000_0000 * 100) by (nonlinear_arith)
            requires
                0 <= ty <= 0x20_0000_0000_0000,
                0 <= num <= 100,
        ;
    }
    let s = clamp(start - ty * num / den, ONE / 2, ONE);
    proof {
        assert(s * 255 / (ONE as int) <= 255) by (nonlinear_arith)
            requires
                ONE / 2 <= s <= ONE,
        ;
    }
    (s * 255 / ONE) as u32
}

/// The adversary silhouette in sprite-local coordinates (fixed point; `nx`
/// across in `[-1, 1]`, `ty` down in `[0, 1]`): a dome of radius 0.45, a body
/// down to 0.9 and 0.85 wide each way, and three half-domes of radius 0.12
/// along the bottom edge.
pub open spec fn in_silhouette_spec(nx: int, ty: int) -> bool {
    let r = 29491int;
    let rr = 7864int;
    let dy = ty - 58982;
    ||| (ty <= r && nx * nx + (ty - r) * (ty - r) <= r * r)
    ||| (ty > r && ty <= 58982 && -55706 <= nx <= 55706)
    ||| (ty > 58982 && ty <= ONE && ((nx + 32768) * (nx + 32768) + dy * dy <= rr * rr || nx * nx + dy
        * dy <= rr * rr || (nx - 32768) * (nx - 32768) + dy * dy <= rr * rr))
}

/// Whether sprite-local point `(nx, ty)` lies in the adversary silhouette.
fn in_silhouette(nx: i64, ty: i64) -> (b: bool)
    requires
        -0x10_0000 <= nx <= 0x10_0000,
        -0x10_0000 <= ty <= 0x10_0000,
    ensures
        b == in_silhouette_spec(nx as int, ty as int),
{
    let r: i64 = 29491;
    proof {
        lemma_sq(nx as int, 0x10_0000);
        lemma_sq(ty - r, 0x20_0000);
        lemma_sq(nx + 32768, 0x20_0000);
        lemma_sq(nx - 32768, 0x20_0000);
        lemma_sq(ty - 58982, 0x20_0000);
    }
    let mut inside = false;
    if ty <= r {
        let dy = ty - r;
        if nx * nx + dy * dy <= r * r {
            inside = true;
        }
    }
    let anx = if nx < 0 { -nx } else { nx };
    if ty > r && ty <= 58982 && anx <= 55706 {
        inside = true;
    }
    if ty > 58982 && ty <= ONE {
        let rr: i64 = 7864;
        let dy = ty - 58982;
        let d0 = nx + 32768;
        let d2 = nx - 32768;
        if d0 * d0 + dy * dy <= rr * rr || nx * nx + dy * dy <= rr * rr || d2 * d2 + dy * dy <= rr * rr {
            inside = true;
        }
    }
    inside
}

/// The color of an adversary at sprite-local point `(nx, ty)`: its body
/// color by animation frame, two white eyes of radius 0.12 at height 0.35
/// and 0.17 either side, with blue pupils of radius 0.06.
pub open spec fn adversary_rgba(nx: int, ty: int, anim_frame: usize) -> (u8, u8, u8, u8) {
    let dl = (nx + 11141) * (nx + 11141) + (ty - 22938) * (ty - 22938);
    let dr = (nx - 11141) * (nx - 11141) + (ty - 22938) * (ty - 22938);
    if dl <= 7864 * 7864 || dr <= 7864 * 7864 {
        if dl <= 3932 * 3932 || dr <= 3932 * 3932 {
            (60u8, 100u8, 255u8, 255u8)
        } else {
            (250u8, 250u8, 250u8, 255u8)
        }
    } else if anim_frame == 0 {
        (255u8, 120u8, 120u8, 235u8)
    } else {
        (255u8, 150u8, 150u8, 235u8)
    }
}

/// The color of an adversary at sprite-local point `(nx, ty)`.
fn adversary_color(nx: i64, ty: i64, anim_frame: usize) -> (r: [u8; 4])
    requires
        -0x10_0000 <= nx <= 0x10_0000,
        -0x10_0000 <= ty <= 0x10_0000,
    ensures
        rgba(r) == adversary_rgba(nx as int, ty as int, anim_frame),
{
    let base: [u8; 4] = if anim_frame == 0 { [255, 120, 120, 235] } else { [255, 150, 150, 235] };
    let eye_y: i64 = 22938;
    let eye_x: i64 = 11141;
    let eye_r: i64 = 7864;
    let pupil_r: i64 = 3932;
    let dlx = nx + eye_x;
    let drx = nx - eye_x;
    let dy = ty - eye_y;
    proof {
        lemma_sq(dlx as int, 0x20_0000);
        lemma_sq(drx as int, 0x20_0000);
        lemma_sq(dy as int, 0x20_0000);
    }
    let dl = dlx * dlx + dy * dy;
    let dr = drx * drx + dy * dy;
    let c: [u8; 4] = if dl <= eye_r * eye_r || dr <= eye_r * eye_r {
        if dl <= pupil_r * pupil_r || dr <= pupil_r * pupil_r {
            [60, 100, 255, 255]
        } else {
            [250, 250, 250, 255]
        }
    } else {
        base
    };
    assert(rgba(c) == adversary_rgba(nx as int, ty as int, anim_frame));
    c
}

/// The forward (camera-space) depth of an entity, with the camera basis
/// determinant `det`.
pub open spec fn forward_depth(p: Player, s: Sprite, det: int) -> int {
    tdiv(p.plane_x * (s.y - p.y) - p.plane_y * (s.x - p.x), det)
}

/// The sideways (camera-space) offset of an entity.
pub open spec fn side_offset(p: Player, s: Sprite, det: int) -> int {
    tdiv(p.dir_y * (s.x - p.x) - p.dir_x * (s.y - p.y), det)
}

/// The determinant of the camera basis, fixed point.
pub open spec fn basis_det(p: Player) -> int {
    tdiv(p.plane_x * p.dir_y - p.dir_x * p.plane_y, ONE as int)
}

/// The screen column of an entity's center; one this far off screen draws
/// nothing either way, so it is held within `2^40`.
pub open spec fn sprite_center(p: Player, s: Sprite, det: int, w: int) -> int {
    let ty = forward_depth(p, s, det);
    let tx = side_offset(p, s, det);
    clamp_spec(tdiv(w * (ty + tx), 2 * ty), -0x100_0000_0000, 0x100_0000_0000)
}

/// The on-screen size of an entity: the view height over its forward depth,
/// scaled to 0.35 for pickups and 0.9 for adversaries.
pub open spec fn sprite_size(p: Player, s: Sprite, det: int, h: int) -> int {
    let scale = if s.kind == SpriteKind::Pellet { 35int } else { 90int };
    (h * ONE * scale) / (100 * forward_depth(p, s, det))
}

/// The color entity `s` puts on pixel `(cx, cy)`, if any, where the wall in
/// column `cx` is at depth `wall`: nothing unless the camera basis is proper,
/// the entity is in front of the near plane and nearer than the wall, and
/// the pixel lies in its on-screen square and in its shape (a disc for a
/// pickup, the silhouette for an adversary). Colors are shaded by depth and
/// opaque.
pub open spec fn sprite_paint(p: Player, s: Sprite, det: int, w: int, h: int, wall: int, cx: int, cy: int) -> Option<
    (u8, u8, u8, u8),
> {
    let ty = forward_depth(p, s, det);
    let sx = sprite_center(p, s, det, w);
    let sh = sprite_size(p, s, det, h);
    let hh = h / 2;
    let y0 = if hh - sh / 2 < 0 { 0 } else { hh - sh / 2 };
    let y1 = if sh / 2 + hh > h - 1 { h - 1 } else { sh / 2 + hh };
    let x0 = if sx - sh / 2 < 0 { 0 } else { sx - sh / 2 };
    let x1 = if sh / 2 + sx > w - 1 { w - 1 } else { sh / 2 + sx };
    if det > 0 && ty > NEAR_PLANE && sh != 0 && x0 <= cx <= x1 && y0 <= cy <= y1 && ty < wall {
        let nx = tdiv((cx - sx) * 2 * ONE, sh);
        let ny = tdiv((cy - hh) * 2 * ONE, sh);
        let row = (cy - hh + sh / 2) * ONE / sh;
        if s.kind == SpriteKind::Pellet {
            if nx * nx + ny * ny <= ONE * ONE {
                Some(shade_rgba((255u8, 230u8, 0u8, 255u8), depth_shade_spec(ty, 78643, 1, 10)))
            } else {
                None
            }
        } else if in_silhouette_spec(nx, row) {
            Some(shade_rgba(adversary_rgba(nx, row, s.anim_frame), depth_shade_spec(ty, 72090, 8, 100)))
        } else {
            None
        }
    } else {
        None
    }
}

/// A pixel after drawing one entity over it.
pub open spec fn painted(c: Option<(u8, u8, u8, u8)>, before: (u8, u8, u8, u8)) -> (u8, u8, u8, u8) {
    match c {
        Some(v) => v,
        None => before,
    }
}

/// Squared distance from the camera to an entity: the drawing order key.
pub open spec fn sprite_dist2(p: Player, s: Sprite) -> int {
    (s.x - p.x) * (s.x - p.x) + (s.y - p.y) * (s.y - p.y)
}

/// `composited`, for the entities `order[0..k]` drawn in that order.
pub open spec fn composited_upto(
    p: Player,
    sprites: Seq<Sprite>,
    order: Seq<usize>,
    k: int,
    w: int,
    h: int,
    wall: int,
    cx: int,
    cy: int,
    px: (u8, u8, u8, u8),
    before: (u8, u8, u8, u8),
) -> bool {
    let det = basis_det(p);
    &&& (forall|m: int| 0 <= m < k ==> #[trigger] sprite_paint(p, sprites[order[m] as int], det, w, h, wall, cx, cy) is None)
        ==> px == before
    &&& (exists|m: int| 0 <= m < k && #[trigger] sprite_paint(p, sprites[order[m] as int], det, w, h, wall, cx, cy) is Some)
        ==> exists|m: int|
        0 <= m < k && #[trigger] sprite_paint(p, sprites[order[m] as int], det, w, h, wall, cx, cy) == Some(px)
            && forall|m2: int|
            0 <= m2 < k && (#[trigger] sprite_paint(p, sprites[order[m2] as int], det, w, h, wall, cx, cy)) is Some
                ==> sprite_dist2(p, sprites[order[m] as int]) <= sprite_dist2(p, sprites[order[m2] as int])
}

/// What the entities leave on pixel `(cx, cy)` drawn far to near: if none
/// paints it, it keeps `before`; otherwise it holds the paint of a nearest
/// entity among those that paint it.
pub open spec fn composited(
    p: Player,
    sprites: Seq<Sprite>,
    w: int,
    h: int,
    wall: int,
    cx: int,
    cy: int,
    px: (u8, u8, u8, u8),
    before: (u8, u8, u8, u8),
) -> bool {
    let det = basis_det(p);
    &&& (forall|i: int| 0 <= i < sprites.len() ==> #[trigger] sprite_paint(p, sprites[i], det, w, h, wall, cx, cy) is None)
        ==> px == before
    &&& (exists|i: int| 0 <= i < sprites.len() && #[trigger] sprite_paint(p, sprites[i], det, w, h, wall, cx, cy) is Some)
        ==> exists|j: int|
        0 <= j < sprites.len() && #[trigger] sprite_paint(p, sprites[j], det, w, h, wall, cx, cy) == Some(px)
            && forall|i: int|
            0 <= i < sprites.len() && (#[trigger] sprite_paint(p, sprites[i], det, w, h, wall, cx, cy)) is Some
                ==> sprite_dist2(p, sprites[j]) <= sprite_dist2(p, sprites[i])
}

/// Draws the entities far to near as camera-facing squares: pickups as
/// discs, adversaries as a silhouette with eyes. A column of an entity is
/// drawn only where the entity is nearer than the wall in the depth buffer.
#[verifier::rlimit(100)]
pub fn render_sprites(
    frame: &mut Vec<u8>,
    w: i32,
    h: i32,
    p: &Player,
    sprites: &Vec<Sprite>,
    depth: &DepthBuffer,
)
    requires
        frame_fits(old(frame)@, w as int, h as int),
        1 <= w <= MAX_SCREEN,
        1 <= h <= MAX_SCREEN,
        depth.cols@.len() >= w,
        p.wf(),
        -0x2000_0000 <= p.x <= 0x4000_0000,
        -0x2000_0000 <= p.y <= 0x4000_0000,
        forall|i: int|
            0 <= i < sprites@.len() ==> 0 <= (#[trigger] sprites@[i]).x < 0x4000_0000 && 0 <= sprites@[i].y
                < 0x4000_0000,
    ensures
        final(frame)@.len() == old(frame)@.len(),
        forall|cx: int, cy: int|
            0 <= cx < w && 0 <= cy < h ==> composited(
                *p,
                sprites@,
                w as int,
                h as int,
                depth.cols@[cx] as int,
                cx,
                cy,
                #[trigger] pixel(final(frame)@, cell(w as int, cx, cy)),
                pixel(old(frame)@, cell(w as int, cx, cy)),
            ),
{
    proof {
        lemma_screen_size(w as int, h as int);
        lemma_basis_of_angle(p.angle as int);
    }
    let ghost start = frame@;
    let n = sprites.len();
    let mut keys: Vec<i64> = Vec::new();
    let mut i: usize = 0;
    while i < n
        invariant
            n == sprites@.len(),
            i <= n,
            keys@.len() == i,
            forall|k: int| 0 <= k < i ==> #[trigger] keys@[k] == sprite_dist2(*p, sprites@[k]),
            -0x2000_0000 <= p.x <= 0x4000_0000,
            -0x2000_0000 <= p.y <= 0x4000_0000,
            forall|k: int|
                0 <= k < sprites@.len() ==> 0 <= (#[trigger] sprites@[k]).x < 0x4000_0000 && 0 <= sprites@[k].y
                    < 0x4000_0000,
        decreases n - i,
    {
        let dx = sprites[i].x - p.x;
        let dy = sprites[i].y - p.y;
        proof {
            assert(0 <= dx * dx <= 0x2400_0000_0000_0000) by (nonlinear_arith)
                requires
                    -0x6000_0000 <= dx <= 0x6000_0000,
            ;
            assert(0 <= dy * dy <= 0x2400_0000_0000_0000) by (nonlinear_arith)
                requires
                    -0x6000_0000 <= dy <= 0x6000_0000,
            ;
        }
        keys.push(dx * dx + dy * dy);
        i = i + 1;
    }
    let order = sort_far_to_near(&keys);
    proof {
        assert(-0x400_0000_0000 <= p.plane_x * p.dir_y <= 0x400_0000_0000) by (nonlinear_arith)
            requires
                -0x20_0000 <= p.plane_x <= 0x20_0000,
                -0x20_0000 <= p.dir_y <= 0x20_0000,
        ;
        assert(-0x400_0000_0000 <= p.dir_x * p.plane_y <= 0x400_0000_0000) by (nonlinear_arith)
            requires
                -0x20_0000 <= p.plane_y <= 0x20_0000,
                -0x20_0000 <= p.dir_x <= 0x20_0000,
        ;
    }
    let det = div_trunc(p.plane_x * p.dir_y - p.dir_x * p.plane_y, ONE);
    let flen = frame.len();
    if det <= 0 {
        return;
    }
    proof {
        assert forall|cx: int, cy: int| 0 <= cx < w && 0 <= cy < h implies composited_upto(
            *p,
            sprites@,
            order@,
            0,
            w as int,
            h as int,
            depth.cols@[cx] as int,
            cx,
            cy,
            #[trigger] pixel(frame@, cell(w as int, cx, cy)),
            pixel(start, cell(w as int, cx, cy)),
        ) by {}
    }
    let mut k: usize = 0;
    while k < n
        invariant
            n == sprites@.len(),
            order@.len() == n,
            forall|i: int| 0 <= i < order@.len() ==> (#[trigger] order@[i]) < n,
            forall|i: int| 0 <= i < n ==> #[trigger] holds_index(order@, i),
            k <= n,
            det > 0,
            det == basis_det(*p),
            start == old(frame)@,
            forall|i: int, j: int|
                0 <= i < j < order@.len() ==> keys@[#[trigger] order@[i] as int] >= keys@[#[trigger] order@[j] as int],
            keys@.len() == n,
            forall|i: int| 0 <= i < n ==> #[trigger] keys@[i] == sprite_dist2(*p, sprites@[i]),
            forall|cx: int, cy: int|
                0 <= cx < w && 0 <= cy < h ==> composited_upto(
                    *p,
                    sprites@,
                    order@,
                    k as int,
                    w as int,
                    h as int,
                    depth.cols@[cx] as int,
                    cx,
                    cy,
                    #[trigger] pixel(frame@, cell(w as int, cx, cy)),
                    pixel(start, cell(w as int, cx, cy)),
                ),
            frame@.len() == flen,
            frame_fits(frame@, w as int, h as int),
            frame@.len() == old(frame)@.len(),
            w * h * 4 <= 0x4_0000_0000,
            1 <= w <= MAX_SCREEN,
            1 <= h <= MAX_SCREEN,
            depth.cols@.len() >= w,
            p.wf(),
            -0x20_0000 <= p.dir_x <= 0x20_0000,
            -0x20_0000 <= p.dir_y <= 0x20_0000,
            -0x20_0000 <= p.plane_x <= 0x20_0000,
            -0x20_0000 <= p.plane_y <= 0x20_0000,
            -0x2000_0000 <= p.x <= 0x4000_0000,
            -0x2000_0000 <= p.y <= 0x4000_0000,
            forall|i: int|
                0 <= i < sprites@.len() ==> 0 <= (#[trigger] sprites@[i]).x < 0x4000_0000 && 0 <= sprites@[i].y
                    < 0x4000_0000,
        decreases n - k,
    {
        let s = sprites[order[k]];
        let ghost before = frame@;
        draw_sprite(frame, w, h, p, &s, depth, det);
        proof {
            let o = order@;
            assert forall|cx: int, cy: int| 0 <= cx < w && 0 <= cy < h implies composited_upto(
                *p,
                sprites@,
                o,
                k + 1,
                w as int,
                h as int,
                depth.cols@[cx] as int,
                cx,
                cy,
                #[trigger] pixel(frame@, cell(w as int, cx, cy)),
                pixel(start, cell(w as int, cx, cy)),
            ) by {
                let wall = depth.cols@[cx] as int;
                let pk = sprite_paint(*p, sprites@[o[k as int] as int], det as int, w as int, h as int, wall, cx, cy);
                assert(s == sprites@[o[k as int] as int]);
                assert(composited_upto(*p, sprites@, o, k as int, w as int, h as int, wall, cx, cy, pixel(before, cell(w as int, cx, cy)), pixel(start, cell(w as int, cx, cy))));
                if pk is Some {
                    assert forall|m2: int|
                        0 <= m2 < k + 1 && (#[trigger] sprite_paint(*p, sprites@[o[m2] as int], det as int, w as int, h as int, wall, cx, cy)) is Some
                        implies sprite_dist2(*p, sprites@[o[k as int] as int]) <= sprite_dist2(*p, sprites@[o[m2] as int]) by {
                        if m2 < k {
                            assert(keys@[o[m2] as int] >= keys@[o[k as int] as int]);
                        }
                    }
                } else {
                    if exists|m: int| 0 <= m < k + 1 && #[trigger] sprite_paint(*p, sprites@[o[m] as int], det as int, w as int, h as int, wall, cx, cy) is Some {
                        let m = choose|m: int| 0 <= m < k + 1 && #[trigger] sprite_paint(*p, sprites@[o[m] as int], det as int, w as int, h as int, wall, cx, cy) is Some;
                        assert(m < k);
                        let mm = choose|mm: int|
                            0 <= mm < k && #[trigger] sprite_paint(*p, sprites@[o[mm] as int], det as int, w as int, h as int, wall, cx, cy) == Some(pixel(before, cell(w as int, cx, cy)))
                            && forall|m2: int|
                            0 <= m2 < k && (#[trigger] sprite_paint(*p, sprites@[o[m2] as int], det as int, w as int, h as int, wall, cx, cy)) is Some
                                ==> sprite_dist2(*p, sprites@[o[mm] as int]) <= sprite_dist2(*p, sprites@[o[m2] as int]);
                        assert forall|m2: int|
                            0 <= m2 < k + 1 && (#[trigger] sprite_paint(*p, sprites@[o[m2] as int], det as int, w as int, h as int, wall, cx, cy)) is Some
                            implies sprite_dist2(*p, sprites@[o[mm] as int]) <= sprite_dist2(*p, sprites@[o[m2] as int]) by {
                            if m2 == k {
                                assert(false);
                            }
                        }
                    }
                }
            }
        }
        k = k + 1;
    }
    proof {
        let o = order@;
        assert forall|cx: int, cy: int| 0 <= cx < w && 0 <= cy < h implies composited(
            *p,
            sprites@,
            w as int,
            h as int,
            depth.cols@[cx] as int,
            cx,
            cy,
            #[trigger] pixel(frame@, cell(w as int, cx, cy)),
            pixel(old(frame)@, cell(w as int, cx, cy)),
        ) by {
            let wall = depth.cols@[cx] as int;
            let d = basis_det(*p);
            let px = pixel(frame@, cell(w as int, cx, cy));
            assert(composited_upto(*p, sprites@, o, n as int, w as int, h as int, wall, cx, cy, px, pixel(start, cell(w as int, cx, cy))));
            if forall|i: int| 0 <= i < sprites@.len() ==> #[trigger] sprite_paint(*p, sprites@[i], d, w as int, h as int, wall, cx, cy) is None {
                assert forall|m: int| 0 <= m < n implies #[trigger] sprite_paint(*p, sprites@[o[m] as int], d, w as int, h as int, wall, cx, cy) is None by {
                    assert(o[m] < n);
                }
            }
            if exists|i: int| 0 <= i < sprites@.len() && #[trigger] sprite_paint(*p, sprites@[i], d, w as int, h as int, wall, cx, cy) is Some {
                let i = choose|i: int| 0 <= i < sprites@.len() && #[trigger] sprite_paint(*p, sprites@[i], d, w as int, h as int, wall, cx, cy) is Some;
                assert(holds_index(o, i));
                let m = choose|m: int| 0 <= m < o.len() && #[trigger] o[m] == i;
                assert(sprite_paint(*p, sprites@[o[m] as int], d, w as int, h as int, wall, cx, cy) is Some);
                let mm = choose|mm: int|
                    0 <= mm < n && #[trigger] sprite_paint(*p, sprites@[o[mm] as int], d, w as int, h as int, wall, cx, cy) == Some(px)
                    && forall|m2: int|
                    0 <= m2 < n && (#[trigger] sprite_paint(*p, sprites@[o[m2] as int], d, w as int, h as int, wall, cx, cy)) is Some
                        ==> sprite_dist2(*p, sprites@[o[mm] as int]) <= sprite_dist2(*p, sprites@[o[m2] as int]);
                let j = o[mm] as int;
                assert(0 <= j < sprites@.len());
                assert forall|i2: int|
                    0 <= i2 < sprites@.len() && (#[trigger] sprite_paint(*p, sprites@[i2], d, w as int, h as int, wall, cx, cy)) is Some
                    implies sprite_dist2(*p, sprites@[j]) <= sprite_dist2(*p, sprites@[i2]) by {
                    assert(holds_index(o, i2));
                    let m2 = choose|m2: int| 0 <= m2 < o.len() && #[trigger] o[m2] == i2;
                    assert(sprite_paint(*p, sprites@[o[m2] as int], d, w as int, h as int, wall, cx, cy) is Some);
                }
                assert(sprite_paint(*p, sprites@[j], d, w as int, h as int, wall, cx, cy) == Some(px));
            }
        }
    }
}

/// Draws one entity; see `render_sprites`.
fn draw_sprite(frame: &mut Vec<u8>, w: i32, h: i32, p: &Player, s: &Sprite, depth: &DepthBuffer, det: i64)
    requires
        frame_fits(old(frame)@, w as int, h as int),
        w * h * 4 <= 0x4_0000_0000,
        1 <= w <= MAX_SCREEN,
        1 <= h <= MAX_SCREEN,
        depth.cols@.len() >= w,
        det > 0,
        -0x20_0000 <= p.dir_x <= 0x20_0000,
        -0x20_0000 <= p.dir_y <= 0x20_0000,
        -0x20_0000 <= p.plane_x <= 0x20_0000,
        -0x20_0000 <= p.plane_y <= 0x20_0000,
        -0x2000_0000 <= p.x <= 0x4000_0000,
        -0x2000_0000 <= p.y <= 0x4000_0000,
        0 <= s.x < 0x4000_0000,
        0 <= s.y < 0x4000_0000,
    ensures
        final(frame)@.len() == old(frame)@.len(),
        forall|cx: int, cy: int|
            0 <= cx < w && 0 <= cy < h ==> #[trigger] pixel(final(frame)@, cell(w as int, cx, cy))
                == painted(
                sprite_paint(*p, *s, det as int, w as int, h as int, depth.cols@[cx] as int, cx, cy),
                pixel(old(frame)@, cell(w as int, cx, cy)),
            ),
{
    let ghost start = frame@;
    let sx = s.x - p.x;
    let sy = s.y - p.y;
    proof {
        assert(-0x10_0000_0000_0000 <= p.dir_y * sx <= 0x10_0000_0000_0000) by (nonlinear_arith)
            requires
                -0x20_0000 <= p.dir_y <= 0x20_0000,
                -0x6000_0000 <= sx <= 0x6000_0000,
        ;
        assert(-0x10_0000_0000_0000 <= p.dir_x * sy <= 0x10_0000_0000_0000) by (nonlinear_arith)
            requires
                -0x20_0000 <= p.dir_x <= 0x20_0000,
                -0x6000_0000 <= sy <= 0x6000_0000,
        ;
        assert(-0x10_0000_0000_0000 <= p.plane_y * sx <= 0x10_0000_0000_0000) by (nonlinear_arith)
            requires
                -0x20_0000 <= p.plane_y <= 0x20_0000,
                -0x6000_0000 <= sx <= 0x6000_0000,
        ;
        assert(-0x10_0000_0000_0000 <= p.plane_x * sy <= 0x10_0000_0000_0000) by (nonlinear_arith)
            requires
                -0x20_0000 <= p.plane_x <= 0x20_0000,
                -0x6000_0000 <= sy <= 0x6000_0000,
        ;
    }
    let tx = div_trunc(p.dir_y * sx - p.dir_x * sy, det);
    let ty = div_trunc(p.plane_x * sy - p.plane_y * sx, det);
    proof {
        lemma_tdiv_small(p.dir_y * sx - p.dir_x * sy, det as int);
        lemma_tdiv_small(p.plane_x * sy - p.plane_y * sx, det as int);
    }
    if ty <= NEAR_PLANE {
        return;
    }
    // A center this far off screen draws nothing either way.
    proof {
        assert(-0x1000_0000_0000_0000_0000 <= w * (ty + tx) <= 0x1000_0000_0000_0000_0000) by (nonlinear_arith)
            requires
                1 <= w <= MAX_SCREEN,
                -0x40_0000_0000_0000 <= ty + tx <= 0x40_0000_0000_0000,
        ;
    }
    let num: i128 = w as i128 * (ty as i128 + tx as i128);
    let den: i128 = 2 * ty as i128;
    let wide: i128 = if num >= 0 { num / den } else { -((-num) / den) };
    let screen_x: i64 = if wide > 0x100_0000_0000 {
        0x100_0000_0000
    } else if wide < -0x100_0000_0000 {
        -0x100_0000_0000
    } else {
        wide as i64
    };
    assert(screen_x == sprite_center(*p, *s, det as int, w as int));
    let scale: i64 = match s.kind {
        SpriteKind::Pellet => 35,
        SpriteKind::Adversary => 90,
    };
    let sprite_h = (h as i64 * ONE * scale) / (100 * ty);
    proof {
        vstd::arithmetic::div_mod::lemma_div_is_ordered_by_denominator(h * ONE * scale, 100, 100 * ty);
        assert((h * ONE * scale) / 100 <= h * ONE) by (nonlinear_arith)
            requires
                0 <= scale <= 100,
                0 <= h,
        ;
        assert(h * ONE <= 0x4000_0000);
    }
    assert(sprite_h == sprite_size(*p, *s, det as int, h as int));
    if sprite_h == 0 {
        return;
    }
    let hh = h as i64 / 2;
    let mut y0 = hh - sprite_h / 2;
    if y0 < 0 {
        y0 = 0;
    }
    let mut y1 = sprite_h / 2 + hh;
    if y1 > h as i64 - 1 {
        y1 = h as i64 - 1;
    }
    let mut x0 = screen_x - sprite_h / 2;
    if x0 < 0 {
        x0 = 0;
    }
    let mut x1 = sprite_h / 2 + screen_x;
    if x1 > w as i64 - 1 {
        x1 = w as i64 - 1;
    }
    let flen = frame.len();
    let pellet_shade = depth_shade(ty, 78643, 1, 10);
    let ghost_shade = depth_shade(ty, 72090, 8, 100);
    let mut stripe: i64 = x0;
    while stripe <= x1
        invariant
            frame_fits(frame@, w as int, h as int),
            frame@.len() == old(frame)@.len(),
            frame@.len() == flen,
            w * h * 4 <= 0x4_0000_0000,
            1 <= w <= MAX_SCREEN,
            1 <= h <= MAX_SCREEN,
            depth.cols@.len() >= w,
            0 <= x0 <= stripe,
            stripe <= x1 + 1 || stripe == x0,
            x1 < w,
            x0 == (if screen_x - sprite_h / 2 < 0 { 0 } else { screen_x - sprite_h / 2 }),
            x1 == (if sprite_h / 2 + screen_x > w - 1 { w - 1 } else { sprite_h / 2 + screen_x }),
            y0 == (if hh - sprite_h / 2 < 0 { 0 } else { hh - sprite_h / 2 }),
            y1 == (if sprite_h / 2 + hh > h - 1 { h - 1 } else { sprite_h / 2 + hh }),
            0 <= y0,
            y1 < h,
            hh == h / 2,
            1 <= sprite_h <= 0x4000_0000,
            pellet_shade <= 255,
            ghost_shade <= 255,
            pellet_shade == depth_shade_spec(ty as int, 78643, 1, 10),
            ghost_shade == depth_shade_spec(ty as int, 72090, 8, 100),
            start == old(frame)@,
            det > 0,
            ty > NEAR_PLANE,
            ty == forward_depth(*p, *s, det as int),
            screen_x == sprite_center(*p, *s, det as int, w as int),
            sprite_h == sprite_size(*p, *s, det as int, h as int),
            forall|cx: int, cy: int|
                0 <= cx < w && 0 <= cy < h ==> #[trigger] pixel(frame@, cell(w as int, cx, cy)) == if cx
                    < stripe {
                    painted(
                        sprite_paint(*p, *s, det as int, w as int, h as int, depth.cols@[cx] as int, cx, cy),
                        pixel(start, cell(w as int, cx, cy)),
                    )
                } else {
                    pixel(start, cell(w as int, cx, cy))
                },
        decreases x1 + 1 - stripe,
    {
        if ty < depth.cols[stripe as usize] {
            proof {
                assert(-0x4000_0000 <= stripe - screen_x <= 0x4000_0000);
                assert(-0x1_0000_0000_0000 <= (stripe - screen_x) * 2 * ONE <= 0x1_0000_0000_0000) by (nonlinear_arith)
                    requires
                        -0x4000_0000 <= stripe - screen_x <= 0x4000_0000,
                ;
            }
            let nx = div_trunc((stripe - screen_x) * 2 * ONE, sprite_h);
            proof {
                lemma_unit_ratio(stripe - screen_x, sprite_h as int, 2 * ONE);
            }
            let mut y: i64 = y0;
            while y <= y1
                invariant
                    frame_fits(frame@, w as int, h as int),
                    frame@.len() == old(frame)@.len(),
                    frame@.len() == flen,
                    w * h * 4 <= 0x4_0000_0000,
                    1 <= w <= MAX_SCREEN,
                    1 <= h <= MAX_SCREEN,
                    0 <= x0 <= stripe <= x1,
                    x1 < w,
                    0 <= y0 <= y,
                    y <= y1 + 1,
                    y1 < h,
                    x0 == (if screen_x - sprite_h / 2 < 0 { 0 } else { screen_x - sprite_h / 2 }),
                    x1 == (if sprite_h / 2 + screen_x > w - 1 { w - 1 } else { sprite_h / 2 + screen_x }),
                    y0 == (if hh - sprite_h / 2 < 0 { 0 } else { hh - sprite_h / 2 }),
                    y1 == (if sprite_h / 2 + hh > h - 1 { h - 1 } else { sprite_h / 2 + hh }),
                    hh == h / 2,
                    1 <= sprite_h <= 0x4000_0000,
                    -0x10_0000 <= nx <= 0x10_0000,
                    nx == tdiv((stripe - screen_x) * 2 * ONE, sprite_h as int),
                    pellet_shade <= 255,
                    ghost_shade <= 255,
                    pellet_shade == depth_shade_spec(ty as int, 78643, 1, 10),
                    ghost_shade == depth_shade_spec(ty as int, 72090, 8, 100),
                    depth.cols@.len() >= w,
                    ty < depth.cols@[stripe as int],
                    start == old(frame)@,
                    det > 0,
                    ty > NEAR_PLANE,
                    ty == forward_depth(*p, *s, det as int),
                    screen_x == sprite_center(*p, *s, det as int, w as int),
                    sprite_h == sprite_size(*p, *s, det as int, h as int),
                    forall|cx: int, cy: int|
                        0 <= cx < w && 0 <= cy < h ==> #[trigger] pixel(frame@, cell(w as int, cx, cy)) == if cx
                            < stripe || (cx == stripe && cy < y) {
                            painted(
                                sprite_paint(*p, *s, det as int, w as int, h as int, depth.cols@[cx] as int, cx, cy),
                                pixel(start, cell(w as int, cx, cy)),
                            )
                        } else {
                            pixel(start, cell(w as int, cx, cy))
                        },
                decreases y1 + 1 - y,
            {
                proof {
                    assert(-0x4000_0000 <= y - hh <= 0x4000_0000);
                    assert(-0x1_0000_0000_0000 <= (y - hh) * 2 * ONE <= 0x1_0000_0000_0000) by (nonlinear_arith)
                        requires
                            -0x4000_0000 <= y - hh <= 0x4000_0000,
                    ;
                    assert(0 <= (y - hh + sprite_h / 2) * ONE <= 0x1_0000_0000_0000) by (nonlinear_arith)
                        requires
                            0 <= y - hh + sprite_h / 2 <= 0x8000_0000,
                    ;
                }
                let cy = div_trunc((y - hh) * 2 * ONE, sprite_h);
                let row = (y - hh + sprite_h / 2) * ONE / sprite_h;
                proof {
                    lemma_unit_ratio(y - hh, sprite_h as int, 2 * ONE);
                    lemma_unit_ratio(y - hh + sprite_h / 2, sprite_h as int, ONE as int);
                }
                proof {
                    lemma_sq(nx as int, 0x10_0000);
                    lemma_sq(cy as int, 0x10_0000);
                }
                let color: Option<[u8; 4]> = match s.kind {
                    SpriteKind::Pellet => {
                        if nx * nx + cy * cy <= ONE * ONE {
                            Some(shaded([255, 230, 0, 255], pellet_shade))
                        } else {
                            None
                        }
                    },
                    SpriteKind::Adversary => {
                        if in_silhouette(nx, row) {
                            Some(shaded(adversary_color(nx, row, s.anim_frame), ghost_shade))
                        } else {
                            None
                        }
                    },
                };
                let idx = pixel_index(w, h, stripe as i32, y as i32);
                let ghost before = frame@;
                proof {
                    assert(color matches Some(c) ==> sprite_paint(*p, *s, det as int, w as int, h as int, depth.cols@[stripe as int] as int, stripe as int, y as int) == Some(rgba(c)));
                    assert(color is None ==> sprite_paint(*p, *s, det as int, w as int, h as int, depth.cols@[stripe as int] as int, stripe as int, y as int) is None);
                }
                if let Some(c) = color {
                    set_pixel(frame, idx, c);
                }
                proof {
                    assert forall|cx: int, cy: int| 0 <= cx < w && 0 <= cy < h implies #[trigger] pixel(
                        frame@,
                        cell(w as int, cx, cy),
                    ) == if cx < stripe || (cx == stripe && cy < y + 1) {
                        painted(
                            sprite_paint(*p, *s, det as int, w as int, h as int, depth.cols@[cx] as int, cx, cy),
                            pixel(start, cell(w as int, cx, cy)),
                        )
                    } else {
                        pixel(start, cell(w as int, cx, cy))
                    } by {
                        lemma_cell_index(w as int, h as int, cx, cy);
                        if cell(w as int, cx, cy) == idx {
                            lemma_cell_injective(w as int, cx, cy, stripe as int, y as int);
                        } else {
                            assert(pixel(frame@, cell(w as int, cx, cy)) == pixel(before, cell(w as int, cx, cy)));
                        }
                    }
                }
                y = y + 1;
            }
        }
        proof {
            assert forall|cx: int, cy: int| 0 <= cx < w && 0 <= cy < h implies #[trigger] pixel(
                frame@,
                cell(w as int, cx, cy),
            ) == if cx < stripe + 1 {
                painted(
                    sprite_paint(*p, *s, det as int, w as int, h as int, depth.cols@[cx] as int, cx, cy),
                    pixel(start, cell(w as int, cx, cy)),
                )
            } else {
                pixel(start, cell(w as int, cx, cy))
            } by {
                if cx == stripe && (!(ty < depth.cols@[stripe as int]) || cy > y1) {
                    assert(sprite_paint(*p, *s, det as int, w as int, h as int, depth.cols@[cx] as int, cx, cy)
                        is None);
                }
            }
        }
        stripe = stripe + 1;
    }
}

/// The square of a value of magnitude at most `b`.
proof fn lemma_sq(v: int, b: int)
    requires
        -b <= v <= b,
    ensures
        0 <= v * v <= b * b,
{
    assert(0 <= v * v <= b * b) by (nonlinear_arith)
        requires
            -b <= v <= b,
    ;
}

/// Dividing by a positive number does not grow a value.
proof fn lemma_tdiv_small(a: int, b: int)
    requires
        b >= 1,
        -0x20_0000_0000_0000 <= a <= 0x20_0000_0000_0000,
    ensures
        -0x20_0000_0000_0000 <= tdiv(a, b) <= 0x20_0000_0000_0000,
{
    let m = if a >= 0 { a } else { -a };
    assert(0 <= m / b <= m) by (nonlinear_arith)
        requires
            0 <= m,
            b >= 1,
    ;
}

/// `v * k / d` stays within `2 k` when `|v|` is at most about `d / 2`.
proof fn lemma_unit_ratio(v: int, d: int, k: int)
    requires
        d >= 1,
        0 < k <= 2 * ONE,
        -(d / 2) - 1 <= v <= d / 2 + d,
    ensures
        -0x10_0000 <= tdiv(v * k, d) <= 0x10_0000,
{
    let m = if v >= 0 { v } else { -v };
    assert(m <= 2 * d);
    assert(0 <= m * k <= 2 * d * k) by (nonlinear_arith)
        requires
            0 <= m <= 2 * d,
            0 < k,
    ;
    vstd::arithmetic::div_mod::lemma_div_is_ordered(m * k, 2 * d * k, d);
    vstd::arithmetic::div_mod::lemma_div_pos_is_pos(m * k, d);
    assert((2 * d * k) / d == 2 * k) by {
        vstd::arithmetic::div_mod::lemma_div_multiples_vanish(2 * k, d);
        assert(2 * d * k == d * (2 * k)) by (nonlinear_arith);
    }
    assert(v * k == if v >= 0 { m * k } else { -(m * k) }) by (nonlinear_arith)
        requires
            m == if v >= 0 { v } else { -v },
    ;
}

} // verus!
