use vstd::prelude::*;
use crate::fixed::{
    add_angle, cos_spec, sin_spec, sine_of_step, unit_cos, unit_sin, wrap_angle, ANGLE_STEP, ONE,
    SINE_SCALE, TURN,
};
use crate::sine_table::{lemma_table_close, pair_close, quarter_sine_table, TABLE_SLACK};
use crate::level::{Level, MAX_DIM};

verus! {

/// The camera plane is `FOV_NUM / SINE_SCALE` (21/32, about 0.66) as long as
/// the heading: the field of view.
pub const FOV_NUM: i64 = 21;

/// Walking speed: three tiles per second.
pub const MOVE_SPEED: i64 = 3 * 65536;

/// Turning speed: two radians per second, in binary angle units.
pub const ROT_SPEED: i64 = 20861;

/// The heading of a fresh player: facing along negative x.
pub const START_ANGLE: i64 = 32768;

pub open spec fn dot(ax: int, ay: int, bx: int, by: int) -> int {
    ax * bx + ay * by
}

/// The camera: a fixed-point position, a heading angle, the heading vector
/// and the camera-plane vector, and speeds (`move_speed` in fixed-point tiles
/// per second, `rot_speed` in angle units per second).
#[derive(Copy, Clone, Debug)]
pub struct Player {
    pub x: i64,
    pub y: i64,
    pub angle: i64,
    pub dir_x: i64,
    pub dir_y: i64,
    pub plane_x: i64,
    pub plane_y: i64,
    pub move_speed: i64,
    pub rot_speed: i64,
}

/// Whether a fixed-point point lies on the grid of a level.
pub open spec fn on_grid(level: Level, x: int, y: int) -> bool {
    0 <= x < level.w * ONE && 0 <= y < level.h * ONE
}

/// A point is inside a wall when it is negative, off the grid, or in a cell
/// with a non-zero tile.
pub open spec fn point_in_wall(level: Level, x: int, y: int) -> bool {
    x < 0 || y < 0 || level.tile_at(x / ONE as int, y / ONE as int) > 0
}

/// The center of a cell, in fixed point.
pub open spec fn cell_center(c: int) -> int {
    c * ONE + ONE / 2
}

impl Player {
    /// The heading and plane that belong to a heading angle.
    pub open spec fn has_basis(self, angle: int) -> bool {
        &&& self.dir_x == cos_spec(angle)
        &&& self.dir_y == sin_spec(angle)
        &&& self.plane_x == FOV_NUM * (self.dir_y as int / SINE_SCALE as int)
        &&& self.plane_y == -FOV_NUM * (self.dir_x as int / SINE_SCALE as int)
    }

    pub open spec fn wf(self) -> bool {
        &&& 0 <= self.angle < TURN
        &&& self.has_basis(self.angle as int)
        &&& 0 <= self.move_speed <= 4 * ONE
        &&& 0 <= self.rot_speed <= TURN
    }

    /// The player turned by `a` angle units, position and speeds kept.
    pub open spec fn rotated(self, a: int) -> Player {
        let angle = wrap_angle(self.angle + a);
        Player {
            angle: angle as i64,
            dir_x: cos_spec(angle) as i64,
            dir_y: sin_spec(angle) as i64,
            plane_x: (FOV_NUM * (sin_spec(angle) / SINE_SCALE as int)) as i64,
            plane_y: (-FOV_NUM * (cos_spec(angle) / SINE_SCALE as int)) as i64,
            ..self
        }
    }

    /// A player in the center of a cell, facing the start heading.
    pub fn spawn_at(cx: i32, cy: i32) -> (r: Player)
        requires
            0 <= cx < MAX_DIM,
            0 <= cy < MAX_DIM,
        ensures
            r.wf(),
            r.x == cell_center(cx as int),
            r.y == cell_center(cy as int),
            r.angle == START_ANGLE,
            r.move_speed == MOVE_SPEED,
            r.rot_speed == ROT_SPEED,
    {
        let mut p = Player {
            x: cx as i64 * ONE + ONE / 2,
            y: cy as i64 * ONE + ONE / 2,
            angle: 0,
            dir_x: 0,
            dir_y: 0,
            plane_x: 0,
            plane_y: 0,
            move_speed: MOVE_SPEED,
            rot_speed: ROT_SPEED,
        };
        p.set_heading(START_ANGLE);
        p
    }

    /// Points the camera at a heading angle.
    pub fn set_heading(&mut self, angle: i64)
        requires
            0 <= angle < TURN,
        ensures
            final(self).has_basis(angle as int),
            final(self).angle == angle,
            final(self).x == old(self).x,
            final(self).y == old(self).y,
            final(self).move_speed == old(self).move_speed,
            final(self).rot_speed == old(self).rot_speed,
    {
        let c = unit_cos(angle);
        let s = unit_sin(angle);
        self.angle = angle;
        self.dir_x = c;
        self.dir_y = s;
        self.plane_x = FOV_NUM * (s / SINE_SCALE);
        self.plane_y = -FOV_NUM * (c / SINE_SCALE);
    }

    /// Turns heading and camera plane together by `a` angle units.
    pub fn rotate(&mut self, a: i64)
        requires
            old(self).wf(),
            -0x4000_0000_0000_0000 <= a <= 0x4000_0000_0000_0000,
        ensures
            *final(self) == old(self).rotated(a as int),
            final(self).wf(),
    {
        let angle = add_angle(self.angle, a);
        self.set_heading(angle);
    }
}

/// Turning keeps the camera basis: before and after, heading and plane are
/// perpendicular, the plane is exactly 21/32 as long as the heading, and the
/// heading has unit length to within the sine table's slack (so its squared
/// length changes by at most twice that); the position does not move.
pub proof fn lemma_rotation_keeps_basis(p: Player, a: int)
    requires
        p.wf(),
        -0x4000_0000_0000_0000 <= a <= 0x4000_0000_0000_0000,
    ensures
        p.rotated(a).wf(),
        dot(p.dir_x as int, p.dir_y as int, p.plane_x as int, p.plane_y as int) == 0,
        ({
            let q = p.rotated(a);
            &&& dot(q.dir_x as int, q.dir_y as int, q.plane_x as int, q.plane_y as int) == 0
            &&& 1024 * dot(q.plane_x as int, q.plane_y as int, q.plane_x as int, q.plane_y as int)
                == 441 * dot(q.dir_x as int, q.dir_y as int, q.dir_x as int, q.dir_y as int)
            &&& q.x == p.x && q.y == p.y
            &&& unit_length(q.dir_x as int, q.dir_y as int)
        }),
        unit_length(p.dir_x as int, p.dir_y as int),
        1024 * dot(p.plane_x as int, p.plane_y as int, p.plane_x as int, p.plane_y as int) == 441
            * dot(p.dir_x as int, p.dir_y as int, p.dir_x as int, p.dir_y as int),
{
    let angle = wrap_angle(p.angle + a);
    lemma_basis_of_angle(p.angle as int);
    lemma_basis_of_angle(angle);
    lemma_heading_length(p.angle as int);
    lemma_heading_length(angle);
}

/// The basis computed from an angle is perpendicular with the fixed ratio.
pub proof fn lemma_basis_of_angle(angle: int)
    requires
        0 <= angle < TURN,
    ensures
        ({
            let c = cos_spec(angle);
            let s = sin_spec(angle);
            let px = FOV_NUM * (s / SINE_SCALE as int);
            let py = -FOV_NUM * (c / SINE_SCALE as int);
            &&& dot(c, s, px, py) == 0
            &&& 1024 * dot(px, py, px, py) == 441 * dot(c, s, c, s)
            &&& -0x20_0000 < c < 0x20_0000
            &&& -0x20_0000 < s < 0x20_0000
        }),
{
    let c = cos_spec(angle);
    let s = sin_spec(angle);
    let kc = c / SINE_SCALE as int;
    let ks = s / SINE_SCALE as int;
    assert(c == 32 * kc);
    assert(s == 32 * ks);
    assert(dot(c, s, 21 * ks, -21 * kc) == 0) by (nonlinear_arith)
        requires
            c == 32 * kc,
            s == 32 * ks,
    ;
    assert(1024 * dot(21 * ks, -21 * kc, 21 * ks, -21 * kc) == 441 * dot(c, s, c, s))
        by (nonlinear_arith)
        requires
            c == 32 * kc,
            s == 32 * ks,
    ;
}


/// The squared length of every heading is within `1024 * TABLE_SLACK` of
/// `ONE * ONE`.
pub open spec fn unit_length(x: int, y: int) -> bool {
    ONE * ONE - 1024 * TABLE_SLACK <= x * x + y * y <= ONE * ONE + 1024 * TABLE_SLACK
}

/// The heading of any angle has unit length, to within the table's slack.
pub proof fn lemma_heading_length(angle: int)
    requires
        0 <= angle < TURN,
    ensures
        unit_length(cos_spec(angle), sin_spec(angle)),
{
    let s = (angle / ANGLE_STEP as int) % 1024;
    let c = (angle / ANGLE_STEP as int + 256) % 1024;
    let q = s / 256;
    let r = s % 256;
    assert(0 <= s < 1024);
    assert(c == (256 * ((q + 1) % 4)) + r);
    assert(c / 256 == (q + 1) % 4 && c % 256 == r);
    lemma_table_close(r);
    let a = quarter_sine_table()[r] as int;
    let b = quarter_sine_table()[256 - r] as int;
    assert(pair_close(a, b));
    let sv = sine_of_step(s);
    let cv = sine_of_step(c);
    assert(sv * sv + cv * cv == a * a + b * b) by {
        if q == 0 {
            assert(sv == a && cv == b);
        } else if q == 1 {
            assert(sv == b && cv == -a);
            assert(cv * cv == a * a) by (nonlinear_arith)
                requires
                    cv == -a,
            ;
        } else if q == 2 {
            assert(sv == -a && cv == -b);
            assert(cv * cv == b * b && sv * sv == a * a) by (nonlinear_arith)
                requires
                    cv == -b,
                    sv == -a,
            ;
        } else {
            assert(sv == -b && cv == a);
            assert(sv * sv == b * b) by (nonlinear_arith)
                requires
                    sv == -b,
            ;
        }
    }
    assert(unit_length(32 * cv, 32 * sv)) by (nonlinear_arith)
        requires
            pair_close(a, b),
            sv * sv + cv * cv == a * a + b * b,
    ;
}

/// Whether a fixed-point point is inside a wall of the level.
pub fn is_wall_level(level: &Level, x: i64, y: i64) -> (r: bool)
    requires
        level.wf(),
    ensures
        r == point_in_wall(*level, x as int, y as int),
        !r ==> on_grid(*level, x as int, y as int),
{
    if x < 0 || y < 0 {
        return true;
    }
    let xi = x / ONE;
    let yi = y / ONE;
    if xi >= level.w as i64 || yi >= level.h as i64 {
        return true;
    }
    level.tile(xi as i32, yi as i32) > 0
}

} // verus!
