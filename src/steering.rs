use vstd::prelude::*;
use crate::fixed::{
    cos_spec, div_trunc, is_sqrt, isqrt, lemma_sqrt_floor, sin_spec, sqrt_floor, tdiv, unit_cos, unit_sin,
    ONE, TURN,
};
use crate::game::{count_pellets, sprites_ok, Game, GHOST_FRAME_TIME, PELLET_FRAME_TIME};
use crate::level::Level;
use crate::player::{is_wall_level, on_grid, point_in_wall};
use crate::rng::random_in;
use crate::sprites::{Sprite, SpriteKind};

verus! {

/// Radius of the circle of target points around the player: 1.6 tiles.
pub const SCATTER_R: i64 = 104858;

/// Adversaries closer than this push each other apart: 0.9 tiles.
pub const SEP_R: i64 = 58982;

/// Adversary speed: 1.35 tiles per second.
pub const GHOST_SPEED: i64 = 88474;

/// Jitter added to each steering vector lies in `(-JITTER, JITTER)`: 0.2.
pub const JITTER: i64 = 13107;

/// Smallest length a vector is divided by when normalized: 1e-4 tiles.
pub const MIN_LEN: i64 = 7;

/// Smallest neighbor distance used for separation: 1e-3 tiles.
pub const MIN_SEP: i64 = 66;

/// Angle units per second of the target circle's spin (0.6 radians).
pub const PHASE_RATE: i64 = 6258;

/// Angle between the targets of consecutive adversaries (about 2 pi / 5).
pub const PHASE_STEP: i64 = 13107;

/// One animation tick: the accumulator grows by `dt`, and past `period` it
/// restarts at zero and the frame flips.
pub open spec fn anim_after(s: Sprite, dt: int, period: int) -> (i64, usize) {
    if s.anim_time + dt > period {
        (0i64, ((s.anim_frame + 1) % 2) as usize)
    } else {
        ((s.anim_time + dt) as i64, s.anim_frame)
    }
}

/// `(vx, vy)` scaled to length `ONE`, dividing by the floor of its length,
/// but by no less than `MIN_LEN`.
pub open spec fn normalize_spec(vx: int, vy: int) -> (int, int) {
    let len = sqrt_floor(vx * vx + vy * vy);
    let d = if len < MIN_LEN { MIN_LEN as int } else { len };
    (tdiv(vx * ONE, d), tdiv(vy * ONE, d))
}

/// `r` is `(vx, vy)` normalized.
pub open spec fn normalized(vx: int, vy: int, r: (i64, i64)) -> bool {
    (r.0 as int, r.1 as int) == normalize_spec(vx, vy)
}

/// The steering direction: the unit vector to the target, plus 1.2 times the
/// push, plus the jitter, normalized.
pub open spec fn steer_spec(gx: int, gy: int, tx: int, ty: int, rep_x: int, rep_y: int, jx: int, jy: int) -> (
    int,
    int,
) {
    let u = normalize_spec(tx - gx, ty - gy);
    normalize_spec(u.0 + tdiv(12 * rep_x, 10) + jx, u.1 + tdiv(12 * rep_y, 10) + jy)
}

/// One neighbor's push on an adversary `(dx, dy)` away from it: along that
/// line, of strength `(SEP_R - d) / SEP_R` with `d` the distance floored at
/// `MIN_SEP`.
pub open spec fn push_spec(dx: int, dy: int) -> (int, int) {
    let len = sqrt_floor(dx * dx + dy * dy);
    let d = if len < MIN_SEP { MIN_SEP as int } else { len };
    let force = (SEP_R - d) * ONE / (SEP_R as int);
    (tdiv(dx * force, d), tdiv(dy * force, d))
}

/// The push on adversary `k` of the list from listed adversaries `0..j`
/// closer than `SEP_R`.
pub open spec fn sep_upto(ghosts: Seq<(usize, i64, i64)>, k: int, j: int) -> (int, int)
    decreases j,
{
    if j <= 0 {
        (0, 0)
    } else {
        let prev = sep_upto(ghosts, k, j - 1);
        let dx = ghosts[k].1 - ghosts[j - 1].1;
        let dy = ghosts[k].2 - ghosts[j - 1].2;
        if j - 1 == k || dx * dx + dy * dy >= SEP_R * SEP_R {
            prev
        } else {
            let p = push_spec(dx, dy);
            (prev.0 + p.0, prev.1 + p.1)
        }
    }
}

/// One axis of an adversary's step: unit component `f` at `GHOST_SPEED` for
/// `dt` microseconds.
pub open spec fn ghost_step_spec(f: int, dt: int) -> int {
    tdiv(tdiv(f * GHOST_SPEED, ONE as int) * dt, 1_000_000)
}

/// The adversaries of a sequence of entities, in order, with their indices
/// and positions.
pub open spec fn adversaries(s: Seq<Sprite>) -> Seq<(usize, i64, i64)>
    decreases s.len(),
{
    if s.len() == 0 {
        seq![]
    } else {
        let prev = adversaries(s.drop_last());
        if s.last().kind == SpriteKind::Adversary {
            prev.push(((s.len() - 1) as usize, s.last().x, s.last().y))
        } else {
            prev
        }
    }
}

/// The target point of adversary number `k`: on a circle of radius
/// `SCATTER_R` around the player, at the adversary's phase angle.
pub open spec fn target_of(px: int, py: int, t: int, k: int) -> (int, int) {
    let a = phase_angle(t, k);
    (px + tdiv(cos_spec(a) * SCATTER_R, ONE as int), py + tdiv(sin_spec(a) * SCATTER_R, ONE as int))
}

/// Where adversary number `k` of `ghosts` goes from `s` in one step of `dt`
/// microseconds with jitter `(jx, jy)`.
pub open spec fn ghost_dest(
    level: Level,
    px: int,
    py: int,
    t: int,
    ghosts: Seq<(usize, i64, i64)>,
    k: int,
    s: Sprite,
    jx: int,
    jy: int,
    dt: int,
) -> (int, int) {
    let target = target_of(px, py, t, k);
    let rep = sep_upto(ghosts, k, ghosts.len() as int);
    let f = steer_spec(s.x as int, s.y as int, target.0, target.1, rep.0, rep.1, jx, jy);
    slide(level, s.x as int, s.y as int, ghost_step_spec(f.0, dt), ghost_step_spec(f.1, dt))
}

/// Adversary number `k` of `ghosts` went from `s` to `s2` in one step, for
/// some jitter drawn from `[-JITTER, JITTER)` on each axis.
pub open spec fn ghost_moved(
    level: Level,
    px: int,
    py: int,
    t: int,
    ghosts: Seq<(usize, i64, i64)>,
    k: int,
    s: Sprite,
    s2: Sprite,
    dt: int,
) -> bool {
    exists|jx: int, jy: int|
        -JITTER <= jx < JITTER && -JITTER <= jy < JITTER && #[trigger] ghost_dest(
            level,
            px,
            py,
            t,
            ghosts,
            k,
            s,
            jx,
            jy,
            dt,
        ) == (s2.x as int, s2.y as int)
}

/// `(vx, vy)` scaled to length `ONE`, dividing by the floor of its length,
/// but by no less than `MIN_LEN`.
pub fn normalize(vx: i64, vy: i64) -> (r: (i64, i64))
    requires
        -0x4000_0000_0000 <= vx <= 0x4000_0000_0000,
        -0x4000_0000_0000 <= vy <= 0x4000_0000_0000,
    ensures
        normalized(vx as int, vy as int, r),
        -ONE <= r.0 <= ONE,
        -ONE <= r.1 <= ONE,
{
    proof {
        assert(0 <= vx * vx <= 0x1000_0000_0000_0000_0000_0000) by (nonlinear_arith)
            requires
                -0x4000_0000_0000 <= vx <= 0x4000_0000_0000,
        ;
        assert(0 <= vy * vy <= 0x1000_0000_0000_0000_0000_0000) by (nonlinear_arith)
            requires
                -0x4000_0000_0000 <= vy <= 0x4000_0000_0000,
        ;
    }
    let n: u128 = (vx as i128 * vx as i128 + vy as i128 * vy as i128) as u128;
    let r64 = isqrt(n);
    proof {
        assert(r64 <= 0x8000_0000_0000) by (nonlinear_arith)
            requires
                r64 * r64 <= n,
                n <= 0x2000_0000_0000_0000_0000_0000,
        ;
    }
    let root = r64 as i64;
    let d: i64 = if root < MIN_LEN { MIN_LEN } else { root };
    assert(is_sqrt(vx * vx + vy * vy, root as int));
    proof {
        lemma_sqrt_floor(vx * vx + vy * vy, root as int);
    }
    proof {
        assert(vx * vx <= root * root + 2 * root) by (nonlinear_arith)
            requires
                n < (root + 1) * (root + 1),
                n == vx * vx + vy * vy,
                0 <= vy * vy,
        ;
        assert(vy * vy <= root * root + 2 * root) by (nonlinear_arith)
            requires
                n < (root + 1) * (root + 1),
                n == vx * vx + vy * vy,
                0 <= vx * vx,
        ;
        lemma_unit_bound(vx as int, root as int, d as int);
        lemma_unit_bound(vy as int, root as int, d as int);
    }
    let ux = div_trunc(vx * ONE, d);
    let uy = div_trunc(vy * ONE, d);
    assert(normalized(vx as int, vy as int, (ux, uy)));
    (ux, uy)
}

/// A component of a vector is at most its length, so dividing it by the
/// length gives at most `ONE`.
proof fn lemma_unit_bound(v: int, root: int, d: int)
    requires
        v * v <= root * root + 2 * root,
        0 <= root,
        d >= root,
        d >= 7,
        -0x4000_0000_0000 <= v <= 0x4000_0000_0000,
    ensures
        -ONE <= tdiv(v * ONE, d) <= ONE,
{
    assert(v <= root && -v <= root) by (nonlinear_arith)
        requires
            v * v <= root * root + 2 * root,
            0 <= root,
    ;
    let a = if v >= 0 { v } else { -v };
    assert(a * ONE <= d * ONE) by (nonlinear_arith)
        requires
            a <= d,
            0 <= a,
    ;
    assert((a * ONE) / d <= ONE) by (nonlinear_arith)
        requires
            a * ONE <= d * ONE,
            d > 0,
            0 <= a,
    ;
    assert(v * ONE == if v >= 0 { a * ONE } else { -(a * ONE) });
}

/// Where an entity moved by `(dx, dy)` ends up: each axis move is kept only
/// if it does not end inside a wall.
pub open spec fn slide(level: Level, x: int, y: int, dx: int, dy: int) -> (int, int) {
    let x2 = if point_in_wall(level, x + dx, y) {
        x
    } else {
        x + dx
    };
    let y2 = if point_in_wall(level, x2, y + dy) {
        y
    } else {
        y + dy
    };
    (x2, y2)
}

/// The phase angle of adversary number `k` at game time `t`.
pub open spec fn phase_angle(t: int, k: int) -> int {
    (((t / 1_000_000_000) * PHASE_RATE) % (TURN as int) + ((t % 1_000_000_000) * PHASE_RATE)
        / 1_000_000_000 + k * PHASE_STEP) % (TURN as int)
}

fn phase_of(t: i64, k: usize) -> (r: i64)
    requires
        t >= 0,
    ensures
        r == phase_angle(t as int, k as int),
        0 <= r < TURN,
{
    let whole = ((t / 1_000_000_000) % TURN) * PHASE_RATE % TURN;
    let frac = (t % 1_000_000_000) * PHASE_RATE / 1_000_000_000;
    let step = (k as u64 % TURN as u64) as i64 * PHASE_STEP % TURN;
    let r = (whole + frac + step) % TURN;
    proof {
        let q = t as int / 1_000_000_000;
        vstd::arithmetic::div_mod::lemma_mul_mod_noop_left(q, PHASE_RATE as int, TURN as int);
        vstd::arithmetic::div_mod::lemma_mul_mod_noop_left(k as int, PHASE_STEP as int, TURN as int);
        vstd::arithmetic::div_mod::lemma_add_mod_noop(
            (q * PHASE_RATE) % (TURN as int) + ((t % 1_000_000_000) * PHASE_RATE) / 1_000_000_000,
            k * PHASE_STEP,
            TURN as int,
        );
        vstd::arithmetic::div_mod::lemma_add_mod_noop(
            whole as int + frac as int,
            step as int,
            TURN as int,
        );
        vstd::arithmetic::div_mod::lemma_mod_twice(k * PHASE_STEP, TURN as int);
        vstd::arithmetic::div_mod::lemma_mod_twice(
            (q * PHASE_RATE) % (TURN as int) + ((t % 1_000_000_000) * PHASE_RATE) / 1_000_000_000,
            TURN as int,
        );
    }
    r
}

/// The steering direction of an adversary at `(gx, gy)`: towards its target
/// point, pushed away from close neighbors (`rep`), plus jitter, normalized.
pub fn steer(gx: i64, gy: i64, tx: i64, ty: i64, rep_x: i64, rep_y: i64, jx: i64, jy: i64) -> (r: (i64, i64))
    requires
        -0x1_0000_0000 <= gx <= 0x1_0000_0000,
        -0x1_0000_0000 <= gy <= 0x1_0000_0000,
        -0x1_0000_0000 <= tx <= 0x1_0000_0000,
        -0x1_0000_0000 <= ty <= 0x1_0000_0000,
        -0x2000_0000_0000 <= rep_x <= 0x2000_0000_0000,
        -0x2000_0000_0000 <= rep_y <= 0x2000_0000_0000,
        -JITTER <= jx <= JITTER,
        -JITTER <= jy <= JITTER,
    ensures
        -ONE <= r.0 <= ONE,
        -ONE <= r.1 <= ONE,
        (r.0 as int, r.1 as int) == steer_spec(
            gx as int,
            gy as int,
            tx as int,
            ty as int,
            rep_x as int,
            rep_y as int,
            jx as int,
            jy as int,
        ),
{
    let u = normalize(tx - gx, ty - gy);
    let fx = u.0 + div_trunc(12 * rep_x, 10) + jx;
    let fy = u.1 + div_trunc(12 * rep_y, 10) + jy;
    normalize(fx, fy)
}

/// One neighbor's push: `d` is its distance floored at `MIN_SEP`; the push is
/// along the line away from it, of strength `(SEP_R - d) / SEP_R`.
fn push_from(dx: i64, dy: i64) -> (r: (i64, i64))
    requires
        -0x8000_0000 <= dx <= 0x8000_0000,
        -0x8000_0000 <= dy <= 0x8000_0000,
        dx * dx + dy * dy < SEP_R * SEP_R,
    ensures
        -ONE <= r.0 <= ONE,
        -ONE <= r.1 <= ONE,
        (r.0 as int, r.1 as int) == push_spec(dx as int, dy as int),
{
    proof {
        assert(0 <= dx * dx && 0 <= dy * dy) by (nonlinear_arith);
    }
    let d2 = dx * dx + dy * dy;
    let r64 = isqrt(d2 as u128);
    proof {
        assert(r64 < SEP_R) by (nonlinear_arith)
            requires
                r64 * r64 <= d2,
                d2 < SEP_R * SEP_R,
        ;
        assert(dx * dx <= r64 * r64 + 2 * r64 && dy * dy <= r64 * r64 + 2 * r64) by (nonlinear_arith)
            requires
                d2 < (r64 + 1) * (r64 + 1),
                d2 == dx * dx + dy * dy,
                0 <= dx * dx,
                0 <= dy * dy,
        ;
        assert(dx <= r64 && -dx <= r64 && dy <= r64 && -dy <= r64) by (nonlinear_arith)
            requires
                dx * dx <= r64 * r64 + 2 * r64,
                dy * dy <= r64 * r64 + 2 * r64,
                0 <= r64,
        ;
    }
    let root = r64 as i64;
    let d: i64 = if root < MIN_SEP { MIN_SEP } else { root };
    assert(root == sqrt_floor(dx * dx + dy * dy));
    let force = (SEP_R - d) * ONE / SEP_R;
    proof {
        assert(0 <= force <= ONE) by (nonlinear_arith)
            requires
                force == (SEP_R - d) * ONE / (SEP_R as int),
                MIN_SEP <= d,
                d <= SEP_R,
        ;
        lemma_push_bound(dx as int, d as int, force as int);
        lemma_push_bound(dy as int, d as int, force as int);
    }
    (div_trunc(dx * force, d), div_trunc(dy * force, d))
}

/// A component no longer than `d`, scaled by a force of at most `ONE` and
/// divided by `d`, is at most `ONE`.
proof fn lemma_push_bound(v: int, d: int, force: int)
    requires
        -d <= v <= d,
        d > 0,
        0 <= force <= ONE,
    ensures
        -ONE <= tdiv(v * force, d) <= ONE,
        -(d * ONE) <= v * force <= d * ONE,
{
    let a = if v >= 0 { v } else { -v };
    assert(0 <= a * force <= d * ONE) by (nonlinear_arith)
        requires
            0 <= a <= d,
            0 <= force <= ONE,
    ;
    assert((a * force) / d <= ONE) by (nonlinear_arith)
        requires
            0 <= a * force <= d * ONE,
            d > 0,
    ;
    assert(v * force == if v >= 0 { a * force } else { -(a * force) }) by (nonlinear_arith)
        requires
            a == if v >= 0 { v } else { -v },
    ;
}

/// The summed push on adversary `k` from every other adversary closer than
/// `SEP_R`.
fn separation(ghosts: &Vec<(usize, i64, i64)>, k: usize) -> (r: (i64, i64))
    requires
        k < ghosts@.len() <= 0x2000_0000,
        forall|j: int|
            0 <= j < ghosts@.len() ==> 0 <= (#[trigger] ghosts@[j]).1 < 0x4000_0000 && 0
                <= ghosts@[j].2 < 0x4000_0000,
    ensures
        -0x2000_0000_0000 <= r.0 <= 0x2000_0000_0000,
        -0x2000_0000_0000 <= r.1 <= 0x2000_0000_0000,
        (r.0 as int, r.1 as int) == sep_upto(ghosts@, k as int, ghosts@.len() as int),
{
    let (_, gx, gy) = ghosts[k];
    let mut rep_x: i64 = 0;
    let mut rep_y: i64 = 0;
    let n = ghosts.len();
    let mut j: usize = 0;
    while j < n
        invariant
            n == ghosts@.len(),
            n <= 0x2000_0000,
            j <= n,
            0 <= gx < 0x4000_0000,
            0 <= gy < 0x4000_0000,
            forall|i: int|
                0 <= i < ghosts@.len() ==> 0 <= (#[trigger] ghosts@[i]).1 < 0x4000_0000 && 0
                    <= ghosts@[i].2 < 0x4000_0000,
            -j * ONE <= rep_x <= j * ONE,
            -j * ONE <= rep_y <= j * ONE,
            k < n,
            gx == ghosts@[k as int].1,
            gy == ghosts@[k as int].2,
            (rep_x as int, rep_y as int) == sep_upto(ghosts@, k as int, j as int),
        decreases n - j,
    {
        if j != k {
            let (_, ox, oy) = ghosts[j];
            let dx = gx - ox;
            let dy = gy - oy;
            proof {
                assert(0 <= dx * dx < 0x1000_0000_0000_0000) by (nonlinear_arith)
                    requires
                        -0x4000_0000 < dx < 0x4000_0000,
                ;
                assert(0 <= dy * dy < 0x1000_0000_0000_0000) by (nonlinear_arith)
                    requires
                        -0x4000_0000 < dy < 0x4000_0000,
                ;
            }
            if dx * dx + dy * dy < SEP_R * SEP_R {
                let (px, py) = push_from(dx, dy);
                rep_x = rep_x + px;
                rep_y = rep_y + py;
            }
        }
        j = j + 1;
    }
    (rep_x, rep_y)
}

/// Longest step an adversary takes along one axis in `dt` microseconds.
pub open spec fn max_ghost_step(dt: int) -> int {
    GHOST_SPEED * dt / 1_000_000
}

/// What one simulation step does to one entity: a pickup only animates; an
/// adversary animates and slides, never into a wall, by a step bounded on
/// each axis (where it goes exactly is `ghost_moved`).
pub open spec fn sprite_stepped(level: Level, s: Sprite, s2: Sprite, dt: int) -> bool {
    &&& s2.kind == s.kind
    &&& s.kind == SpriteKind::Pellet ==> {
        &&& s2.x == s.x
        &&& s2.y == s.y
        &&& (s2.anim_time, s2.anim_frame) == anim_after(s, dt, PELLET_FRAME_TIME as int)
    }
    &&& s.kind == SpriteKind::Adversary ==> {
        &&& (s2.anim_time, s2.anim_frame) == anim_after(s, dt, GHOST_FRAME_TIME as int)
        &&& exists|dx: int, dy: int|
            -max_ghost_step(dt) <= dx <= max_ghost_step(dt) && -max_ghost_step(dt) <= dy
                <= max_ghost_step(dt) && #[trigger] slide(level, s.x as int, s.y as int, dx, dy) == (
                s2.x as int,
                s2.y as int,
            )
    }
}

/// Whether entity `j` is among the first `upto` listed adversaries.
pub open spec fn listed(ghosts: Seq<(usize, i64, i64)>, j: int, upto: int) -> bool {
    exists|m: int| 0 <= m < upto && (#[trigger] ghosts[m]).0 == j
}

/// One axis of an adversary's step: `f` of a unit direction, at
/// `GHOST_SPEED` for `dt` microseconds.
fn ghost_step(f: i64, dt: u32) -> (r: i64)
    requires
        -ONE <= f <= ONE,
    ensures
        -max_ghost_step(dt as int) <= r <= max_ghost_step(dt as int),
        r == ghost_step_spec(f as int, dt as int),
{
    let a = div_trunc(f * GHOST_SPEED, ONE);
    proof {
        assert(-GHOST_SPEED <= a <= GHOST_SPEED) by {
            let m = if f >= 0 { f as int } else { -f };
            assert(m * GHOST_SPEED <= ONE * GHOST_SPEED) by (nonlinear_arith)
                requires
                    0 <= m <= ONE,
            ;
            assert(0 <= m * GHOST_SPEED) by (nonlinear_arith)
                requires
                    0 <= m,
            ;
            vstd::arithmetic::div_mod::lemma_div_is_ordered(m * GHOST_SPEED, ONE * GHOST_SPEED, ONE as int);
            assert(f * GHOST_SPEED == if f >= 0 { m * GHOST_SPEED } else { -(m * GHOST_SPEED) })
                by (nonlinear_arith)
                requires
                    m == if f >= 0 { f as int } else { -f },
            ;
            assert((ONE * GHOST_SPEED) / (ONE as int) == GHOST_SPEED);
        }
        let m = if a >= 0 { a as int } else { -a };
        assert(0 <= m * dt <= GHOST_SPEED * dt) by (nonlinear_arith)
            requires
                0 <= m <= GHOST_SPEED,
                0 <= dt,
        ;
        vstd::arithmetic::div_mod::lemma_div_is_ordered(m * dt, GHOST_SPEED * dt, 1_000_000);
        assert(a * dt == if a >= 0 { m * dt } else { -(m * dt) }) by (nonlinear_arith)
            requires
                m == if a >= 0 { a as int } else { -a },
        ;
        vstd::arithmetic::div_mod::lemma_div_pos_is_pos(m * dt, 1_000_000);
    }
    div_trunc(a * dt as i64, 1_000_000)
}

impl Game {
    /// Animates every entity and steers every adversary: towards a point on
    /// a circle around the player, away from close neighbors, with jitter,
    /// sliding along walls.
    pub fn update_sprites(&mut self, dt: u32)
        requires
            old(self).wf(),
        ensures
            final(self).wf(),
            *final(self) == (Game { sprites: final(self).sprites, ..*old(self) }),
            final(self).sprites@.len() == old(self).sprites@.len(),
            forall|i: int|
                0 <= i < old(self).sprites@.len() ==> sprite_stepped(
                    old(self).level,
                    #[trigger] old(self).sprites@[i],
                    final(self).sprites@[i],
                    dt as int,
                ),
            forall|k: int|
                0 <= k < adversaries(old(self).sprites@).len() ==> ghost_moved(
                    old(self).level,
                    old(self).player.x as int,
                    old(self).player.y as int,
                    old(self).time as int,
                    adversaries(old(self).sprites@),
                    k,
                    old(self).sprites@[(#[trigger] adversaries(old(self).sprites@)[k]).0 as int],
                    final(self).sprites@[adversaries(old(self).sprites@)[k].0 as int],
                    dt as int,
                ),
    {
        let ghost g0 = *self;
        let n = self.sprites.len();
        let mut i: usize = 0;
        while i < n
            invariant
                g0.wf(),
                *self == (Game { sprites: self.sprites, ..g0 }),
                n == g0.sprites@.len(),
                self.sprites@.len() == n,
                i <= n,
                sprites_ok(g0.level, self.sprites@),
                forall|j: int|
                    0 <= j < n ==> (#[trigger] self.sprites@[j]).kind == g0.sprites@[j].kind,
                forall|j: int|
                    0 <= j < i && g0.sprites@[j].kind == SpriteKind::Pellet ==> sprite_stepped(
                        g0.level,
                        g0.sprites@[j],
                        #[trigger] self.sprites@[j],
                        dt as int,
                    ),
                forall|j: int|
                    0 <= j < n && (i <= j || g0.sprites@[j].kind == SpriteKind::Adversary)
                        ==> #[trigger] self.sprites@[j] == g0.sprites@[j],
            decreases n - i,
        {
            let mut s = self.sprites[i];
            if s.kind == SpriteKind::Pellet {
                s.anim_time = s.anim_time + dt as i64;
                if s.anim_time > PELLET_FRAME_TIME {
                    s.anim_time = 0;
                    s.anim_frame = (s.anim_frame + 1) % 2;
                }
            }
            self.sprites.set(i, s);
            i = i + 1;
        }
        let ghost mid = self.sprites@;
        let mut ghosts: Vec<(usize, i64, i64)> = Vec::new();
        let mut i: usize = 0;
        while i < n
            invariant
                *self == (Game { sprites: self.sprites, ..g0 }),
                self.sprites@ == mid,
                mid.len() == n,
                n <= 0x2000_0000,
                i <= n,
                ghosts@.len() <= i,
                sprites_ok(g0.level, mid),
                g0.level.wf(),
                ghosts@ == adversaries(mid.subrange(0, i as int)),
                forall|m: int|
                    0 <= m < ghosts@.len() ==> {
                        &&& (#[trigger] ghosts@[m]).0 < i
                        &&& mid[ghosts@[m].0 as int].kind == SpriteKind::Adversary
                        &&& ghosts@[m].1 == mid[ghosts@[m].0 as int].x
                        &&& ghosts@[m].2 == mid[ghosts@[m].0 as int].y
                    },
                forall|m1: int, m2: int|
                    0 <= m1 < m2 < ghosts@.len() ==> (#[trigger] ghosts@[m1]).0 < (
                    #[trigger] ghosts@[m2]).0,
                forall|j: int|
                    0 <= j < i && (#[trigger] mid[j]).kind == SpriteKind::Adversary ==> listed(
                        ghosts@,
                        j,
                        ghosts@.len() as int,
                    ),
            decreases n - i,
        {
            let s = self.sprites[i];
            proof {
                assert(mid.subrange(0, i as int + 1).drop_last() =~= mid.subrange(0, i as int));
            }
            if s.kind == SpriteKind::Adversary {
                let ghost before = ghosts@;
                ghosts.push((i, s.x, s.y));
                proof {
                    assert forall|j: int|
                        0 <= j < i + 1 && (#[trigger] mid[j]).kind == SpriteKind::Adversary implies listed(
                        ghosts@,
                        j,
                        ghosts@.len() as int,
                    ) by {
                        if j < i {
                            let m = choose|m: int| 0 <= m < before.len() && (#[trigger] before[m]).0 == j;
                            assert(ghosts@[m] == before[m]);
                        } else {
                            assert(ghosts@[before.len() as int].0 == j);
                        }
                    }
                }
            }
            i = i + 1;
        }
        proof {
            assert(mid.subrange(0, n as int) =~= mid);
            lemma_same_adversaries(mid, g0.sprites@);
        }
        let gn = ghosts.len();
        let mut k: usize = 0;
        while k < gn
            invariant
                g0.wf(),
                *self == (Game { sprites: self.sprites, ..g0 }),
                gn == ghosts@.len(),
                gn <= n,
                n <= 0x2000_0000,
                k <= gn,
                self.sprites@.len() == n,
                mid.len() == n,
                g0.sprites@.len() == n,
                ghosts@ == adversaries(g0.sprites@),
                forall|m: int|
                    0 <= m < k ==> ghost_moved(
                        g0.level,
                        g0.player.x as int,
                        g0.player.y as int,
                        g0.time as int,
                        ghosts@,
                        m,
                        g0.sprites@[(#[trigger] ghosts@[m]).0 as int],
                        self.sprites@[ghosts@[m].0 as int],
                        dt as int,
                    ),
                sprites_ok(g0.level, self.sprites@),
                forall|m: int|
                    0 <= m < ghosts@.len() ==> {
                        &&& (#[trigger] ghosts@[m]).0 < n
                        &&& mid[ghosts@[m].0 as int].kind == SpriteKind::Adversary
                        &&& ghosts@[m].1 == mid[ghosts@[m].0 as int].x
                        &&& ghosts@[m].2 == mid[ghosts@[m].0 as int].y
                        &&& 0 <= ghosts@[m].1 < 0x4000_0000
                        &&& 0 <= ghosts@[m].2 < 0x4000_0000
                    },
                forall|m1: int, m2: int|
                    0 <= m1 < m2 < ghosts@.len() ==> (#[trigger] ghosts@[m1]).0 < (
                    #[trigger] ghosts@[m2]).0,
                forall|j: int|
                    0 <= j < n && (#[trigger] mid[j]).kind == SpriteKind::Adversary ==> listed(
                        ghosts@,
                        j,
                        gn as int,
                    ),
                forall|j: int|
                    0 <= j < n && g0.sprites@[j].kind == SpriteKind::Adversary ==> mid[j] == g0.sprites@[j],
                forall|j: int|
                    0 <= j < n && g0.sprites@[j].kind == SpriteKind::Pellet ==> sprite_stepped(
                        g0.level,
                        g0.sprites@[j],
                        mid[j],
                        dt as int,
                    ),
                forall|j: int| 0 <= j < n ==> (#[trigger] mid[j]).kind == g0.sprites@[j].kind,
                forall|j: int|
                    0 <= j < n ==> if listed(ghosts@, j, k as int) {
                        sprite_stepped(g0.level, g0.sprites@[j], #[trigger] self.sprites@[j], dt as int)
                    } else {
                        self.sprites@[j] == mid[j]
                    },
            decreases gn - k,
        {
            let (gi, gx, gy) = ghosts[k];
            let mut s = self.sprites[gi];
            proof {
                assert(!listed(ghosts@, gi as int, k as int)) by {
                    if listed(ghosts@, gi as int, k as int) {
                        let m = choose|m: int| 0 <= m < k && (#[trigger] ghosts@[m]).0 == gi;
                        assert(ghosts@[m].0 < ghosts@[k as int].0);
                    }
                }
                assert(s == mid[gi as int]);
                assert(s == g0.sprites@[gi as int]);
            }
            s.anim_time = s.anim_time + dt as i64;
            if s.anim_time > GHOST_FRAME_TIME {
                s.anim_time = 0;
                s.anim_frame = (s.anim_frame + 1) % 2;
            }
            let phase = phase_of(self.time, k);
            let c = unit_cos(phase);
            let sn = unit_sin(phase);
            proof {
                lemma_scatter_bound(c as int);
                lemma_scatter_bound(sn as int);
            }
            let tx = self.player.x + div_trunc(c * SCATTER_R, ONE);
            let ty = self.player.y + div_trunc(sn * SCATTER_R, ONE);
            let (rx, ry) = separation(&ghosts, k);
            let jx = random_in(-JITTER, JITTER);
            let jy = random_in(-JITTER, JITTER);
            let f = steer(gx, gy, tx, ty, rx, ry, jx, jy);
            let sx = ghost_step(f.0, dt);
            let sy = ghost_step(f.1, dt);
            let nx = gx + sx;
            let ny = gy + sy;
            if !is_wall_level(&self.level, nx, s.y) {
                s.x = nx;
            }
            if !is_wall_level(&self.level, s.x, ny) {
                s.y = ny;
            }
            proof {
                assert(slide(g0.level, gx as int, gy as int, sx as int, sy as int) == (s.x as int, s.y as int));
                assert(ghost_dest(
                    g0.level,
                    g0.player.x as int,
                    g0.player.y as int,
                    g0.time as int,
                    ghosts@,
                    k as int,
                    g0.sprites@[gi as int],
                    jx as int,
                    jy as int,
                    dt as int,
                ) == (s.x as int, s.y as int));
                assert(sprite_stepped(g0.level, g0.sprites@[gi as int], s, dt as int));
                assert(on_grid(g0.level, s.x as int, s.y as int));
            }
            let ghost before = self.sprites@;
            self.sprites.set(gi, s);
            proof {
                assert forall|j: int| 0 <= j < n implies if listed(ghosts@, j, k + 1) {
                    sprite_stepped(g0.level, g0.sprites@[j], #[trigger] self.sprites@[j], dt as int)
                } else {
                    self.sprites@[j] == mid[j]
                } by {
                    if j == gi {
                        assert(ghosts@[k as int].0 == j);
                    } else {
                        assert(self.sprites@[j] == before[j]);
                        if listed(ghosts@, j, k + 1) {
                            let m = choose|m: int| 0 <= m < k + 1 && (#[trigger] ghosts@[m]).0 == j;
                            assert(m < k);
                        } else {
                            assert(!listed(ghosts@, j, k as int)) by {
                                if listed(ghosts@, j, k as int) {
                                    let m = choose|m: int| 0 <= m < k && (#[trigger] ghosts@[m]).0 == j;
                                    assert(0 <= m < k + 1 && ghosts@[m].0 == j);
                                }
                            }
                        }
                    }
                }
                assert forall|m: int| 0 <= m < k + 1 implies ghost_moved(
                    g0.level,
                    g0.player.x as int,
                    g0.player.y as int,
                    g0.time as int,
                    ghosts@,
                    m,
                    g0.sprites@[(#[trigger] ghosts@[m]).0 as int],
                    self.sprites@[ghosts@[m].0 as int],
                    dt as int,
                ) by {
                    if m < k {
                        assert(ghosts@[m].0 < ghosts@[k as int].0);
                        assert(self.sprites@[ghosts@[m].0 as int] == before[ghosts@[m].0 as int]);
                    }
                }
                assert(sprites_ok(g0.level, self.sprites@)) by {
                    assert forall|j: int| 0 <= j < self.sprites@.len() implies on_grid(
                        g0.level,
                        (#[trigger] self.sprites@[j]).x as int,
                        self.sprites@[j].y as int,
                    ) && 0 <= self.sprites@[j].anim_time <= PELLET_FRAME_TIME
                        && self.sprites@[j].anim_frame < 2 by {
                        if j != gi {
                            assert(self.sprites@[j] == before[j]);
                        }
                    }
                }
            }
            k = k + 1;
        }
        proof {
            assert forall|j: int| 0 <= j < n implies sprite_stepped(
                g0.level,
                #[trigger] g0.sprites@[j],
                self.sprites@[j],
                dt as int,
            ) by {
                assert(mid[j].kind == g0.sprites@[j].kind);
                if g0.sprites@[j].kind == SpriteKind::Adversary {
                    assert(listed(ghosts@, j, gn as int));
                } else if !listed(ghosts@, j, gn as int) {
                    assert(self.sprites@[j] == mid[j]);
                } else {
                    let m = choose|m: int| 0 <= m < gn && (#[trigger] ghosts@[m]).0 == j;
                    assert(mid[j].kind == SpriteKind::Adversary);
                }
            }
            lemma_same_kinds_count(g0.sprites@, self.sprites@);
        }
    }
}

/// Entities of the same kinds, with the same adversaries, list the same
/// adversaries.
proof fn lemma_same_adversaries(a: Seq<Sprite>, b: Seq<Sprite>)
    requires
        a.len() == b.len(),
        forall|i: int| 0 <= i < a.len() ==> (#[trigger] a[i]).kind == b[i].kind,
        forall|i: int| 0 <= i < a.len() && b[i].kind == SpriteKind::Adversary ==> #[trigger] a[i] == b[i],
    ensures
        adversaries(a) == adversaries(b),
    decreases a.len(),
{
    if a.len() > 0 {
        lemma_same_adversaries(a.drop_last(), b.drop_last());
        assert(a.last() == a[a.len() - 1]);
        assert(b.last() == b[b.len() - 1]);
    }
}

/// A unit component scaled to the target circle stays small.
proof fn lemma_scatter_bound(c: int)
    requires
        -0x20_0000 < c < 0x20_0000,
    ensures
        -0x40_0000 <= tdiv(c * SCATTER_R, ONE as int) <= 0x40_0000,
        -0x8000_0000_0000 < c * SCATTER_R < 0x8000_0000_0000,
{
    assert(-0x20_0000 * SCATTER_R <= c * SCATTER_R <= 0x20_0000 * SCATTER_R) by (nonlinear_arith)
        requires
            -0x20_0000 < c < 0x20_0000,
    ;
}

/// Entities of the same kinds, position by position, count the same pickups.
pub proof fn lemma_same_kinds_count(a: Seq<Sprite>, b: Seq<Sprite>)
    requires
        a.len() == b.len(),
        forall|i: int| 0 <= i < a.len() ==> (#[trigger] a[i]).kind == b[i].kind,
    ensures
        count_pellets(a) == count_pellets(b),
    decreases a.len(),
{
    if a.len() > 0 {
        lemma_same_kinds_count(a.drop_last(), b.drop_last());
    }
}

} // verus!
