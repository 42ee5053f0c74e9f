use vstd::prelude::*;
use crate::fixed::{div_trunc, tdiv, ONE, TURN};
use crate::level::{catalog_shape, catalog_tiles, get_level, well_built, Level};
use crate::player::{cell_center, is_wall_level, on_grid, point_in_wall, Player, START_ANGLE};
use crate::populate::pellet_layout;
use crate::steering::sprite_stepped;
use crate::raycaster::DepthBuffer;
use crate::sprites::{Sprite, SpriteKind};

verus! {

/// Squared pickup radius: 0.18 tiles, in fixed point.
pub const PICKUP_R2: i64 = 11796 * 11796;

/// Squared hazard radius: 0.30 tiles, in fixed point.
pub const HIT_R2: i64 = 19661 * 19661;

/// Invulnerability after losing a life: two seconds, in microseconds.
pub const HIT_COOLDOWN: i64 = 2_000_000;

/// Lives at the start of a level.
pub const START_LIVES: i32 = 3;

/// Most entities a game may hold.
pub const MAX_SPRITES: usize = 0x2000_0000;

/// Animation step of a pickup: half a second, in microseconds.
pub const PELLET_FRAME_TIME: i64 = 500_000;

/// Animation step of an adversary: 0.3 seconds, in microseconds.
pub const GHOST_FRAME_TIME: i64 = 300_000;

/// Pointer sensitivity: angle units per unit of horizontal pointer motion
/// (0.0035 radians).
pub const MOUSE_SENSITIVITY: i64 = 37;

/// Number of keys the game tracks.
pub const KEY_COUNT: usize = 13;

/// The game's modes.
#[derive(Copy, Clone, PartialEq, Eq, Structural, Debug)]
pub enum Mode {
    Menu,
    Playing,
    Paused,
    Win,
    GameOver,
}

/// The keys the game reacts to; every other key is `Other`.
#[derive(Copy, Clone, PartialEq, Eq, Structural, Debug)]
pub enum Key {
    W,
    S,
    Q,
    E,
    Left,
    Right,
    P,
    R,
    Return,
    Key1,
    Key2,
    Key3,
    Other,
}

impl Key {
    pub open spec fn slot(self) -> int {
        match self {
            Key::W => 0,
            Key::S => 1,
            Key::Q => 2,
            Key::E => 3,
            Key::Left => 4,
            Key::Right => 5,
            Key::P => 6,
            Key::R => 7,
            Key::Return => 8,
            Key::Key1 => 9,
            Key::Key2 => 10,
            Key::Key3 => 11,
            Key::Other => 12,
        }
    }

    /// The key's slot in the held-keys table.
    pub fn index(self) -> (r: usize)
        ensures
            r == self.slot(),
            r < KEY_COUNT,
    {
        match self {
            Key::W => 0,
            Key::S => 1,
            Key::Q => 2,
            Key::E => 3,
            Key::Left => 4,
            Key::Right => 5,
            Key::P => 6,
            Key::R => 7,
            Key::Return => 8,
            Key::Key1 => 9,
            Key::Key2 => 10,
            Key::Key3 => 11,
            Key::Other => 12,
        }
    }
}

/// A sound cue for the audio service: `Theme` is the looping music track,
/// the others are one-shot effects.
#[derive(Copy, Clone, PartialEq, Eq, Structural, Debug)]
pub enum Sound {
    Theme,
    Pellet,
    Hit,
    GameOver,
    Win,
}

impl Sound {
    /// The resource path of the cue.
    pub fn path(self) -> (r: &'static str)
        ensures
            self == Sound::Theme ==> r@ == "assets/music/theme.ogg"@,
            self == Sound::Pellet ==> r@ == "assets/sfx/pellet.wav"@,
            self == Sound::Hit ==> r@ == "assets/sfx/hit.wav"@,
            self == Sound::GameOver ==> r@ == "assets/sfx/game_over.wav"@,
            self == Sound::Win ==> r@ == "assets/sfx/win.wav"@,
    {
        match self {
            Sound::Theme => "assets/music/theme.ogg",
            Sound::Pellet => "assets/sfx/pellet.wav",
            Sound::Hit => "assets/sfx/hit.wav",
            Sound::GameOver => "assets/sfx/game_over.wav",
            Sound::Win => "assets/sfx/win.wav",
        }
    }

    /// Whether the cue is the looping music track.
    pub fn is_loop(self) -> (r: bool)
        ensures
            r == (self == Sound::Theme),
    {
        match self {
            Sound::Theme => true,
            _ => false,
        }
    }
}

/// Squared distance between two fixed-point points.
pub open spec fn dist2(ax: int, ay: int, bx: int, by: int) -> int {
    (ax - bx) * (ax - bx) + (ay - by) * (ay - by)
}

/// Number of pickups in a sequence of entities.
pub open spec fn count_pellets(s: Seq<Sprite>) -> nat
    decreases s.len(),
{
    if s.len() == 0 {
        0
    } else {
        count_pellets(s.drop_last()) + if s.last().kind == SpriteKind::Pellet {
            1nat
        } else {
            0nat
        }
    }
}

/// Whether an entity is a pickup within pickup radius of `(px, py)`.
pub open spec fn picked(px: int, py: int, s: Sprite) -> bool {
    s.kind == SpriteKind::Pellet && dist2(px, py, s.x as int, s.y as int) < PICKUP_R2
}

/// The entities that stay after collecting around `(px, py)`, in order.
pub open spec fn kept(px: int, py: int, s: Seq<Sprite>) -> Seq<Sprite>
    decreases s.len(),
{
    if s.len() == 0 {
        s
    } else if picked(px, py, s.last()) {
        kept(px, py, s.drop_last())
    } else {
        kept(px, py, s.drop_last()).push(s.last())
    }
}

/// Number of entities collected around `(px, py)`.
pub open spec fn n_picked(px: int, py: int, s: Seq<Sprite>) -> nat
    decreases s.len(),
{
    if s.len() == 0 {
        0
    } else {
        n_picked(px, py, s.drop_last()) + if picked(px, py, s.last()) {
            1nat
        } else {
            0nat
        }
    }
}

/// Whether an adversary is within hazard radius of `(px, py)`.
pub open spec fn hit_by(px: int, py: int, s: Seq<Sprite>) -> bool {
    exists|i: int|
        0 <= i < s.len() && (#[trigger] s[i]).kind == SpriteKind::Adversary && dist2(
            px,
            py,
            s[i].x as int,
            s[i].y as int,
        ) < HIT_R2
}

/// Entities that all lie on the grid, with bounded animation state.
pub open spec fn sprites_ok(level: Level, s: Seq<Sprite>) -> bool {
    &&& s.len() <= MAX_SPRITES
    &&& forall|i: int|
        0 <= i < s.len() ==> {
            &&& on_grid(level, (#[trigger] s[i]).x as int, s[i].y as int)
            &&& 0 <= s[i].anim_time <= PELLET_FRAME_TIME
            &&& s[i].anim_frame < 2
        }
}


/// Collecting keeps the pickup count: what stays plus what was collected is
/// what there was.
pub proof fn lemma_kept_count(px: int, py: int, s: Seq<Sprite>)
    ensures
        count_pellets(s) == count_pellets(kept(px, py, s)) + n_picked(px, py, s),
        kept(px, py, s).len() + n_picked(px, py, s) == s.len(),
    decreases s.len(),
{
    if s.len() > 0 {
        lemma_kept_count(px, py, s.drop_last());
        let k = kept(px, py, s.drop_last());
        assert(k.push(s.last()).drop_last() =~= k);
    }
}

/// Collecting keeps entities that were on the grid on the grid.
pub proof fn lemma_kept_ok(level: Level, px: int, py: int, s: Seq<Sprite>)
    requires
        sprites_ok(level, s),
    ensures
        sprites_ok(level, kept(px, py, s)),
        kept(px, py, s).len() <= s.len(),
    decreases s.len(),
{
    if s.len() > 0 {
        assert(sprites_ok(level, s.drop_last()));
        lemma_kept_ok(level, px, py, s.drop_last());
        let k = kept(px, py, s.drop_last());
        if !picked(px, py, s.last()) {
            assert(s.last() == s[s.len() - 1]);
            assert forall|i: int| 0 <= i < k.push(s.last()).len() implies on_grid(
                level,
                (#[trigger] k.push(s.last())[i]).x as int,
                k.push(s.last())[i].y as int,
            ) && 0 <= k.push(s.last())[i].anim_time <= PELLET_FRAME_TIME && k.push(
                s.last(),
            )[i].anim_frame < 2 by {
                if i < k.len() {
                    assert(k.push(s.last())[i] == k[i]);
                }
            }
        }
    }
}

/// What one pickup-and-hazard pass does to a game.
pub open spec fn collision_outcome(g: Game, g2: Game) -> bool {
    let px = g.player.x as int;
    let py = g.player.y as int;
    let hit = g.invincible_time <= 0 && g.mode == Mode::Playing && hit_by(px, py, g2.sprites@);
    &&& g2.sprites@ == kept(px, py, g.sprites@)
    &&& g2.pellets_remaining == count_pellets(g2.sprites@)
    &&& g2.pellets_remaining == if g.pellets_remaining >= n_picked(px, py, g.sprites@) {
        g.pellets_remaining - n_picked(px, py, g.sprites@)
    } else {
        0
    }
    &&& g2.level == g.level
    &&& g2.level_index == g.level_index
    &&& g2.total_pellets == g.total_pellets
    &&& g2.time == g.time
    &&& g2.pressed == g.pressed
    &&& g2.depth == g.depth
    &&& g2.mouse_sensitivity == g.mouse_sensitivity
    &&& hit ==> g2.lives == g.lives - 1
    &&& (hit && g2.lives > 0) ==> {
        &&& g2.player == Player {
            x: cell_center(g.level.spawn.0 as int) as i64,
            y: cell_center(g.level.spawn.1 as int) as i64,
            ..g.player
        }
        &&& g2.invincible_time == HIT_COOLDOWN
        &&& g2.mode == g.mode
        &&& g2.death_anim_t == g.death_anim_t
    }
    &&& (hit && g2.lives <= 0) ==> {
        &&& g2.player == g.player
        &&& g2.invincible_time == g.invincible_time
        &&& g2.mode == Mode::GameOver
        &&& g2.death_anim_t == 0
    }
    &&& !hit ==> {
        &&& g2.lives == g.lives
        &&& g2.player == g.player
        &&& g2.invincible_time == g.invincible_time
        &&& g2.mode == g.mode
        &&& g2.death_anim_t == g.death_anim_t
    }
}

/// The sound cues of one pickup-and-hazard pass.
pub open spec fn collision_sounds(g: Game, g2: Game) -> Seq<Sound> {
    let px = g.player.x as int;
    let py = g.player.y as int;
    let hit = g2.lives < g.lives;
    (if n_picked(px, py, g.sprites@) > 0 {
        seq![Sound::Pellet]
    } else {
        seq![]
    }) + (if hit {
        seq![Sound::Hit]
    } else {
        seq![]
    }) + (if hit && g2.mode == Mode::GameOver {
        seq![Sound::GameOver]
    } else {
        seq![]
    })
}


/// Whether an adversary of `sprites` is within hazard radius of `(px, py)`.
fn hazard_near(sprites: &Vec<Sprite>, level: &Level, px: i64, py: i64) -> (r: bool)
    requires
        sprites_ok(*level, sprites@),
        level.wf(),
        on_grid(*level, px as int, py as int),
    ensures
        r == hit_by(px as int, py as int, sprites@),
{
    let m = sprites.len();
    let mut j: usize = 0;
    while j < m
        invariant
            m == sprites@.len(),
            sprites_ok(*level, sprites@),
            level.wf(),
            on_grid(*level, px as int, py as int),
            j <= m,
            forall|k: int|
                0 <= k < j ==> !((#[trigger] sprites@[k]).kind == SpriteKind::Adversary && dist2(
                    px as int,
                    py as int,
                    sprites@[k].x as int,
                    sprites@[k].y as int,
                ) < HIT_R2),
        decreases m - j,
    {
        let s = sprites[j];
        let dx = px - s.x;
        let dy = py - s.y;
        proof {
            assert(on_grid(*level, s.x as int, s.y as int));
            assert(0 <= dx * dx < 0x1000_0000_0000_0000) by (nonlinear_arith)
                requires
                    -0x4000_0000 < dx < 0x4000_0000,
            ;
            assert(0 <= dy * dy < 0x1000_0000_0000_0000) by (nonlinear_arith)
                requires
                    -0x4000_0000 < dy < 0x4000_0000,
            ;
        }
        let d2 = dx * dx + dy * dy;
        if s.kind == SpriteKind::Adversary && d2 < HIT_R2 {
            return true;
        }
        j = j + 1;
    }
    false
}


/// A game just (re)started on catalog level `index`: full lives, no
/// invulnerability, clock at zero, the player on the spawn cell at the start
/// heading, and the pickup counters equal to the pickups just built.
pub open spec fn fresh_level(g: Game, index: usize) -> bool {
    &&& g.wf()
    &&& g.mode == Mode::Playing
    &&& g.level_index == index
    &&& catalog_shape(index, g.level)
    &&& catalog_tiles(index, g.level)
    &&& well_built(g.level)
    &&& g.lives == START_LIVES
    &&& g.invincible_time == 0
    &&& g.time == 0
    &&& g.death_anim_t == 0
    &&& g.pellets_remaining == g.total_pellets
    &&& g.total_pellets == count_pellets(g.sprites@)
    &&& g.total_pellets == pellet_layout(g.level).len()
    &&& g.sprites@.subrange(0, pellet_layout(g.level).len() as int) == pellet_layout(g.level)
    &&& g.player.x == cell_center(g.level.spawn.0 as int)
    &&& g.player.y == cell_center(g.level.spawn.1 as int)
    &&& g.player.angle == START_ANGLE
}

/// The level a key press starts, if any: a digit in the menu, or retry
/// after a game over.
pub open spec fn level_started(mode: Mode, key: Key, down: bool, current: usize) -> Option<usize> {
    if !down {
        None
    } else {
        match mode {
            Mode::Menu => match key {
                Key::Key1 => Some(0usize),
                Key::Key2 => Some(1usize),
                Key::Key3 => Some(2usize),
                _ => None,
            },
            Mode::GameOver => if key == Key::R {
                Some(current)
            } else {
                None
            },
            _ => None,
        }
    }
}

/// The mode after a key event that starts no level.
pub open spec fn mode_after_key(mode: Mode, key: Key, down: bool) -> Mode {
    if !down {
        mode
    } else {
        match mode {
            Mode::Win => if key == Key::Return {
                Mode::Menu
            } else {
                mode
            },
            Mode::GameOver => if key == Key::Return {
                Mode::Menu
            } else {
                mode
            },
            Mode::Paused => if key == Key::P {
                Mode::Playing
            } else if key == Key::Return {
                Mode::Menu
            } else {
                mode
            },
            Mode::Playing => if key == Key::P {
                Mode::Paused
            } else {
                mode
            },
            Mode::Menu => mode,
        }
    }
}

/// `t + dt`, held at `i64::MAX`.
pub open spec fn clock_add(t: int, dt: int) -> int {
    if t + dt <= i64::MAX {
        t + dt
    } else {
        i64::MAX as int
    }
}

/// Invulnerability left after `dt` more microseconds of play.
pub open spec fn decayed(inv: int, dt: int) -> int {
    if inv > 0 {
        if inv - dt > 0 {
            inv - dt
        } else {
            0
        }
    } else {
        inv
    }
}

/// Distance along one axis covered in `dt` microseconds at `speed` (fixed
/// point per second) along a heading component `v`.
pub open spec fn travel(v: int, speed: int, dt: int) -> int {
    tdiv(tdiv(v * speed, ONE as int) * dt, 1_000_000)
}

/// The player after reading the held keys for `dt` microseconds: turned
/// first, then moved along the heading it had before turning, one axis at a
/// time.
pub open spec fn steered_player(g: Game, dt: int) -> Player {
    let p = g.player;
    let fwd = (if g.pressed@[Key::W.slot()] { 1int } else { 0int }) - (if g.pressed@[Key::S.slot()] {
        1int
    } else {
        0int
    });
    let turn = (if g.pressed@[Key::Q.slot()] || g.pressed@[Key::Left.slot()] {
        1int
    } else {
        0int
    }) - (if g.pressed@[Key::E.slot()] || g.pressed@[Key::Right.slot()] {
        1int
    } else {
        0int
    });
    let rot = tdiv(p.rot_speed * dt, 1_000_000);
    let q = if turn != 0 && rot != 0 {
        p.rotated(turn * rot)
    } else {
        p
    };
    let dx = fwd * travel(p.dir_x as int, p.move_speed as int, dt);
    let dy = fwd * travel(p.dir_y as int, p.move_speed as int, dt);
    let x2 = if point_in_wall(g.level, p.x + dx, p.y as int) {
        p.x as int
    } else {
        p.x + dx
    };
    let y2 = if point_in_wall(g.level, x2, p.y + dy) {
        p.y as int
    } else {
        p.y + dy
    };
    Player { x: x2 as i64, y: y2 as i64, ..q }
}

/// What one frame of play does: the clock advances, invulnerability decays,
/// the player steers, every entity steps, then one pickup-and-hazard pass
/// runs; when no pickup is left the level is won on the same frame.
pub open spec fn play_step(g: Game, g2: Game, dt: int, sounds: Seq<Sound>) -> bool {
    exists|mid: Game, after: Game|
        {
            &&& mid.mode == Mode::Playing
            &&& mid.level == g.level
            &&& mid.level_index == g.level_index
            &&& mid.lives == g.lives
            &&& mid.pellets_remaining == g.pellets_remaining
            &&& mid.total_pellets == g.total_pellets
            &&& mid.invincible_time == decayed(g.invincible_time as int, dt)
            &&& mid.time == clock_add(g.time as int, dt)
            &&& mid.player == steered_player(g, dt)
            &&& mid.pressed == g.pressed
            &&& mid.depth == g.depth
            &&& mid.mouse_sensitivity == g.mouse_sensitivity
            &&& mid.death_anim_t == g.death_anim_t
            &&& mid.sprites@.len() == g.sprites@.len()
            &&& forall|i: int|
                0 <= i < g.sprites@.len() ==> sprite_stepped(
                    g.level,
                    #[trigger] g.sprites@[i],
                    mid.sprites@[i],
                    dt,
                )
            &&& #[trigger] collision_outcome(mid, after)
            &&& g2 == (Game {
                mode: if after.pellets_remaining == 0 {
                    Mode::Win
                } else {
                    after.mode
                },
                fps: g2.fps,
                fps_acc: g2.fps_acc,
                fps_count: g2.fps_count,
                ..after
            })
            &&& sounds == collision_sounds(mid, after) + if after.pellets_remaining == 0 {
                seq![Sound::Win]
            } else {
                seq![]
            }
        }
}

/// What one frame does in a mode other than play: nothing but the clock of
/// the game-over animation moves.
pub open spec fn idle_step(g: Game, g2: Game, dt: int) -> bool {
    g2 == (Game {
        death_anim_t: if g.mode == Mode::GameOver {
            clock_add(g.death_anim_t as int, dt) as i64
        } else {
            g.death_anim_t
        },
        fps: g2.fps,
        fps_acc: g2.fps_acc,
        fps_count: g2.fps_count,
        ..g
    })
}


/// `|tdiv(a, b)|` is at most `|a|`.
proof fn lemma_tdiv_bound(a: int, b: int)
    requires
        b >= 1,
    ensures
        -(if a >= 0 { a } else { -a }) <= tdiv(a, b) <= (if a >= 0 { a } else { -a }),
{
    let m = if a >= 0 { a } else { -a };
    assert(0 <= m / b <= m) by (nonlinear_arith)
        requires
            0 <= m,
            b >= 1,
    ;
}

/// Distance along one axis covered in `dt` microseconds.
fn travel_along(v: i64, speed: i64, dt: u32) -> (r: i64)
    requires
        -0x20_0000 <= v <= 0x20_0000,
        0 <= speed <= 4 * ONE,
    ensures
        r == travel(v as int, speed as int, dt as int),
        -0x10_0000_0000_0000 <= r <= 0x10_0000_0000_0000,
{
    proof {
        assert(-0x80_0000_0000 <= v * speed <= 0x80_0000_0000) by (nonlinear_arith)
            requires
                -0x20_0000 <= v <= 0x20_0000,
                0 <= speed <= 4 * ONE,
        ;
    }
    let a = div_trunc(v * speed, ONE);
    proof {
        lemma_tdiv_bound(v * speed, ONE as int);
        vstd::arithmetic::div_mod::lemma_div_is_ordered(
            if v * speed >= 0 { v * speed } else { -(v * speed) },
            0x80_0000_0000,
            ONE as int,
        );
        assert(-0x80_0000 <= a <= 0x80_0000);
        assert(-0x80_0000_0000_0000 <= a * dt <= 0x80_0000_0000_0000) by (nonlinear_arith)
            requires
                -0x80_0000 <= a <= 0x80_0000,
                0 <= dt <= 0xffff_ffff,
        ;
        lemma_tdiv_bound(a * dt, 1_000_000);
        vstd::arithmetic::div_mod::lemma_div_is_ordered(
            if a * dt >= 0 { a * dt } else { -(a * dt) },
            0x80_0000_0000_0000,
            1_000_000,
        );
    }
    div_trunc(a * dt as i64, 1_000_000)
}

/// Number of pickups in `s`.
fn pellet_count(s: &Vec<Sprite>) -> (r: usize)
    ensures
        r == count_pellets(s@),
{
    let mut c: usize = 0;
    let mut i: usize = 0;
    while i < s.len()
        invariant
            i <= s@.len(),
            c == count_pellets(s@.subrange(0, i as int)),
            c <= i,
        decreases s@.len() - i,
    {
        proof {
            assert(s@.subrange(0, i as int + 1).drop_last() =~= s@.subrange(0, i as int));
        }
        if s[i].kind == SpriteKind::Pellet {
            c = c + 1;
        }
        i = i + 1;
    }
    proof {
        assert(s@.subrange(0, s@.len() as int) =~= s@);
    }
    c
}

/// A table of `n` released keys.
fn released_keys(n: usize) -> (r: Vec<bool>)
    ensures
        r@.len() == n,
        forall|i: int| 0 <= i < n ==> !r@[i],
{
    let mut v: Vec<bool> = Vec::new();
    let mut i: usize = 0;
    while i < n
        invariant
            i <= n,
            v@.len() == i,
            forall|k: int| 0 <= k < i ==> !v@[k],
        decreases n - i,
    {
        v.push(false);
        i = i + 1;
    }
    v
}


/// What one call of `update` does, in any mode.
pub open spec fn update_outcome(g: Game, g2: Game, dt: int, sounds: Seq<Sound>) -> bool {
    &&& g.mode == Mode::Playing ==> play_step(g, g2, dt, sounds)
    &&& g.mode != Mode::Playing ==> idle_step(g, g2, dt) && sounds == Seq::<Sound>::empty()
}

/// Total time of the first `k` frames.
pub open spec fn elapsed(dts: Seq<u32>, k: int) -> int
    decreases k,
{
    if k <= 0 {
        0
    } else {
        elapsed(dts, k - 1) + dts[k - 1]
    }
}

proof fn lemma_elapsed_grows(dts: Seq<u32>, k: int, n: int)
    requires
        0 <= k <= n <= dts.len(),
    ensures
        0 <= elapsed(dts, k) <= elapsed(dts, n),
    decreases n,
{
    if n > k {
        lemma_elapsed_grows(dts, k, n - 1);
    } else if k > 0 {
        lemma_elapsed_grows(dts, k - 1, k - 1);
    }
}

/// A hit cannot fire twice within one cooldown: from a game whose
/// invulnerability was just set by a hit, any run of updates lasting less
/// than the cooldown in total loses no further life.
pub proof fn lemma_hit_cooldown(gs: Seq<Game>, dts: Seq<u32>, cues: Seq<Seq<Sound>>)
    requires
        gs.len() == dts.len() + 1,
        cues.len() == dts.len(),
        forall|i: int|
            0 <= i < dts.len() ==> update_outcome(
                #[trigger] gs[i],
                gs[i + 1],
                dts[i] as int,
                cues[i],
            ),
        gs[0].invincible_time == HIT_COOLDOWN,
        elapsed(dts, dts.len() as int) < HIT_COOLDOWN,
    ensures
        forall|k: int| 0 <= k < gs.len() ==> (#[trigger] gs[k]).lives == gs[0].lives,
{
    assert forall|k: int| 0 <= k < gs.len() implies (#[trigger] gs[k]).lives == gs[0].lives by {
        lemma_cooldown_upto(gs, dts, cues, k);
    }
}

proof fn lemma_cooldown_upto(gs: Seq<Game>, dts: Seq<u32>, cues: Seq<Seq<Sound>>, k1: int)
    requires
        gs.len() == dts.len() + 1,
        cues.len() == dts.len(),
        forall|i: int|
            0 <= i < dts.len() ==> update_outcome(
                #[trigger] gs[i],
                gs[i + 1],
                dts[i] as int,
                cues[i],
            ),
        gs[0].invincible_time == HIT_COOLDOWN,
        elapsed(dts, dts.len() as int) < HIT_COOLDOWN,
        0 <= k1 <= dts.len(),
    ensures
        gs[k1].lives == gs[0].lives,
        gs[k1].invincible_time >= HIT_COOLDOWN - elapsed(dts, k1),
    decreases k1,
{
    if k1 > 0 {
        let k = k1 - 1;
        lemma_cooldown_upto(gs, dts, cues, k);
        lemma_elapsed_grows(dts, k + 1, dts.len() as int);
        let g = gs[k];
        let g2 = gs[k + 1];
        assert(update_outcome(g, g2, dts[k] as int, cues[k]));
        assert(g.invincible_time - dts[k] > 0);
        if g.mode == Mode::Playing {
            let (mid, after) = choose|mid: Game, after: Game|
                {
                    &&& mid.mode == Mode::Playing
                    &&& mid.level == g.level
                    &&& mid.level_index == g.level_index
                    &&& mid.lives == g.lives
                    &&& mid.pellets_remaining == g.pellets_remaining
                    &&& mid.total_pellets == g.total_pellets
                    &&& mid.invincible_time == decayed(g.invincible_time as int, dts[k] as int)
                    &&& mid.time == clock_add(g.time as int, dts[k] as int)
                    &&& mid.player == steered_player(g, dts[k] as int)
                    &&& mid.pressed == g.pressed
                    &&& mid.depth == g.depth
                    &&& mid.mouse_sensitivity == g.mouse_sensitivity
                    &&& mid.death_anim_t == g.death_anim_t
                    &&& mid.sprites@.len() == g.sprites@.len()
                    &&& forall|i: int|
                        0 <= i < g.sprites@.len() ==> sprite_stepped(
                            g.level,
                            #[trigger] g.sprites@[i],
                            mid.sprites@[i],
                            dts[k] as int,
                        )
                    &&& #[trigger] collision_outcome(mid, after)
                    &&& g2 == (Game {
                        mode: if after.pellets_remaining == 0 {
                            Mode::Win
                        } else {
                            after.mode
                        },
                        fps: g2.fps,
                        fps_acc: g2.fps_acc,
                        fps_count: g2.fps_count,
                        ..after
                    })
                    &&& cues[k] == collision_sounds(mid, after) + if after.pellets_remaining == 0 {
                        seq![Sound::Win]
                    } else {
                        seq![]
                    }
                };
            assert(mid.invincible_time > 0);
            assert(g2.lives == g.lives);
        }
        assert(gs[k + 1].lives == gs[0].lives);
    }
}

/// Collecting is done once per pass: nothing that stays is within pickup
/// radius, so a second pass at the same place collects nothing and keeps
/// everything; what stays plus what was collected is what there was.
pub proof fn lemma_pickups_once(px: int, py: int, s: Seq<Sprite>)
    ensures
        forall|i: int|
            0 <= i < kept(px, py, s).len() ==> !picked(px, py, #[trigger] kept(px, py, s)[i]),
        n_picked(px, py, kept(px, py, s)) == 0,
        kept(px, py, kept(px, py, s)) == kept(px, py, s),
        kept(px, py, s).len() + n_picked(px, py, s) == s.len(),
        count_pellets(s) == count_pellets(kept(px, py, s)) + n_picked(px, py, s),
    decreases s.len(),
{
    lemma_kept_count(px, py, s);
    lemma_none_picked(px, py, kept(px, py, s));
    if s.len() > 0 {
        lemma_pickups_once(px, py, s.drop_last());
        let k = kept(px, py, s.drop_last());
        if !picked(px, py, s.last()) {
            let k2 = k.push(s.last());
            assert(k2.drop_last() =~= k);
            assert forall|i: int| 0 <= i < k2.len() implies !picked(px, py, #[trigger] k2[i]) by {
                if i < k.len() {
                    assert(k2[i] == k[i]);
                }
            }
        }
    }
}

/// A sequence holding no entity within pickup radius loses nothing to a pass.
proof fn lemma_none_picked(px: int, py: int, s: Seq<Sprite>)
    ensures
        (forall|i: int| 0 <= i < s.len() ==> !picked(px, py, #[trigger] s[i])) ==> (n_picked(px, py, s) == 0
            && kept(px, py, s) == s),
    decreases s.len(),
{
    if s.len() > 0 {
        lemma_none_picked(px, py, s.drop_last());
        if forall|i: int| 0 <= i < s.len() ==> !picked(px, py, #[trigger] s[i]) {
            assert(forall|i: int| 0 <= i < s.drop_last().len() ==> #[trigger] s.drop_last()[i] == s[i]);
            assert(s.drop_last().push(s.last()) =~= s);
        }
    }
}

/// The whole game: mode, level, camera, held keys, entities and counters.
/// Times are in microseconds.
pub struct Game {
    pub mode: Mode,
    pub level_index: usize,
    pub level: Level,
    pub player: Player,
    pub pressed: Vec<bool>,
    pub fps: i64,
    pub fps_acc: i64,
    pub fps_count: u32,
    pub sprites: Vec<Sprite>,
    pub pellets_remaining: usize,
    pub depth: DepthBuffer,
    pub mouse_sensitivity: i64,
    pub lives: i32,
    pub invincible_time: i64,
    pub time: i64,
    pub death_anim_t: i64,
    pub total_pellets: usize,
}

impl Game {
    pub open spec fn wf(&self) -> bool {
        &&& self.level.wf()
        &&& self.player.wf()
        &&& on_grid(self.level, self.player.x as int, self.player.y as int)
        &&& self.pressed@.len() == KEY_COUNT
        &&& sprites_ok(self.level, self.sprites@)
        &&& self.pellets_remaining == count_pellets(self.sprites@)
        &&& self.pellets_remaining <= self.total_pellets
        &&& -1 <= self.lives <= START_LIVES
        &&& (self.mode == Mode::Playing || self.mode == Mode::Paused) ==> self.lives >= 0
        &&& 0 <= self.invincible_time <= HIT_COOLDOWN
        &&& 0 <= self.time
        &&& 0 <= self.death_anim_t
        &&& 0 <= self.fps_acc < 1_000_000
        &&& 0 <= self.fps
        &&& 0 <= self.mouse_sensitivity <= 1000
    }

    /// The current mode.
    pub fn mode(&self) -> (r: Mode)
        ensures
            r == self.mode,
    {
        self.mode
    }

    /// Whether a key is held.
    pub fn is_down(&self, key: Key) -> (r: bool)
        requires
            self.pressed@.len() == KEY_COUNT,
        ensures
            r == self.pressed@[key.slot()],
    {
        self.pressed[key.index()]
    }

    /// Whether a fixed-point point is inside a wall of the current level.
    pub fn is_wall(&self, x: i64, y: i64) -> (r: bool)
        requires
            self.level.wf(),
        ensures
            r == point_in_wall(self.level, x as int, y as int),
    {
        is_wall_level(&self.level, x, y)
    }

    /// Moves the player by `(dx, dy)`, one axis at a time: each axis move is
    /// kept only if it does not end inside a wall.
    pub fn try_move(&mut self, dx: i64, dy: i64)
        requires
            old(self).wf(),
            -0x10_0000_0000_0000 <= dx <= 0x10_0000_0000_0000,
            -0x10_0000_0000_0000 <= dy <= 0x10_0000_0000_0000,
        ensures
            final(self).wf(),
            ({
                let p = old(self).player;
                let nx = p.x + dx;
                let x2 = if point_in_wall(old(self).level, nx, p.y as int) {
                    p.x as int
                } else {
                    nx
                };
                let ny = p.y + dy;
                let y2 = if point_in_wall(old(self).level, x2, ny) {
                    p.y as int
                } else {
                    ny
                };
                &&& *final(self) == (Game { player: Player { x: x2 as i64, y: y2 as i64, ..p }, ..*old(self) })
            }),
    {
        let new_x = self.player.x + dx;
        if !self.is_wall(new_x, self.player.y) {
            self.player.x = new_x;
        }
        let new_y = self.player.y + dy;
        if !self.is_wall(self.player.x, new_y) {
            self.player.y = new_y;
        }
    }
    /// A game in the menu, with the first level loaded and a depth buffer
    /// of `width` columns.
    pub fn new(width: i32, _height: i32) -> (r: Game)
        requires
            width >= 0,
        ensures
            r.wf(),
            r.mode == Mode::Menu,
            r.level_index == 0,
            catalog_shape(0, r.level),
            catalog_tiles(0, r.level),
            well_built(r.level),
            r.lives == START_LIVES,
            r.invincible_time == 0,
            r.pellets_remaining == r.total_pellets,
            r.total_pellets == pellet_layout(r.level).len(),
            r.player.x == cell_center(r.level.spawn.0 as int),
            r.player.y == cell_center(r.level.spawn.1 as int),
            r.player.angle == START_ANGLE,
            r.depth.cols@.len() == width,
            forall|i: int| 0 <= i < KEY_COUNT ==> !r.pressed@[i],
    {
        let level = get_level(0);
        let player = Player::spawn_at(level.spawn.0, level.spawn.1);
        let sprites = Game::build_sprites_for_level(&level);
        let total_pellets = pellet_count(&sprites);
        Game {
            mode: Mode::Menu,
            level_index: 0,
            level,
            player,
            pressed: released_keys(KEY_COUNT),
            fps: 0,
            fps_acc: 0,
            fps_count: 0,
            sprites,
            pellets_remaining: total_pellets,
            depth: DepthBuffer::new(width as usize),
            mouse_sensitivity: MOUSE_SENSITIVITY,
            lives: START_LIVES,
            invincible_time: 0,
            time: 0,
            death_anim_t: 0,
            total_pellets,
        }
    }

    /// Loads catalog level `index` and resets the play state; the music
    /// track starts.
    pub fn start_level(&mut self, index: usize) -> (sounds: Vec<Sound>)
        requires
            old(self).wf(),
        ensures
            fresh_level(*final(self), index),
            final(self).pressed == old(self).pressed,
            final(self).depth == old(self).depth,
            final(self).mouse_sensitivity == old(self).mouse_sensitivity,
            final(self).player.move_speed == old(self).player.move_speed,
            final(self).player.rot_speed == old(self).player.rot_speed,
            final(self).fps == old(self).fps,
            final(self).fps_acc == old(self).fps_acc,
            final(self).fps_count == old(self).fps_count,
            sounds@ == seq![Sound::Theme],
    {
        self.level_index = index;
        self.level = get_level(index);
        let (px, py) = self.level.spawn;
        self.player.x = px as i64 * ONE + ONE / 2;
        self.player.y = py as i64 * ONE + ONE / 2;
        self.player.set_heading(START_ANGLE);
        self.sprites = Game::build_sprites_for_level(&self.level);
        self.total_pellets = pellet_count(&self.sprites);
        self.pellets_remaining = self.total_pellets;
        self.mode = Mode::Playing;
        self.lives = START_LIVES;
        self.invincible_time = 0;
        self.death_anim_t = 0;
        self.time = 0;
        let mut sounds: Vec<Sound> = Vec::new();
        sounds.push(Sound::Theme);
        proof {
            assert(sounds@ =~= seq![Sound::Theme]);
        }
        sounds
    }

    /// Records a key going down or up, then applies the mode's transition
    /// for a key going down.
    pub fn on_key(&mut self, key: Key, pressed: bool) -> (sounds: Vec<Sound>)
        requires
            old(self).wf(),
        ensures
            final(self).wf(),
            final(self).pressed@ == old(self).pressed@.update(key.slot(), pressed),
            match level_started(old(self).mode, key, pressed, old(self).level_index) {
                Some(i) => {
                    &&& fresh_level(*final(self), i)
                    &&& sounds@ == seq![Sound::Theme]
                },
                None => {
                    &&& *final(self) == (Game {
                        mode: mode_after_key(old(self).mode, key, pressed),
                        pressed: final(self).pressed,
                        ..*old(self)
                    })
                    &&& sounds@ == Seq::<Sound>::empty()
                },
            },
    {
        let idx = key.index();
        self.pressed.set(idx, pressed);
        let mut sounds: Vec<Sound> = Vec::new();
        match self.mode {
            Mode::Menu => {
                if pressed {
                    match key {
                        Key::Key1 => {
                            sounds = self.start_level(0);
                        },
                        Key::Key2 => {
                            sounds = self.start_level(1);
                        },
                        Key::Key3 => {
                            sounds = self.start_level(2);
                        },
                        _ => {},
                    }
                }
            },
            Mode::Win => {
                if pressed && key == Key::Return {
                    self.mode = Mode::Menu;
                }
            },
            Mode::GameOver => {
                if pressed {
                    match key {
                        Key::R => {
                            let current = self.level_index;
                            sounds = self.start_level(current);
                        },
                        Key::Return => {
                            self.mode = Mode::Menu;
                        },
                        _ => {},
                    }
                }
            },
            Mode::Paused => {
                if pressed {
                    match key {
                        Key::P => {
                            self.mode = Mode::Playing;
                        },
                        Key::Return => {
                            self.mode = Mode::Menu;
                        },
                        _ => {},
                    }
                }
            },
            Mode::Playing => {
                if pressed && key == Key::P {
                    self.mode = Mode::Paused;
                }
            },
        }
        proof {
            if level_started(old(self).mode, key, pressed, old(self).level_index) is None {
                assert(sounds@ =~= Seq::<Sound>::empty());
            }
        }
        sounds
    }

    /// Turns the camera by horizontal pointer motion while playing; rightward
    /// motion turns right.
    pub fn on_mouse_delta(&mut self, dx: i32)
        requires
            old(self).wf(),
        ensures
            final(self).wf(),
            old(self).mode == Mode::Playing ==> *final(self) == (Game {
                player: old(self).player.rotated(-dx * old(self).mouse_sensitivity),
                ..*old(self)
            }),
            old(self).mode != Mode::Playing ==> *final(self) == *old(self),
    {
        if self.mode != Mode::Playing {
            return;
        }
        proof {
            assert(-0x1000_0000_0000 <= -dx * self.mouse_sensitivity <= 0x1000_0000_0000) by (nonlinear_arith)
                requires
                    -0x8000_0000 <= dx <= 0x8000_0000,
                    0 <= self.mouse_sensitivity <= 1000,
            ;
        }
        let angle = -(dx as i64) * self.mouse_sensitivity;
        self.rotate(angle);
    }

    /// Turns the camera by `angle` angle units.
    pub fn rotate(&mut self, angle: i64)
        requires
            old(self).wf(),
            -0x4000_0000_0000_0000 <= angle <= 0x4000_0000_0000_0000,
        ensures
            final(self).wf(),
            *final(self) == (Game { player: old(self).player.rotated(angle as int), ..*old(self) }),
    {
        self.player.rotate(angle);
    }

    /// Turns and moves the player from the held keys for `dt` microseconds.
    pub fn handle_input(&mut self, dt: u32)
        requires
            old(self).wf(),
        ensures
            final(self).wf(),
            *final(self) == (Game { player: steered_player(*old(self), dt as int), ..*old(self) }),
    {
        let w_down = self.is_down(Key::W);
        let s_down = self.is_down(Key::S);
        let q_down = self.is_down(Key::Q) || self.is_down(Key::Left);
        let e_down = self.is_down(Key::E) || self.is_down(Key::Right);
        let fwd: i64 = (if w_down { 1 } else { 0 }) - (if s_down { 1 } else { 0 });
        let turn: i64 = (if q_down { 1 } else { 0 }) - (if e_down { 1 } else { 0 });
        let p = self.player;
        let step_x = travel_along(p.dir_x, p.move_speed, dt);
        let step_y = travel_along(p.dir_y, p.move_speed, dt);
        proof {
            assert(0 <= p.rot_speed * dt <= 0x1_0000_0000_0000) by (nonlinear_arith)
                requires
                    0 <= p.rot_speed <= TURN,
                    0 <= dt <= 0xffff_ffff,
            ;
            lemma_tdiv_bound(p.rot_speed * dt, 1_000_000);
        }
        let rot = div_trunc(p.rot_speed * dt as i64, 1_000_000);
        proof {
            assert(-0x10_0000_0000_0000 <= fwd * step_x <= 0x10_0000_0000_0000) by (nonlinear_arith)
                requires
                    -1 <= fwd <= 1,
                    -0x10_0000_0000_0000 <= step_x <= 0x10_0000_0000_0000,
            ;
            assert(-0x10_0000_0000_0000 <= fwd * step_y <= 0x10_0000_0000_0000) by (nonlinear_arith)
                requires
                    -1 <= fwd <= 1,
                    -0x10_0000_0000_0000 <= step_y <= 0x10_0000_0000_0000,
            ;
            assert(-0x1_0000_0000_0000 <= turn * rot <= 0x1_0000_0000_0000) by (nonlinear_arith)
                requires
                    -1 <= turn <= 1,
                    -0x1_0000_0000_0000 <= rot <= 0x1_0000_0000_0000,
            ;
        }
        if turn != 0 && rot != 0 {
            self.rotate(turn * rot);
        }
        let ghost turned = *self;
        self.try_move(fwd * step_x, fwd * step_y);
        proof {
            let sp = steered_player(*old(self), dt as int);
            assert(turned.player.x == p.x && turned.player.y == p.y);
            assert(self.player == sp);
        }
    }

    /// Advances the game by `dt` microseconds. Only play moves the
    /// simulation; a game over only advances its animation clock. The frame
    /// rate estimate is refreshed once a second in every mode.
    pub fn update(&mut self, dt: u32) -> (sounds: Vec<Sound>)
        requires
            old(self).wf(),
        ensures
            final(self).wf(),
            update_outcome(*old(self), *final(self), dt as int, sounds@),
    {
        if self.fps_count < u32::MAX {
            self.fps_count = self.fps_count + 1;
        }
        self.fps_acc = self.fps_acc + dt as i64;
        if self.fps_acc >= 1_000_000 {
            self.fps = self.fps_count as i64 * 1_000_000 / self.fps_acc;
            self.fps_acc = 0;
            self.fps_count = 0;
        }
        let ghost g = *old(self);
        let mut sounds: Vec<Sound> = Vec::new();
        match self.mode {
            Mode::Playing => {
                self.time = if self.time <= i64::MAX - dt as i64 { self.time + dt as i64 } else { i64::MAX };
                if self.invincible_time > 0 {
                    self.invincible_time = if self.invincible_time - (dt as i64) > 0 {
                        self.invincible_time - dt as i64
                    } else {
                        0
                    };
                }
                self.handle_input(dt);
                self.update_sprites(dt);
                let ghost mid = *self;
                sounds = self.check_collisions_and_pickups();
                let ghost after = *self;
                if self.pellets_remaining == 0 {
                    self.mode = Mode::Win;
                    sounds.push(Sound::Win);
                }
                proof {
                    assert(collision_outcome(mid, after));
                    assert(sounds@ =~= collision_sounds(mid, after) + if after.pellets_remaining == 0 {
                        seq![Sound::Win]
                    } else {
                        seq![]
                    });
                    assert(play_step(g, *self, dt as int, sounds@));
                }
            },
            Mode::GameOver => {
                self.death_anim_t = if self.death_anim_t <= i64::MAX - dt as i64 {
                    self.death_anim_t + dt as i64
                } else {
                    i64::MAX
                };
            },
            _ => {},
        }
        proof {
            if g.mode != Mode::Playing {
                assert(sounds@ =~= Seq::<Sound>::empty());
            }
        }
        sounds
    }

    /// Collects every pickup within pickup radius of the player in one pass,
    /// then, unless invulnerable or not playing, tests the adversaries
    /// against the hazard radius and takes a life on a hit.
    pub fn check_collisions_and_pickups(&mut self) -> (sounds: Vec<Sound>)
        requires
            old(self).wf(),
        ensures
            final(self).wf(),
            collision_outcome(*old(self), *final(self)),
            sounds@ == collision_sounds(*old(self), *final(self)),
            final(self).fps == old(self).fps,
            final(self).fps_acc == old(self).fps_acc,
            final(self).fps_count == old(self).fps_count,
            final(self).mouse_sensitivity == old(self).mouse_sensitivity,
            final(self).depth == old(self).depth,
    {
        let ghost g = *self;
        let mut sounds: Vec<Sound> = Vec::new();
        let px = self.player.x;
        let py = self.player.y;
        let n = self.sprites.len();
        let mut stay: Vec<Sprite> = Vec::new();
        let mut collected: usize = 0;
        let mut i: usize = 0;
        while i < n
            invariant
                *self == g,
                g.wf(),
                n == g.sprites@.len(),
                px == g.player.x,
                py == g.player.y,
                i <= n,
                stay@ == kept(px as int, py as int, g.sprites@.subrange(0, i as int)),
                collected == n_picked(px as int, py as int, g.sprites@.subrange(0, i as int)),
                collected <= i,
            decreases n - i,
        {
            let s = self.sprites[i];
            let dx = px - s.x;
            let dy = py - s.y;
            proof {
                assert(g.sprites@.subrange(0, i as int + 1).drop_last() =~= g.sprites@.subrange(
                    0,
                    i as int,
                ));
                assert(on_grid(g.level, s.x as int, s.y as int));
                assert(0 <= dx * dx < 0x1000_0000_0000_0000) by (nonlinear_arith)
                    requires
                        -0x4000_0000 < dx < 0x4000_0000,
                ;
                assert(0 <= dy * dy < 0x1000_0000_0000_0000) by (nonlinear_arith)
                    requires
                        -0x4000_0000 < dy < 0x4000_0000,
                ;
                lemma_kept_count(px as int, py as int, g.sprites@.subrange(0, i as int));
            }
            let d2 = dx * dx + dy * dy;
            if s.kind == SpriteKind::Pellet && d2 < PICKUP_R2 {
                collected = collected + 1;
            } else {
                stay.push(s);
            }
            i = i + 1;
        }
        proof {
            assert(g.sprites@.subrange(0, n as int) =~= g.sprites@);
            lemma_kept_count(px as int, py as int, g.sprites@);
            lemma_kept_ok(g.level, px as int, py as int, g.sprites@);
        }
        self.sprites = stay;
        if collected > 0 {
            if self.pellets_remaining >= collected {
                self.pellets_remaining = self.pellets_remaining - collected;
            } else {
                self.pellets_remaining = 0;
            }
            sounds.push(Sound::Pellet);
        }
        if self.invincible_time <= 0 && self.mode == Mode::Playing {
            let hit = hazard_near(&self.sprites, &self.level, px, py);
            if hit {
                self.lives = self.lives - 1;
                sounds.push(Sound::Hit);
                if self.lives > 0 {
                    let (sx, sy) = self.level.spawn;
                    self.player.x = sx as i64 * ONE + ONE / 2;
                    self.player.y = sy as i64 * ONE + ONE / 2;
                    self.invincible_time = HIT_COOLDOWN;
                } else {
                    self.mode = Mode::GameOver;
                    self.death_anim_t = 0;
                    sounds.push(Sound::GameOver);
                }
            }
        }
        proof {
            assert(sounds@ =~= collision_sounds(g, *self));
        }
        sounds
    }
}

} // verus!
