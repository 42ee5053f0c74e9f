use vstd::prelude::*;
use vstd::arithmetic::div_mod::lemma_fundamental_div_mod_converse;
use crate::fixed::ONE;
use crate::game::{count_pellets, sprites_ok, Game};
use crate::level::{lemma_cell_index, Level, MAX_DIM};
use crate::player::{cell_center, on_grid};
use crate::rng::random_in;
use crate::sprites::{Sprite, SpriteKind};

verus! {

/// Placement attempts per adversary.
pub const PLACE_TRIES: usize = 200;

/// A fresh entity of a kind at the center of a cell.
pub open spec fn sprite_at(x: int, y: int, kind: SpriteKind) -> Sprite {
    Sprite {
        x: cell_center(x) as i64,
        y: cell_center(y) as i64,
        kind,
        anim_frame: 0,
        anim_time: 0,
    }
}

/// Open cells, other than the spawn cell, on the fixed pickup pattern.
pub open spec fn pattern_cell(level: Level, x: int, y: int) -> bool {
    &&& level.tile_at(x, y) == 0
    &&& (x, y) != (level.spawn.0 as int, level.spawn.1 as int)
    &&& (x + y * 3) % 6 == 0
}

/// The pickups on pattern cells among the first `n` cells in row-major order.
pub open spec fn pattern_upto(level: Level, n: int) -> Seq<Sprite>
    decreases n,
{
    if n <= 0 || level.w <= 0 {
        seq![]
    } else {
        let prev = pattern_upto(level, n - 1);
        let x = (n - 1) % (level.w as int);
        let y = (n - 1) / (level.w as int);
        if pattern_cell(level, x, y) {
            prev.push(sprite_at(x, y, SpriteKind::Pellet))
        } else {
            prev
        }
    }
}

/// Open interior cells other than the spawn cell.
pub open spec fn free_cell(level: Level, x: int, y: int) -> bool {
    &&& 1 <= x < level.w - 1
    &&& 1 <= y < level.h - 1
    &&& level.tile_at(x, y) == 0
    &&& (x, y) != (level.spawn.0 as int, level.spawn.1 as int)
}

/// The first free cell in row-major order.
pub open spec fn first_free(level: Level, x: int, y: int) -> bool {
    &&& free_cell(level, x, y)
    &&& forall|x2: int, y2: int|
        #[trigger] free_cell(level, x2, y2) ==> y2 > y || (y2 == y && x2 >= x)
}

/// The pickups a level starts with: the pattern cells, or, when there are
/// none, one pickup on the first free cell (if the level has one).
pub open spec fn pellet_layout(level: Level) -> Seq<Sprite> {
    let pat = pattern_upto(level, level.w * level.h);
    if pat.len() > 0 {
        pat
    } else if exists|x: int, y: int| first_free(level, x, y) {
        let c = choose|c: (int, int)| first_free(level, c.0, c.1);
        seq![sprite_at(c.0, c.1, SpriteKind::Pellet)]
    } else {
        seq![]
    }
}

/// Open interior cells, where adversaries may be placed.
pub open spec fn ghost_cell(level: Level, x: int, y: int) -> bool {
    1 <= x < level.w - 1 && 1 <= y < level.h - 1 && level.tile_at(x, y) == 0
}

proof fn lemma_first_free_unique(level: Level, x1: int, y1: int, x2: int, y2: int)
    requires
        first_free(level, x1, y1),
        first_free(level, x2, y2),
    ensures
        x1 == x2 && y1 == y2,
{
    assert(free_cell(level, x2, y2));
    assert(free_cell(level, x1, y1));
}

proof fn lemma_all_pellets(s: Seq<Sprite>)
    requires
        forall|i: int| 0 <= i < s.len() ==> (#[trigger] s[i]).kind == SpriteKind::Pellet,
    ensures
        count_pellets(s) == s.len(),
    decreases s.len(),
{
    if s.len() > 0 {
        lemma_all_pellets(s.drop_last());
    }
}

proof fn lemma_grid_size(w: int, h: int)
    requires
        1 <= w <= MAX_DIM,
        1 <= h <= MAX_DIM,
    ensures
        1 <= w * h <= 0x1000_0000,
{
    assert(1 <= w * h <= 0x1000_0000) by (nonlinear_arith)
        requires
            1 <= w <= 16384,
            1 <= h <= 16384,
    ;
}

/// The pickups on the pattern cells of a level, in row-major order.
fn pellet_pattern(level: &Level) -> (r: Vec<Sprite>)
    requires
        level.wf(),
    ensures
        r@ == pattern_upto(*level, level.w * level.h),
        r@.len() <= level.w * level.h,
        forall|i: int| 0 <= i < r@.len() ==> (#[trigger] r@[i]).kind == SpriteKind::Pellet,
        sprites_ok(*level, r@),
{
    let mut sprites: Vec<Sprite> = Vec::new();
    let w = level.w;
    let h = level.h;
    proof {
        lemma_grid_size(w as int, h as int);
    }
    let mut y: i32 = 0;
    while y < h
        invariant
            level.wf(),
            w == level.w,
            h == level.h,
            w * h <= 0x1000_0000,
            0 <= y <= h,
            sprites@ == pattern_upto(*level, y * w),
            sprites@.len() <= y * w,
            forall|i: int| 0 <= i < sprites@.len() ==> (#[trigger] sprites@[i]).kind == SpriteKind::Pellet,
            sprites_ok(*level, sprites@),
        decreases h - y,
    {
        let mut x: i32 = 0;
        while x < w
            invariant
                level.wf(),
                w == level.w,
                h == level.h,
                w * h <= 0x1000_0000,
                0 <= y < h,
                0 <= x <= w,
                sprites@ == pattern_upto(*level, y * w + x),
                sprites@.len() <= y * w + x,
                forall|i: int| 0 <= i < sprites@.len() ==> (#[trigger] sprites@[i]).kind == SpriteKind::Pellet,
                sprites_ok(*level, sprites@),
            decreases w - x,
        {
            proof {
                lemma_cell_index(w as int, h as int, x as int, y as int);
                lemma_fundamental_div_mod_converse(y * w + x, w as int, y as int, x as int);
            }
            let idx = (y as usize) * (w as usize) + x as usize;
            if level.map[idx] == 0 && !(x == level.spawn.0 && y == level.spawn.1) && (x + y * 3) % 6 == 0 {
                let s = Sprite::new(x as i64 * ONE + ONE / 2, y as i64 * ONE + ONE / 2, SpriteKind::Pellet);
                let ghost before = sprites@;
                sprites.push(s);
                proof {
                    assert(sprites@ == before.push(s));
                    assert forall|i: int| 0 <= i < sprites@.len() implies on_grid(
                        *level,
                        (#[trigger] sprites@[i]).x as int,
                        sprites@[i].y as int,
                    ) && 0 <= sprites@[i].anim_time <= 500_000 && sprites@[i].anim_frame < 2 by {
                        if i < before.len() {
                            assert(sprites@[i] == before[i]);
                        }
                    }
                }
            }
            x = x + 1;
        }
        assert((y + 1) * w == y * w + w) by (nonlinear_arith);
        y = y + 1;
    }
    assert(h * w == w * h) by (nonlinear_arith);
    sprites
}

/// The first free cell in row-major order, if the level has one.
fn first_free_cell(level: &Level) -> (r: Option<(i32, i32)>)
    requires
        level.wf(),
    ensures
        r matches Some(c) ==> first_free(*level, c.0 as int, c.1 as int),
        r is None ==> forall|x: int, y: int| !free_cell(*level, x, y),
{
    let w = level.w;
    let h = level.h;
    let mut y: i32 = 1;
    while y < h - 1
        invariant
            level.wf(),
            w == level.w,
            h == level.h,
            1 <= y,
            y <= h - 1 || h <= 2,
            forall|x2: int, y2: int| #[trigger] free_cell(*level, x2, y2) ==> y2 >= y,
        decreases h - y,
    {
        let mut x: i32 = 1;
        while x < w - 1
            invariant
                level.wf(),
                w == level.w,
                h == level.h,
                1 <= y < h - 1,
                1 <= x,
                x <= w - 1 || w <= 2,
                forall|x2: int, y2: int|
                    #[trigger] free_cell(*level, x2, y2) ==> y2 > y || (y2 == y && x2 >= x),
            decreases w - x,
        {
            if level.tile(x, y) == 0 && !(x == level.spawn.0 && y == level.spawn.1) {
                return Some((x, y));
            }
            x = x + 1;
        }
        y = y + 1;
    }
    None
}

/// The adversary a drawn cell gets: one at its center when the cell is open,
/// none when it is a wall.
pub fn try_place(level: &Level, gx: i32, gy: i32) -> (r: Option<Sprite>)
    requires
        level.wf(),
        1 <= gx < level.w - 1,
        1 <= gy < level.h - 1,
    ensures
        level.tile_at(gx as int, gy as int) == 0 ==> r == Some(sprite_at(gx as int, gy as int, SpriteKind::Adversary)),
        level.tile_at(gx as int, gy as int) != 0 ==> r is None,
{
    if level.tile(gx, gy) == 0 {
        Some(Sprite::new(gx as i64 * ONE + ONE / 2, gy as i64 * ONE + ONE / 2, SpriteKind::Adversary))
    } else {
        None
    }
}

/// Places up to `ghost_count` adversaries on random open interior cells,
/// with a bounded number of attempts each.
fn place_adversaries(level: &Level, sprites: &mut Vec<Sprite>)
    requires
        level.wf(),
        sprites_ok(*level, old(sprites)@),
        old(sprites)@.len() <= level.w * level.h,
    ensures
        old(sprites)@.len() <= final(sprites)@.len() <= old(sprites)@.len() + level.ghost_count,
        final(sprites)@.subrange(0, old(sprites)@.len() as int) == old(sprites)@,
        forall|i: int|
            old(sprites)@.len() <= i < final(sprites)@.len() ==> exists|x: int, y: int|
                ghost_cell(*level, x, y) && #[trigger] final(sprites)@[i] == sprite_at(
                    x,
                    y,
                    SpriteKind::Adversary,
                ),
        sprites_ok(*level, final(sprites)@),
{
    let ghost start = sprites@;
    let w = level.w;
    let h = level.h;
    proof {
        lemma_grid_size(w as int, h as int);
    }
    if w < 3 || h < 3 {
        assert(sprites@.subrange(0, start.len() as int) =~= start);
        return;
    }
    let mut k: usize = 0;
    while k < level.ghost_count
        invariant
            level.wf(),
            w == level.w,
            h == level.h,
            w >= 3 && h >= 3,
            w * h <= 0x1000_0000,
            k <= level.ghost_count,
            start.len() <= w * h,
            start.len() <= sprites@.len(),
            sprites@.len() <= start.len() + k,
            sprites@.subrange(0, start.len() as int) == start,
            forall|i: int|
                start.len() <= i < sprites@.len() ==> exists|x: int, y: int|
                    ghost_cell(*level, x, y) && #[trigger] sprites@[i] == sprite_at(
                        x,
                        y,
                        SpriteKind::Adversary,
                    ),
            sprites_ok(*level, sprites@),
        decreases level.ghost_count - k,
    {
        let mut tries: usize = 0;
        let mut placed = false;
        while tries < PLACE_TRIES && !placed
            invariant
                level.wf(),
                w == level.w,
                h == level.h,
                w >= 3 && h >= 3,
                w * h <= 0x1000_0000,
                k < level.ghost_count,
                start.len() <= w * h,
                start.len() <= sprites@.len(),
                sprites@.len() <= start.len() + k + if placed { 1int } else { 0int },
                sprites@.subrange(0, start.len() as int) == start,
                forall|i: int|
                    start.len() <= i < sprites@.len() ==> exists|x: int, y: int|
                        ghost_cell(*level, x, y) && #[trigger] sprites@[i] == sprite_at(
                            x,
                            y,
                            SpriteKind::Adversary,
                        ),
                sprites_ok(*level, sprites@),
            decreases PLACE_TRIES - tries,
        {
            let gx = random_in(1, w as i64 - 1) as i32;
            let gy = random_in(1, h as i64 - 1) as i32;
            if let Some(s) = try_place(level, gx, gy) {
                let ghost before = sprites@;
                sprites.push(s);
                proof {
                    assert(sprites@ == before.push(s));
                    assert(sprites@.subrange(0, start.len() as int) =~= before.subrange(0, start.len() as int));
                    assert(s == sprite_at(gx as int, gy as int, SpriteKind::Adversary));
                    assert forall|i: int| start.len() <= i < sprites@.len() implies exists|x: int, y: int|
                        ghost_cell(*level, x, y) && #[trigger] sprites@[i] == sprite_at(
                            x,
                            y,
                            SpriteKind::Adversary,
                        ) by {
                        if i < before.len() {
                            assert(sprites@[i] == before[i]);
                        } else {
                            assert(ghost_cell(*level, gx as int, gy as int));
                        }
                    }
                    assert forall|i: int| 0 <= i < sprites@.len() implies on_grid(
                        *level,
                        (#[trigger] sprites@[i]).x as int,
                        sprites@[i].y as int,
                    ) && 0 <= sprites@[i].anim_time <= 500_000 && sprites@[i].anim_frame < 2 by {
                        if i < before.len() {
                            assert(sprites@[i] == before[i]);
                        }
                    }
                }
                placed = true;
            }
            tries = tries + 1;
        }
        k = k + 1;
    }
}

/// Pickups followed by adversaries count as many pickups as the prefix holds.
proof fn lemma_count_prefix(s: Seq<Sprite>, n: int)
    requires
        0 <= n <= s.len(),
        forall|i: int| 0 <= i < n ==> (#[trigger] s[i]).kind == SpriteKind::Pellet,
        forall|i: int| n <= i < s.len() ==> (#[trigger] s[i]).kind == SpriteKind::Adversary,
    ensures
        count_pellets(s) == n,
    decreases s.len(),
{
    if s.len() > n {
        lemma_count_prefix(s.drop_last(), n);
    } else {
        lemma_all_pellets(s);
    }
}

impl Game {
    /// The entities a level starts with: the pickups of `pellet_layout`, in
    /// order, then up to `ghost_count` adversaries on open interior cells.
    pub fn build_sprites_for_level(level: &Level) -> (r: Vec<Sprite>)
        requires
            level.wf(),
        ensures
            ({
                let n = pellet_layout(*level).len() as int;
                &&& n <= r@.len() <= n + level.ghost_count
                &&& r@.subrange(0, n) == pellet_layout(*level)
                &&& forall|i: int|
                    n <= i < r@.len() ==> exists|x: int, y: int|
                        ghost_cell(*level, x, y) && #[trigger] r@[i] == sprite_at(
                            x,
                            y,
                            SpriteKind::Adversary,
                        )
                &&& count_pellets(r@) == n
            }),
            sprites_ok(*level, r@),
    {
        let mut sprites = pellet_pattern(level);
        if sprites.len() == 0 {
            match first_free_cell(level) {
                Some((x, y)) => {
                    sprites.push(Sprite::new(x as i64 * ONE + ONE / 2, y as i64 * ONE + ONE / 2, SpriteKind::Pellet));
                    proof {
                        lemma_grid_size(level.w as int, level.h as int);
                        assert(sprites@.len() == 1);
                        assert(on_grid(*level, sprites@[0].x as int, sprites@[0].y as int));
                        let c = choose|c: (int, int)| first_free(*level, c.0, c.1);
                        lemma_first_free_unique(*level, c.0, c.1, x as int, y as int);
                        assert(sprites@ =~= pellet_layout(*level));
                    }
                },
                None => {
                    proof {
                        assert forall|x: int, y: int| !first_free(*level, x, y) by {
                            assert(!free_cell(*level, x, y));
                        }
                        assert(sprites@ =~= pellet_layout(*level));
                    }
                },
            }
        }
        let ghost layout = sprites@;
        proof {
            lemma_grid_size(level.w as int, level.h as int);
            assert(layout == pellet_layout(*level));
            assert(forall|i: int| 0 <= i < layout.len() ==> (#[trigger] layout[i]).kind == SpriteKind::Pellet);
        }
        place_adversaries(level, &mut sprites);
        proof {
            let n = layout.len() as int;
            assert forall|i: int| 0 <= i < n implies (#[trigger] sprites@[i]).kind == SpriteKind::Pellet by {
                assert(sprites@[i] == sprites@.subrange(0, n)[i]);
            }
            assert forall|i: int| n <= i < sprites@.len() implies (#[trigger] sprites@[i]).kind == SpriteKind::Adversary by {
                let (x, y) = choose|x: int, y: int| ghost_cell(*level, x, y) && sprites@[i] == sprite_at(x, y, SpriteKind::Adversary);
            }
            lemma_count_prefix(sprites@, n);
        }
        sprites
    }
}

} // verus!
