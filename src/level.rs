use vstd::prelude::*;

verus! {

/// Largest width or height of a level, in tiles. It keeps every fixed-point
/// coordinate inside a level, and the square of any difference of two of
/// them, within `i64`.
pub const MAX_DIM: i32 = 16384;

/// Largest number of adversaries a level may ask for.
pub const MAX_GHOSTS: usize = 4096;

/// A rectangular tile grid: `0` is open floor, a positive id is a wall.
pub struct Level {
    pub w: i32,
    pub h: i32,
    pub map: Vec<i32>,
    pub spawn: (i32, i32),
    pub ghost_count: usize,
}

impl Level {
    pub open spec fn wf(&self) -> bool {
        &&& 1 <= self.w <= MAX_DIM
        &&& 1 <= self.h <= MAX_DIM
        &&& self.map@.len() == self.w * self.h
        &&& 0 <= self.spawn.0 < self.w
        &&& 0 <= self.spawn.1 < self.h
        &&& self.ghost_count <= MAX_GHOSTS
    }

    pub open spec fn in_grid(&self, x: int, y: int) -> bool {
        0 <= x < self.w && 0 <= y < self.h
    }

    /// The tile id at a cell; every cell outside the grid reads as wall `1`.
    pub open spec fn tile_at(&self, x: int, y: int) -> int {
        if self.in_grid(x, y) {
            self.map@[y * self.w + x] as int
        } else {
            1
        }
    }

    pub fn tile(&self, x: i32, y: i32) -> (r: i32)
        requires
            self.wf(),
        ensures
            r == self.tile_at(x as int, y as int),
            !self.in_grid(x as int, y as int) ==> r == 1,
    {
        if x < 0 || y < 0 || x >= self.w || y >= self.h {
            1
        } else {
            let n = self.map.len();
            proof {
                lemma_cell_index(self.w as int, self.h as int, x as int, y as int);
            }
            let idx = y as usize * self.w as usize + x as usize;
            self.map[idx]
        }
    }
}

/// The row-major index of a cell lies inside the grid's storage.
pub proof fn lemma_cell_index(w: int, h: int, x: int, y: int)
    requires
        0 <= x < w,
        0 <= y < h,
    ensures
        0 <= y * w + x < w * h,
{
    assert(y * w + x < w * h) by (nonlinear_arith)
        requires
            0 <= x < w,
            0 <= y < h,
    ;
    assert(0 <= y * w) by (nonlinear_arith)
        requires
            0 <= y,
            0 <= w,
    ;
}

/// The size, spawn cell and adversary count of catalog level `idx`.
pub open spec fn catalog_shape(idx: usize, r: Level) -> bool {
    &&& idx == 0 ==> r.w == 24 && r.h == 16 && r.spawn == (2i32, 2i32) && r.ghost_count == 3
    &&& idx == 1 ==> r.w == 28 && r.h == 18 && r.spawn == (1i32, 1i32) && r.ghost_count == 5
    &&& idx >= 2 ==> r.w == 32 && r.h == 20 && r.spawn == (2i32, 2i32) && r.ghost_count == 7
}

/// A level by index: `0` and `1` pick the first two, anything else the last.
pub fn get_level(idx: usize) -> (r: Level)
    ensures
        r.wf(),
        catalog_shape(idx, r),
        catalog_tiles(idx, r),
        well_built(r),
{
    match idx {
        0 => level1(),
        1 => level2(),
        _ => level3(),
    }
}

/// `n` open tiles.
fn open_grid(n: usize) -> (r: Vec<i32>)
    ensures
        r@.len() == n,
        forall|i: int| 0 <= i < n ==> r@[i] == 0,
{
    let mut map: Vec<i32> = Vec::new();
    let mut i: usize = 0;
    while i < n
        invariant
            i <= n,
            map@.len() == i,
            forall|k: int| 0 <= k < i ==> map@[k] == 0,
        decreases n - i,
    {
        map.push(0);
        i = i + 1;
    }
    map
}

/// Row-major index of cell `(x, y)` in a grid `w` wide.
pub open spec fn cell(w: int, x: int, y: int) -> int {
    y * w + x
}

/// Tiles of the first level while it is built: the ring (rows 0 and 15
/// written for `x < a`, columns 0 and 23 for `y < b`), the inner row 5 for
/// `3 <= x < c` and the inner columns 8 and 15 for `3 <= y < d`.
pub open spec fn level1_at(x: int, y: int, a: int, b: int, c: int, d: int) -> int {
    if ((y == 0 || y == 15) && x < a) || ((x == 0 || x == 23) && y < b) {
        1
    } else if x == 8 && 3 <= y < d {
        4
    } else if x == 15 && 3 <= y < d {
        5
    } else if y == 5 && 3 <= x < c {
        if x % 2 == 0 { 2 } else { 3 }
    } else {
        0
    }
}

/// The tiles of the first level.
pub open spec fn level1_tile(x: int, y: int) -> int {
    level1_at(x, y, 24, 16, 21, 13)
}

/// Tiles of the second level while it is built: the ring (id 2), broken
/// wall rows on even rows `2..16` (written up to row `cy`, and in row `cy`
/// up to column `cx`), then broken wall columns on odd columns `3..25`
/// (written up to column `dx`, and in column `dx` up to row `dy`).
pub open spec fn level2_at(x: int, y: int, a: int, b: int, cy: int, cx: int, dx: int, dy: int) -> int {
    if ((y == 0 || y == 17) && x < a) || ((x == 0 || x == 27) && y < b) {
        2
    } else if x % 2 == 1 && 3 <= x < 25 && 3 <= y < 15 && y % 3 != 0 && (x < dx || (x == dx && y < dy)) {
        5
    } else if y % 2 == 0 && 2 <= y < 16 && 2 <= x < 26 && x % 4 != 0 && (y < cy || (y == cy && x < cx)) {
        if (x + y) % 3 == 0 { 3 } else { 4 }
    } else {
        0
    }
}

/// The tiles of the second level.
pub open spec fn level2_tile(x: int, y: int) -> int {
    level2_at(x, y, 28, 18, 16, 0, 25, 0)
}

/// Tiles of the third level while it is built: the ring (id 3), wall blocks
/// on a checkerboard inside (written up to row `cy`, and in row `cy` up to
/// column `cx`), the wall row 10 for `4 <= x < d`, the wall columns 10 and 21
/// for `4 <= y < e`, and the spawn cell `(2, 2)` open once `open` holds.
pub open spec fn level3_at(x: int, y: int, a: int, b: int, cy: int, cx: int, d: int, e: int, open: bool) -> int {
    if ((y == 0 || y == 19) && x < a) || ((x == 0 || x == 31) && y < b) {
        3
    } else if open && x == 2 && y == 2 {
        0
    } else if (x == 10 || x == 21) && 4 <= y < e {
        2
    } else if y == 10 && 4 <= x < d {
        1
    } else if 2 <= y < 18 && 2 <= x < 30 && (x + y) % 2 == 0 && x % 6 != 0 && (y < cy || (y == cy && x < cx)) {
        if x % 3 == 0 { 4 } else { 5 }
    } else {
        0
    }
}

/// The tiles of the third level.
pub open spec fn level3_tile(x: int, y: int) -> int {
    level3_at(x, y, 32, 20, 18, 0, 28, 16, true)
}

/// The tiles of catalog level `idx`.
pub open spec fn catalog_tile(idx: usize, x: int, y: int) -> int {
    if idx == 0 {
        level1_tile(x, y)
    } else if idx == 1 {
        level2_tile(x, y)
    } else {
        level3_tile(x, y)
    }
}

/// A level's tiles are those of catalog level `idx`.
pub open spec fn catalog_tiles(idx: usize, r: Level) -> bool {
    forall|x: int, y: int| r.in_grid(x, y) ==> #[trigger] r.tile_at(x, y) == catalog_tile(idx, x, y)
}

/// Every tile is open or a wall id, every border cell is a wall, and the
/// spawn cell is open.
pub open spec fn well_built(r: Level) -> bool {
    &&& forall|x: int, y: int| r.in_grid(x, y) ==> #[trigger] r.tile_at(x, y) >= 0
    &&& forall|x: int, y: int|
        r.in_grid(x, y) && (x == 0 || y == 0 || x == r.w - 1 || y == r.h - 1) ==> #[trigger] r.tile_at(x, y)
            > 0
    &&& r.tile_at(r.spawn.0 as int, r.spawn.1 as int) == 0
}

/// A small level: a wall ring, one inner row of walls and two inner columns.
pub fn level1() -> (r: Level)
    ensures
        r.wf(),
        r.w == 24 && r.h == 16,
        r.spawn == (2i32, 2i32),
        r.ghost_count == 3,
        catalog_tiles(0, r),
        well_built(r),
{
    let w: i32 = 24;
    let h: i32 = 16;
    let mut map = open_grid(384);
    let mut x: i32 = 0;
    while x < w
        invariant
            0 <= x <= w,
            map@.len() == 384,
            forall|cx: int, cy: int|
                0 <= cx < 24 && 0 <= cy < 16 ==> #[trigger] map@[cell(24, cx, cy)] == level1_at(cx, cy, x as int, 0, 3, 3),
            w == 24,
            h == 16,
        decreases w - x,
    {
        map.set(x as usize, 1);
        map.set(((h - 1) * w + x) as usize, 1);
        x = x + 1;
    }
    let mut y: i32 = 0;
    while y < h
        invariant
            0 <= y <= h,
            map@.len() == 384,
            forall|cx: int, cy: int|
                0 <= cx < 24 && 0 <= cy < 16 ==> #[trigger] map@[cell(24, cx, cy)] == level1_at(cx, cy, 24, y as int, 3, 3),
            w == 24,
            h == 16,
        decreases h - y,
    {
        map.set((y * w) as usize, 1);
        map.set((y * w + (w - 1)) as usize, 1);
        y = y + 1;
    }
    let mut x: i32 = 3;
    while x < w - 3
        invariant
            3 <= x <= w - 3,
            map@.len() == 384,
            forall|cx: int, cy: int|
                0 <= cx < 24 && 0 <= cy < 16 ==> #[trigger] map@[cell(24, cx, cy)] == level1_at(cx, cy, 24, 16, x as int, 3),
            w == 24,
            h == 16,
        decreases w - 3 - x,
    {
        let id: i32 = if x % 2 == 0 { 2 } else { 3 };
        map.set((5 * w + x) as usize, id);
        x = x + 1;
    }
    let mut y: i32 = 3;
    while y < h - 3
        invariant
            3 <= y <= h - 3,
            map@.len() == 384,
            forall|cx: int, cy: int|
                0 <= cx < 24 && 0 <= cy < 16 ==> #[trigger] map@[cell(24, cx, cy)] == level1_at(cx, cy, 24, 16, 21, y as int),
            w == 24,
            h == 16,
        decreases h - 3 - y,
    {
        map.set((y * w + 8) as usize, 4);
        map.set((y * w + 15) as usize, 5);
        y = y + 1;
    }
    let r = Level { w, h, map, spawn: (2, 2), ghost_count: 3 };
    proof {
        lemma_tiles_of(r, 0);
    }
    r
}

/// A medium maze: a wall ring, broken wall rows on every other line and
/// broken wall columns on every other column.
pub fn level2() -> (r: Level)
    ensures
        r.wf(),
        r.w == 28 && r.h == 18,
        r.spawn == (1i32, 1i32),
        r.ghost_count == 5,
        catalog_tiles(1, r),
        well_built(r),
{
    let w: i32 = 28;
    let h: i32 = 18;
    let mut map = open_grid(504);
    let mut x: i32 = 0;
    while x < w
        invariant
            0 <= x <= w,
            w == 28,
            h == 18,
            map@.len() == 504,
            forall|cx: int, cy: int|
                0 <= cx < 28 && 0 <= cy < 18 ==> #[trigger] map@[cell(28, cx, cy)] == level2_at(
                    cx,
                    cy,
                    x as int,
                    0,
                    2,
                    0,
                    3,
                    0,
                ),
        decreases w - x,
    {
        map.set(x as usize, 2);
        map.set(((h - 1) * w + x) as usize, 2);
        x = x + 1;
    }
    let mut y: i32 = 0;
    while y < h
        invariant
            0 <= y <= h,
            w == 28,
            h == 18,
            map@.len() == 504,
            forall|cx: int, cy: int|
                0 <= cx < 28 && 0 <= cy < 18 ==> #[trigger] map@[cell(28, cx, cy)] == level2_at(
                    cx,
                    cy,
                    28,
                    y as int,
                    2,
                    0,
                    3,
                    0,
                ),
        decreases h - y,
    {
        map.set((y * w) as usize, 2);
        map.set((y * w + (w - 1)) as usize, 2);
        y = y + 1;
    }
    let mut y: i32 = 2;
    while y < h - 2
        invariant
            2 <= y <= h,
            y % 2 == 0,
            w == 28,
            h == 18,
            map@.len() == 504,
            forall|cx: int, cy: int|
                0 <= cx < 28 && 0 <= cy < 18 ==> #[trigger] map@[cell(28, cx, cy)] == level2_at(
                    cx,
                    cy,
                    28,
                    18,
                    y as int,
                    0,
                    3,
                    0,
                ),
        decreases h - y,
    {
        let mut x: i32 = 2;
        while x < w - 2
            invariant
                2 <= x <= w - 2,
                2 <= y < h - 2,
                y % 2 == 0,
                w == 28,
                h == 18,
                map@.len() == 504,
                forall|cx: int, cy: int|
                    0 <= cx < 28 && 0 <= cy < 18 ==> #[trigger] map@[cell(28, cx, cy)] == level2_at(
                        cx,
                        cy,
                        28,
                        18,
                        y as int,
                        x as int,
                        3,
                        0,
                    ),
            decreases w - x,
        {
            if x % 4 != 0 {
                let id: i32 = if (x + y) % 3 == 0 { 3 } else { 4 };
                map.set((y * w + x) as usize, id);
            }
            x = x + 1;
        }
        y = y + 2;
    }
    let mut x: i32 = 3;
    while x < w - 3
        invariant
            3 <= x <= w,
            x % 2 == 1,
            w == 28,
            h == 18,
            map@.len() == 504,
            forall|cx: int, cy: int|
                0 <= cx < 28 && 0 <= cy < 18 ==> #[trigger] map@[cell(28, cx, cy)] == level2_at(
                    cx,
                    cy,
                    28,
                    18,
                    16,
                    0,
                    x as int,
                    0,
                ),
        decreases w - x,
    {
        let mut y: i32 = 3;
        while y < h - 3
            invariant
                3 <= y <= h - 3,
                3 <= x < w - 3,
                x % 2 == 1,
                w == 28,
                h == 18,
                map@.len() == 504,
                forall|cx: int, cy: int|
                    0 <= cx < 28 && 0 <= cy < 18 ==> #[trigger] map@[cell(28, cx, cy)] == level2_at(
                        cx,
                        cy,
                        28,
                        18,
                        16,
                        0,
                        x as int,
                        y as int,
                    ),
            decreases h - y,
        {
            if y % 3 != 0 {
                map.set((y * w + x) as usize, 5);
            }
            y = y + 1;
        }
        x = x + 2;
    }
    let r = Level { w, h, map, spawn: (1, 1), ghost_count: 5 };
    proof {
        lemma_tiles_of(r, 1);
    }
    r
}

/// A large dense level: a wall ring, a checkerboard of wall blocks, one
/// crossing wall row and two wall columns; the spawn cell stays open.
pub fn level3() -> (r: Level)
    ensures
        r.wf(),
        r.w == 32 && r.h == 20,
        r.spawn == (2i32, 2i32),
        r.ghost_count == 7,
        catalog_tiles(2, r),
        well_built(r),
{
    let w: i32 = 32;
    let h: i32 = 20;
    let mut map = open_grid(640);
    let mut x: i32 = 0;
    while x < w
        invariant
            0 <= x <= w,
            w == 32,
            h == 20,
            map@.len() == 640,
            forall|cx: int, cy: int|
                0 <= cx < 32 && 0 <= cy < 20 ==> #[trigger] map@[cell(32, cx, cy)] == level3_at(
                    cx,
                    cy,
                    x as int,
                    0,
                    2,
                    0,
                    4,
                    4,
                    false,
                ),
        decreases w - x,
    {
        map.set(x as usize, 3);
        map.set(((h - 1) * w + x) as usize, 3);
        x = x + 1;
    }
    let mut y: i32 = 0;
    while y < h
        invariant
            0 <= y <= h,
            w == 32,
            h == 20,
            map@.len() == 640,
            forall|cx: int, cy: int|
                0 <= cx < 32 && 0 <= cy < 20 ==> #[trigger] map@[cell(32, cx, cy)] == level3_at(
                    cx,
                    cy,
                    32,
                    y as int,
                    2,
                    0,
                    4,
                    4,
                    false,
                ),
        decreases h - y,
    {
        map.set((y * w) as usize, 3);
        map.set((y * w + (w - 1)) as usize, 3);
        y = y + 1;
    }
    let mut y: i32 = 2;
    while y < h - 2
        invariant
            2 <= y <= h - 2,
            w == 32,
            h == 20,
            map@.len() == 640,
            forall|cx: int, cy: int|
                0 <= cx < 32 && 0 <= cy < 20 ==> #[trigger] map@[cell(32, cx, cy)] == level3_at(
                    cx,
                    cy,
                    32,
                    20,
                    y as int,
                    0,
                    4,
                    4,
                    false,
                ),
        decreases h - y,
    {
        let mut x: i32 = 2;
        while x < w - 2
            invariant
                2 <= x <= w - 2,
                2 <= y < h - 2,
                w == 32,
                h == 20,
                map@.len() == 640,
                forall|cx: int, cy: int|
                    0 <= cx < 32 && 0 <= cy < 20 ==> #[trigger] map@[cell(32, cx, cy)] == level3_at(
                        cx,
                        cy,
                        32,
                        20,
                        y as int,
                        x as int,
                        4,
                        4,
                        false,
                    ),
            decreases w - x,
        {
            if (x + y) % 2 == 0 && x % 6 != 0 {
                let id: i32 = if x % 3 == 0 { 4 } else { 5 };
                map.set((y * w + x) as usize, id);
            }
            x = x + 1;
        }
        y = y + 1;
    }
    let mut x: i32 = 4;
    while x < w - 4
        invariant
            4 <= x <= w - 4,
            w == 32,
            h == 20,
            map@.len() == 640,
            forall|cx: int, cy: int|
                0 <= cx < 32 && 0 <= cy < 20 ==> #[trigger] map@[cell(32, cx, cy)] == level3_at(
                    cx,
                    cy,
                    32,
                    20,
                    18,
                    0,
                    x as int,
                    4,
                    false,
                ),
        decreases w - x,
    {
        map.set(((h / 2) * w + x) as usize, 1);
        x = x + 1;
    }
    let mut y: i32 = 4;
    while y < h - 4
        invariant
            4 <= y <= h - 4,
            w == 32,
            h == 20,
            map@.len() == 640,
            forall|cx: int, cy: int|
                0 <= cx < 32 && 0 <= cy < 20 ==> #[trigger] map@[cell(32, cx, cy)] == level3_at(
                    cx,
                    cy,
                    32,
                    20,
                    18,
                    0,
                    28,
                    y as int,
                    false,
                ),
        decreases h - y,
    {
        map.set((y * w + w / 3) as usize, 2);
        map.set((y * w + 2 * w / 3) as usize, 2);
        y = y + 1;
    }
    // The spawn cell lies on the checkerboard; it is kept open.
    map.set((2 * w + 2) as usize, 0);
    let r = Level { w, h, map, spawn: (2, 2), ghost_count: 7 };
    proof {
        lemma_tiles_of(r, 2);
    }
    r
}

/// Tiles given by the catalog formula are the level's tiles, and they make
/// a well-built level.
proof fn lemma_tiles_of(r: Level, idx: usize)
    requires
        r.wf(),
        idx <= 2,
        catalog_shape(idx, r),
        forall|cx: int, cy: int|
            0 <= cx < r.w && 0 <= cy < r.h ==> #[trigger] r.map@[cell(r.w as int, cx, cy)] == catalog_tile(
                idx,
                cx,
                cy,
            ),
    ensures
        catalog_tiles(idx, r),
        well_built(r),
{
    assert forall|x: int, y: int| r.in_grid(x, y) implies #[trigger] r.tile_at(x, y) == catalog_tile(idx, x, y) by {
        assert(r.map@[cell(r.w as int, x, y)] == catalog_tile(idx, x, y));
    }
}

} // verus!
