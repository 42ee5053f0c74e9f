use raycast_maze::{get_level, level1, level2, level3, wall_color, Level};

fn ring_level(w: i32, h: i32, spawn: (i32, i32)) -> Level {
    let mut map = vec![0; (w * h) as usize];
    for x in 0..w {
        map[x as usize] = 1;
        map[((h - 1) * w + x) as usize] = 1;
    }
    for y in 0..h {
        map[(y * w) as usize] = 1;
        map[(y * w + w - 1) as usize] = 1;
    }
    Level { w, h, map, spawn, ghost_count: 0 }
}

#[test]
fn tile_outside_grid_is_wall() {
    let level = level1();
    for (x, y) in [(-1, 0), (0, -1), (24, 3), (3, 16), (-100, -100), (i32::MAX, 0), (0, i32::MIN)] {
        assert_eq!(level.tile(x, y), 1);
    }
    let open = ring_level(5, 5, (2, 2));
    assert_eq!(open.tile(2, 2), 0);
    assert_eq!(open.tile(5, 2), 1);
    assert_eq!(open.tile(2, -1), 1);
}

#[test]
fn tile_inside_grid_reads_the_map() {
    let level = level1();
    assert_eq!(level.tile(0, 0), 1);
    assert_eq!(level.tile(2, 2), 0);
    assert_eq!(level.tile(4, 5), 2);
    assert_eq!(level.tile(5, 5), 3);
    assert_eq!(level.tile(8, 5), 4);
    assert_eq!(level.tile(15, 7), 5);
}

#[test]
fn catalog_levels_by_index() {
    let a = get_level(0);
    assert_eq!((a.w, a.h, a.spawn, a.ghost_count), (24, 16, (2, 2), 3));
    let b = get_level(1);
    assert_eq!((b.w, b.h, b.spawn, b.ghost_count), (28, 18, (1, 1), 5));
    let c = get_level(2);
    assert_eq!((c.w, c.h, c.spawn, c.ghost_count), (32, 20, (2, 2), 7));
    let d = get_level(99);
    assert_eq!((d.w, d.h), (32, 20));
    assert_eq!(level2().map.len(), 28 * 18);
    assert_eq!(level3().map.len(), 32 * 20);
    assert_eq!(level2().tile(1, 1), 0);
    assert_eq!(level3().tile(0, 0), 3);
    assert_eq!(level3().tile(4, 10), 1);
}

#[test]
fn wall_palette_by_id() {
    assert_eq!(wall_color(0), [200, 60, 60, 255]);
    assert_eq!(wall_color(1), [60, 200, 60, 255]);
    assert_eq!(wall_color(2), [60, 60, 200, 255]);
    assert_eq!(wall_color(3), [200, 200, 60, 255]);
    assert_eq!(wall_color(4), [200, 60, 200, 255]);
    assert_eq!(wall_color(5), [60, 200, 200, 255]);
    assert_eq!(wall_color(7), [60, 200, 60, 255]);
    assert_eq!(wall_color(-6), [200, 60, 60, 255]);
    assert_eq!(wall_color(-1), [60, 200, 200, 255]);
}

#[test]
fn every_catalog_level_is_walled_with_an_open_spawn() {
    for idx in 0..3 {
        let level = get_level(idx);
        for y in 0..level.h {
            for x in 0..level.w {
                let t = level.tile(x, y);
                assert!(t >= 0);
                if x == 0 || y == 0 || x == level.w - 1 || y == level.h - 1 {
                    assert!(t > 0);
                }
            }
        }
        assert_eq!(level.tile(level.spawn.0, level.spawn.1), 0);
    }
}
