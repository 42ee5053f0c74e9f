use raycast_maze::{
    try_place, Game, Key, Level, Mode, Sound, Sprite, SpriteKind, HIT_COOLDOWN, ONE, START_ANGLE, START_LIVES,
};

fn ring_level(w: i32, h: i32, spawn: (i32, i32)) -> Level {
    let mut map = vec![0; (w * h) as usize];
    for x in 0..w {
        map[x as usize] = 1;
        map[((h - 1) * w + x) as usize] = 1;
    }
    for y in 0..h {
        map[(y * w) as usize] = 1;
        map[(y * w + w - 1) as usize] = 1;
    }
    Level { w, h, map, spawn, ghost_count: 0 }
}

fn center(c: i32) -> i64 {
    c as i64 * ONE + ONE / 2
}

/// A game in play on an open walled level, with the given entities.
fn playing_on(level: Level, sprites: Vec<Sprite>) -> Game {
    let mut g = Game::new(64, 40);
    let pellets = sprites.iter().filter(|s| s.kind == SpriteKind::Pellet).count();
    g.player.x = center(level.spawn.0);
    g.player.y = center(level.spawn.1);
    g.level = level;
    g.sprites = sprites;
    g.total_pellets = pellets;
    g.pellets_remaining = pellets;
    g.mode = Mode::Playing;
    g
}

#[test]
fn start_level_resets_play_state() {
    let mut g = Game::new(64, 40);
    g.lives = 1;
    g.invincible_time = 500_000;
    g.time = 42;
    let sounds = g.start_level(1);
    assert_eq!(sounds, vec![Sound::Theme]);
    assert_eq!(g.mode(), Mode::Playing);
    assert_eq!(g.level_index, 1);
    assert_eq!(g.lives, START_LIVES);
    assert_eq!(g.lives, 3);
    assert_eq!(g.invincible_time, 0);
    assert_eq!(g.time, 0);
    let pellets = g.sprites.iter().filter(|s| s.kind == SpriteKind::Pellet).count();
    assert!(pellets > 0);
    assert_eq!(g.total_pellets, pellets);
    assert_eq!(g.pellets_remaining, pellets);
    assert_eq!(g.player.x, 1 * ONE + ONE / 2);
    assert_eq!(g.player.y, 1 * ONE + ONE / 2);
    assert_eq!(g.player.angle, START_ANGLE);
    assert_eq!((g.player.dir_x, g.player.dir_y), (-ONE, 0));
}

#[test]
fn pickups_follow_the_fixed_pattern() {
    let level = ring_level(24, 16, (2, 2));
    let sprites = Game::build_sprites_for_level(&level);
    let got: Vec<(i64, i64)> = sprites
        .iter()
        .filter(|s| s.kind == SpriteKind::Pellet)
        .map(|s| (s.x, s.y))
        .collect();
    let mut want = Vec::new();
    for y in 1..15 {
        for x in 1..23 {
            if (x, y) != (2, 2) && (x + y * 3) % 6 == 0 {
                want.push((center(x), center(y)));
            }
        }
    }
    assert!(!want.is_empty());
    assert_eq!(got, want);
    assert_eq!(sprites.len(), want.len());
}

#[test]
fn pickup_fallback_places_exactly_one() {
    // Only the middle cell of a 3 x 3 ring is open, and it is off the pattern.
    let level = ring_level(3, 3, (0, 0));
    let sprites = Game::build_sprites_for_level(&level);
    assert_eq!(sprites.len(), 1);
    assert_eq!(sprites[0].kind, SpriteKind::Pellet);
    assert_eq!((sprites[0].x, sprites[0].y), (center(1), center(1)));
    let mut closed = ring_level(3, 3, (1, 1));
    closed.map[4] = 0;
    assert!(Game::build_sprites_for_level(&closed).is_empty());
}

#[test]
fn adversaries_land_on_open_interior_cells() {
    let mut level = ring_level(24, 16, (2, 2));
    level.ghost_count = 4;
    let mut spots = Vec::new();
    for _ in 0..20 {
        let sprites = Game::build_sprites_for_level(&level);
        let ghosts: Vec<&Sprite> = sprites.iter().filter(|s| s.kind == SpriteKind::Adversary).collect();
        assert_eq!(ghosts.len(), 4);
        for s in ghosts {
            let (cx, cy) = ((s.x / ONE) as i32, (s.y / ONE) as i32);
            assert!(cx >= 1 && cx < 23 && cy >= 1 && cy < 15);
            assert_eq!(level.tile(cx, cy), 0);
            assert_eq!((s.x, s.y), (center(cx), center(cy)));
            spots.push((cx, cy));
        }
    }
    spots.sort();
    spots.dedup();
    assert!(spots.len() > 1);
}

#[test]
fn placing_on_a_drawn_cell() {
    let mut level = ring_level(6, 6, (1, 1));
    level.map[(2 * 6 + 3) as usize] = 4;
    let s = try_place(&level, 2, 2).unwrap();
    assert_eq!((s.x, s.y, s.kind), (center(2), center(2), SpriteKind::Adversary));
    assert!(try_place(&level, 3, 2).is_none());
}

#[test]
fn blocked_axis_does_not_stop_the_other() {
    let mut level = ring_level(12, 12, (5, 5));
    level.map[(5 * 12 + 6) as usize] = 1;
    let mut g = playing_on(level, vec![]);
    g.player.x = 5 * ONE;
    g.player.y = 5 * ONE;
    g.try_move(ONE + ONE / 5, ONE / 2);
    assert_eq!(g.player.x, 5 * ONE);
    assert_eq!(g.player.y, 5 * ONE + ONE / 2);
}

#[test]
fn last_life_lost_means_game_over() {
    let level = ring_level(12, 12, (5, 5));
    let ghost = Sprite::new(center(5), center(5), SpriteKind::Adversary);
    let pellet = Sprite::new(center(9), center(9), SpriteKind::Pellet);
    let mut g = playing_on(level, vec![ghost, pellet]);
    g.lives = 1;
    g.invincible_time = 0;
    let sounds = g.update(0);
    assert_eq!(g.mode(), Mode::GameOver);
    assert_eq!(g.lives, 0);
    assert_eq!(g.death_anim_t, 0);
    assert_eq!(sounds, vec![Sound::Hit, Sound::GameOver]);
}

#[test]
fn hit_respawns_with_cooldown() {
    let level = ring_level(12, 12, (2, 2));
    let ghost = Sprite::new(center(6), center(6), SpriteKind::Adversary);
    let pellet = Sprite::new(center(9), center(9), SpriteKind::Pellet);
    let mut g = playing_on(level, vec![ghost, pellet]);
    g.player.x = center(6);
    g.player.y = center(6);
    let sounds = g.check_collisions_and_pickups();
    assert_eq!(sounds, vec![Sound::Hit]);
    assert_eq!(g.lives, START_LIVES - 1);
    assert_eq!(g.invincible_time, HIT_COOLDOWN);
    assert_eq!((g.player.x, g.player.y), (center(2), center(2)));
    assert_eq!(g.mode(), Mode::Playing);
}

#[test]
fn no_second_hit_within_cooldown() {
    let level = ring_level(12, 12, (6, 6));
    let ghost = Sprite::new(center(6), center(6), SpriteKind::Adversary);
    let pellet = Sprite::new(center(9), center(9), SpriteKind::Pellet);
    let mut g = playing_on(level, vec![ghost, pellet]);
    g.check_collisions_and_pickups();
    assert_eq!(g.lives, 2);
    // The player respawns onto the adversary, but the cooldown holds.
    for _ in 0..19 {
        g.sprites[0].x = g.player.x;
        g.sprites[0].y = g.player.y;
        g.update(100_000);
        assert_eq!(g.lives, 2);
    }
    assert_eq!(g.invincible_time, 100_000);
    g.sprites[0].x = g.player.x;
    g.sprites[0].y = g.player.y;
    g.update(0);
    assert_eq!(g.lives, 2);
    g.sprites[0].x = center(9);
    g.sprites[0].y = center(9);
    g.update(100_000);
    assert_eq!(g.lives, 2);
    assert_eq!(g.invincible_time, 0);
    g.sprites[0].x = g.player.x;
    g.sprites[0].y = g.player.y;
    g.update(0);
    assert_eq!(g.lives, 1);
}

#[test]
fn invulnerable_or_paused_player_is_not_hit() {
    let level = ring_level(12, 12, (5, 5));
    let ghost = Sprite::new(center(5), center(5), SpriteKind::Adversary);
    let pellet = Sprite::new(center(9), center(9), SpriteKind::Pellet);
    let mut g = playing_on(level, vec![ghost, pellet]);
    g.invincible_time = 1;
    g.check_collisions_and_pickups();
    assert_eq!(g.lives, 3);
    g.invincible_time = 0;
    g.mode = Mode::Paused;
    g.check_collisions_and_pickups();
    assert_eq!(g.lives, 3);
}

#[test]
fn collecting_all_pickups_wins_on_the_same_update() {
    let level = ring_level(12, 12, (5, 5));
    let a = Sprite::new(center(5), center(5), SpriteKind::Pellet);
    let b = Sprite::new(center(5), center(5), SpriteKind::Pellet);
    let mut g = playing_on(level, vec![a, b]);
    assert_eq!(g.pellets_remaining, 2);
    let sounds = g.update(0);
    assert_eq!(g.pellets_remaining, 0);
    assert_eq!(g.mode(), Mode::Win);
    assert_eq!(sounds, vec![Sound::Pellet, Sound::Win]);
}

#[test]
fn overlapping_pickups_are_each_removed_once() {
    let level = ring_level(12, 12, (5, 5));
    let near = Sprite::new(center(5), center(5), SpriteKind::Pellet);
    let also_near = Sprite::new(center(5) + 1000, center(5), SpriteKind::Pellet);
    let far = Sprite::new(center(8), center(8), SpriteKind::Pellet);
    let ghost = Sprite::new(center(9), center(9), SpriteKind::Adversary);
    let mut g = playing_on(level, vec![near, far, also_near, ghost]);
    let sounds = g.check_collisions_and_pickups();
    assert_eq!(sounds, vec![Sound::Pellet]);
    assert_eq!(g.pellets_remaining, 1);
    assert_eq!(g.sprites.len(), 2);
    assert_eq!((g.sprites[0].x, g.sprites[0].y), (center(8), center(8)));
    assert_eq!(g.sprites[1].kind, SpriteKind::Adversary);
    let again = g.check_collisions_and_pickups();
    assert!(again.is_empty());
    assert_eq!(g.pellets_remaining, 1);
    assert_eq!(g.sprites.len(), 2);
}

#[test]
fn mode_transitions_by_key() {
    let mut g = Game::new(64, 40);
    assert_eq!(g.mode(), Mode::Menu);
    assert!(g.on_key(Key::P, true).is_empty());
    assert_eq!(g.mode(), Mode::Menu);
    assert_eq!(g.on_key(Key::Key3, true), vec![Sound::Theme]);
    assert_eq!(g.mode(), Mode::Playing);
    assert_eq!(g.level_index, 2);
    g.on_key(Key::P, false);
    assert_eq!(g.mode(), Mode::Playing);
    g.on_key(Key::P, true);
    assert_eq!(g.mode(), Mode::Paused);
    g.on_key(Key::P, true);
    assert_eq!(g.mode(), Mode::Playing);
    g.on_key(Key::P, true);
    g.on_key(Key::Return, true);
    assert_eq!(g.mode(), Mode::Menu);
    g.on_key(Key::Key2, true);
    assert_eq!(g.level_index, 1);
    g.mode = Mode::GameOver;
    g.lives = 0;
    assert_eq!(g.on_key(Key::R, true), vec![Sound::Theme]);
    assert_eq!(g.mode(), Mode::Playing);
    assert_eq!(g.level_index, 1);
    assert_eq!(g.lives, 3);
    g.mode = Mode::GameOver;
    g.on_key(Key::Return, true);
    assert_eq!(g.mode(), Mode::Menu);
    g.mode = Mode::Win;
    g.on_key(Key::W, true);
    assert_eq!(g.mode(), Mode::Win);
    assert!(g.is_down(Key::W));
    g.on_key(Key::Return, true);
    assert_eq!(g.mode(), Mode::Menu);
    g.on_key(Key::W, false);
    assert!(!g.is_down(Key::W));
}

#[test]
fn held_keys_move_and_turn_only_while_playing() {
    let level = ring_level(12, 12, (5, 5));
    let pellet = Sprite::new(center(9), center(9), SpriteKind::Pellet);
    let mut g = playing_on(level, vec![pellet]);
    g.on_key(Key::W, true);
    g.update(100_000);
    // Facing negative x at three tiles per second: 0.3 tiles in 0.1 s.
    assert_eq!(g.player.x, center(5) - 3 * ONE / 10);
    assert_eq!(g.player.y, center(5));
    g.on_key(Key::W, false);
    g.on_key(Key::Left, true);
    let before = g.player.angle;
    g.update(100_000);
    assert_eq!(g.player.angle, before + 2086);
    g.mode = Mode::Paused;
    let x = g.player.x;
    g.update(100_000);
    assert_eq!(g.player.angle, before + 2086);
    assert_eq!(g.player.x, x);
}

#[test]
fn pointer_motion_turns_right_for_rightward_motion() {
    let mut g = Game::new(64, 40);
    let start = g.player.angle;
    g.on_mouse_delta(10);
    assert_eq!(g.player.angle, start);
    g.start_level(0);
    g.on_mouse_delta(10);
    assert_eq!(g.player.angle, start - 370);
    g.on_mouse_delta(-10);
    assert_eq!(g.player.angle, start);
}

#[test]
fn game_over_clock_runs_and_others_freeze() {
    let mut g = Game::new(64, 40);
    g.update(1000);
    assert_eq!(g.death_anim_t, 0);
    assert_eq!(g.time, 0);
    g.mode = Mode::GameOver;
    g.update(1500);
    assert_eq!(g.death_anim_t, 1500);
}

#[test]
fn frame_rate_estimate_refreshes_each_second() {
    let mut g = Game::new(64, 40);
    for _ in 0..4 {
        g.update(250_000);
    }
    assert_eq!(g.fps, 4);
    assert_eq!(g.fps_acc, 0);
    assert_eq!(g.fps_count, 0);
}

#[test]
fn adversaries_never_enter_walls() {
    let mut g = Game::new(64, 40);
    g.start_level(2);
    for _ in 0..200 {
        g.update(50_000);
        if g.mode() != Mode::Playing {
            g.start_level(2);
        }
        for s in &g.sprites {
            let (cx, cy) = ((s.x / ONE) as i32, (s.y / ONE) as i32);
            assert_eq!(g.level.tile(cx, cy), 0);
        }
    }
}
