use raycast_maze::{
    add_angle, cast_ray, draw_ceiling_floor, draw_line, fill, isqrt, normalize, rect_fill, render_scene,
    sort_far_to_near, steer, unit_cos, unit_sin, DepthBuffer, Game, Level, Mode, Player, Sprite,
    SpriteKind, Text, MIN_DEPTH, NO_HIT_DEPTH, ONE, TURN,
};

fn ring_level(w: i32, h: i32, spawn: (i32, i32)) -> Level {
    let mut map = vec![0; (w * h) as usize];
    for x in 0..w {
        map[x as usize] = 1;
        map[((h - 1) * w + x) as usize] = 1;
    }
    for y in 0..h {
        map[(y * w) as usize] = 1;
        map[(y * w + w - 1) as usize] = 1;
    }
    Level { w, h, map, spawn, ghost_count: 0 }
}

fn pixel(frame: &[u8], w: i32, x: i32, y: i32) -> [u8; 4] {
    let i = ((y * w + x) * 4) as usize;
    [frame[i], frame[i + 1], frame[i + 2], frame[i + 3]]
}

#[test]
fn rotation_keeps_the_camera_basis() {
    let mut p = Player::spawn_at(3, 3);
    for step in 0..1024 {
        p.set_heading(step * 64);
        let dot = p.dir_x * p.plane_x + p.dir_y * p.plane_y;
        assert_eq!(dot, 0);
        let dir2 = p.dir_x * p.dir_x + p.dir_y * p.dir_y;
        let plane2 = p.plane_x * p.plane_x + p.plane_y * p.plane_y;
        assert_eq!(1024 * plane2, 441 * dir2);
        // The heading stays a unit vector to within 0.1%.
        assert!((dir2 - ONE * ONE).abs() <= ONE * ONE / 1000, "step {}", step);
    }
    let mut q = Player::spawn_at(3, 3);
    let before = (q.dir_x, q.dir_y, q.plane_x, q.plane_y);
    q.rotate(12345);
    q.rotate(-12345);
    assert_eq!((q.dir_x, q.dir_y, q.plane_x, q.plane_y), before);
    assert_eq!((q.x, q.y), (3 * ONE + ONE / 2, 3 * ONE + ONE / 2));
}

#[test]
fn sine_table_values() {
    assert_eq!(unit_sin(0), 0);
    assert_eq!(unit_cos(0), ONE);
    assert_eq!(unit_sin(TURN / 4), ONE);
    assert_eq!(unit_cos(TURN / 2), -ONE);
    assert_eq!(unit_sin(3 * TURN / 4), -ONE);
    assert_eq!(add_angle(TURN - 10, 20), 10);
    assert_eq!(add_angle(5, -10), TURN - 5);
    assert_eq!(add_angle(0, -3 * TURN), 0);
}

#[test]
fn integer_square_root() {
    assert_eq!(isqrt(0), 0);
    assert_eq!(isqrt(1), 1);
    assert_eq!(isqrt(15), 3);
    assert_eq!(isqrt(16), 4);
    assert_eq!(isqrt(u128::MAX), u64::MAX);
    assert_eq!(isqrt(1 << 64), 1 << 32);
}

#[test]
fn normalizing_and_steering() {
    assert_eq!(normalize(3 * ONE, 4 * ONE), (3 * ONE / 5, 4 * ONE / 5));
    assert_eq!(normalize(-5, 0), (-ONE * 5 / 7, 0));
    assert_eq!(normalize(0, 0), (0, 0));
    // Straight at a target along x, with no push or jitter.
    assert_eq!(steer(0, 0, 10 * ONE, 0, 0, 0, 0, 0), (ONE, 0));
    let (fx, fy) = steer(0, 0, 10 * ONE, 0, 0, 10 * ONE, 0, 0);
    assert!(fy > fx && fx > 0);
}

#[test]
fn depth_buffer_starts_at_no_hit() {
    let d = DepthBuffer::new(7);
    assert_eq!(d.cols, vec![NO_HIT_DEPTH; 7]);
}

#[test]
fn ray_hits_the_first_wall() {
    let level = ring_level(24, 16, (2, 2));
    let (px, py) = (2 * ONE + ONE / 2, 2 * ONE + ONE / 2);
    let hit = cast_ray(&level, px, py, -ONE, 0);
    assert_eq!(hit.tile, 1);
    assert_eq!(hit.side, 0);
    assert_eq!(hit.dist, 3 * ONE / 2);
    let down = cast_ray(&level, px, py, 0, ONE);
    assert_eq!(down.side, 1);
    assert_eq!(down.dist, 25 * ONE / 2);
    let mut open = ring_level(5, 5, (2, 2));
    open.map = vec![0; 25];
    let miss = cast_ray(&open, px, py, ONE, ONE / 3);
    assert_eq!(miss.tile, 0);
    assert_eq!(miss.dist, NO_HIT_DEPTH);
    let close = cast_ray(&level, ONE + 1, py, -ONE, 0);
    assert_eq!(close.dist, MIN_DEPTH);
}

#[test]
fn rays_from_off_the_grid() {
    let level = ring_level(24, 16, (2, 2));
    let inside_left = cast_ray(&level, -ONE / 2, 2 * ONE + ONE / 2, ONE, 0);
    assert_eq!(inside_left.tile, 1);
    assert_eq!(inside_left.dist, ONE / 2);
    let away = cast_ray(&level, 100 * ONE, 2 * ONE + ONE / 2, ONE, 0);
    assert_eq!(away.tile, 0);
    assert_eq!(away.dist, NO_HIT_DEPTH);
}

#[test]
fn every_column_gets_a_depth() {
    let level = ring_level(24, 16, (2, 2));
    let p = Player::spawn_at(2, 2);
    let (w, h) = (64, 40);
    let mut frame = vec![0u8; (w * h * 4) as usize];
    let mut depth = DepthBuffer::new(w as usize);
    let sprites = vec![Sprite::new(ONE / 2 + 1, 2 * ONE + ONE / 2, SpriteKind::Pellet)];
    render_scene(&mut frame, w, h, &level, &p, &sprites, &mut depth);
    assert_eq!(depth.cols.len(), w as usize);
    for &d in &depth.cols {
        assert!(d >= MIN_DEPTH && d < NO_HIT_DEPTH);
    }
    // The middle column looks straight down the heading at the border wall.
    assert_eq!(depth.cols[32], 3 * ONE / 2);
    // The sky stays above the wall in the middle column, the ground below.
    assert_eq!(pixel(&frame, w, 32, 0), [40, 60, 120, 255]);
    assert_eq!(pixel(&frame, w, 32, h - 1), [40, 40, 40, 255]);
    assert_eq!(pixel(&frame, w, 32, h / 2), [60, 200, 60, 255]);

    let mut open = ring_level(5, 5, (2, 2));
    open.map = vec![0; 25];
    let mut frame2 = vec![0u8; (w * h * 4) as usize];
    let mut depth2 = DepthBuffer::new(w as usize);
    render_scene(&mut frame2, w, h, &open, &p, &[].to_vec(), &mut depth2);
    assert!(depth2.cols.iter().all(|&d| d == NO_HIT_DEPTH));
}

#[test]
fn entities_behind_walls_are_hidden() {
    let mut level = ring_level(24, 16, (8, 8));
    let p = Player::spawn_at(8, 8);
    let (w, h) = (64, 40);
    let ghost = Sprite::new(6 * ONE + ONE / 2, 8 * ONE + ONE / 2, SpriteKind::Adversary);
    let mut frame = vec![0u8; (w * h * 4) as usize];
    let mut depth = DepthBuffer::new(w as usize);
    render_scene(&mut frame, w, h, &level, &p, &vec![ghost], &mut depth);
    let visible = pixel(&frame, w, 32, h / 2);
    assert_ne!(visible, [60, 200, 60, 255]);
    level.map[(8 * 24 + 7) as usize] = 2;
    let mut hidden = vec![0u8; (w * h * 4) as usize];
    render_scene(&mut hidden, w, h, &level, &p, &vec![ghost], &mut depth);
    assert_eq!(pixel(&hidden, w, 32, h / 2), [60, 60, 200, 255]);
}

#[test]
fn far_entities_come_first() {
    assert_eq!(sort_far_to_near(&vec![5, 9, 1, 9, 3]), vec![1, 3, 0, 4, 2]);
    assert!(sort_far_to_near(&vec![]).is_empty());
}

#[test]
fn drawing_primitives() {
    let (w, h) = (8, 6);
    let mut frame = vec![0u8; (w * h * 4) as usize];
    fill(&mut frame, w, h, 1, 2, 3);
    assert!(frame.chunks(4).all(|c| c == [1, 2, 3, 255]));
    draw_ceiling_floor(&mut frame, w, h);
    assert_eq!(pixel(&frame, w, 0, 2), [40, 60, 120, 255]);
    assert_eq!(pixel(&frame, w, 0, 3), [40, 40, 40, 255]);
    rect_fill(&mut frame, w, h, -2, -2, 4, 3, [9, 9, 9, 9]);
    assert_eq!(pixel(&frame, w, 1, 0), [9, 9, 9, 9]);
    assert_eq!(pixel(&frame, w, 2, 0), [40, 60, 120, 255]);
    assert_eq!(pixel(&frame, w, 0, 1), [40, 60, 120, 255]);
    draw_line(&mut frame, w, h, 0, 5, 7, 5, [7, 7, 7, 7]);
    assert!((0..8).all(|x| pixel(&frame, w, x, 5) == [7, 7, 7, 7]));
    draw_line(&mut frame, w, h, -3, -3, 3, 3, [5, 5, 5, 5]);
    assert_eq!(pixel(&frame, w, 2, 2), [5, 5, 5, 5]);
    assert_eq!(pixel(&frame, w, 3, 3), [5, 5, 5, 5]);
}

#[test]
fn screens_by_mode() {
    let (w, h) = (320, 200);
    let mut g = Game::new(w, h);
    let mut frame = vec![0u8; (w * h * 4) as usize];
    let menu = g.render(&mut frame, w, h);
    assert_eq!(menu.len(), 6);
    assert_eq!(menu[0].text, Text::Title);
    assert_eq!(pixel(&frame, w, 0, 199), [0x10, 0x10, 0x18, 255]);
    g.start_level(0);
    let hud = g.render(&mut frame, w, h);
    assert_eq!(hud.len(), 4);
    assert_eq!(hud[1].text, Text::Coins(0, g.total_pellets));
    assert_eq!(hud[3].text, Text::Lives(3));
    g.mode = Mode::Win;
    let win = g.render(&mut frame, w, h);
    assert_eq!(win[0].text, Text::LevelDone);
    assert_eq!(pixel(&frame, w, 5, 5), [0, 40, 0, 255]);
    g.mode = Mode::GameOver;
    let over = g.render(&mut frame, w, h);
    assert_eq!(over.len(), 3);
    assert_eq!(pixel(&frame, w, 5, 5), [0, 0, 0, 0]);
    g.mode = Mode::Paused;
    let paused = g.render(&mut frame, w, h);
    assert_eq!(paused.len(), 6);
    assert_eq!(paused[4].text, Text::Paused);
}
