use vstd::prelude::*;
use crate::draw::{cell, draw_line, fill, frame_fits, pixel, rect_fill, wall_color};
use crate::fixed::{div_trunc, lemma_tdiv_le, unit_sin, ONE, TURN};
use crate::game::{Game, Mode};
use crate::player::lemma_basis_of_angle;
use crate::raycaster::{column_ray, hit_depth, render_scene, MAX_SCREEN, NO_HIT_DEPTH};
use crate::sprites::SpriteKind;

verus! {

/// What a text label says; numbers are filled in by the text service.
#[derive(Copy, Clone, PartialEq, Eq, Structural, Debug)]
pub enum Text {
    Title,
    ChooseLevel,
    LevelOption(u8),
    Controls,
    LevelDone,
    EnterForMenu,
    Fps(i64),
    Coins(usize, usize),
    Left(usize),
    Lives(i32),
    Paused,
    PauseHelp,
    GameOver,
    RetryHelp,
    MenuHelp,
}

/// A text label for the text service: a position, what it says and an RGBA
/// color.
#[derive(Copy, Clone, Debug)]
pub struct Label {
    pub x: i32,
    pub y: i32,
    pub text: Text,
    pub color: [u8; 4],
}

fn label(x: i32, y: i32, text: Text, color: [u8; 4]) -> (r: Label)
    ensures
        r == (Label { x, y, text, color }),
{
    Label { x, y, text, color }
}

/// The requirements of a screen that draws no scene.
pub open spec fn flat_screen_ok(g: Game, frame: Seq<u8>, w: int, h: int) -> bool {
    &&& g.wf()
    &&& frame_fits(frame, w, h)
    &&& 1 <= w <= MAX_SCREEN
    &&& 1 <= h <= MAX_SCREEN
}

/// The requirements every screen shares.
pub open spec fn screen_ok(g: Game, frame: Seq<u8>, w: int, h: int) -> bool {
    &&& g.wf()
    &&& frame_fits(frame, w, h)
    &&& 1 <= w <= MAX_SCREEN
    &&& 1 <= h <= MAX_SCREEN
    &&& g.depth.cols@.len() == w
}

impl Game {
    /// Draws the current mode's screen and returns the labels to stamp on
    /// it. The game itself is left as it was, but for the depth buffer.
    pub fn render(&mut self, frame: &mut Vec<u8>, w: i32, h: i32) -> (labels: Vec<Label>)
        requires
            screen_ok(*old(self), old(frame)@, w as int, h as int),
        ensures
            final(frame)@.len() == old(frame)@.len(),
            *final(self) == (Game { depth: final(self).depth, ..*old(self) }),
            final(self).depth.cols@.len() == w,
            old(self).mode == Mode::Menu ==> forall|i: int|
                0 <= i < w * h ==> #[trigger] pixel(final(frame)@, i) == (0x10u8, 0x10u8, 0x18u8, 255u8),
            old(self).mode == Mode::Win ==> forall|i: int|
                0 <= i < w * h ==> #[trigger] pixel(final(frame)@, i) == (0u8, 40u8, 0u8, 255u8),
            old(self).mode == Mode::Paused ==> forall|cx: int, cy: int|
                0 <= cx < w && 0 <= cy < h ==> #[trigger] pixel(final(frame)@, cell(w as int, cx, cy)) == (
                    0u8,
                    0u8,
                    0u8,
                    140u8,
                ),
            old(self).mode == Mode::GameOver ==> forall|cx: int, cy: int|
                0 <= cx < w && 0 <= cy < h ==> #[trigger] pixel(final(frame)@, cell(w as int, cx, cy)) == (
                    0u8,
                    0u8,
                    0u8,
                    ((if old(self).death_anim_t < 2_000_000 {
                        old(self).death_anim_t as int
                    } else {
                        2_000_000
                    }) * 220 / 2_000_000) as u8,
                ),
            (old(self).mode == Mode::Playing || old(self).mode == Mode::Paused) ==> forall|x: int|
                0 <= x < w ==> {
                    let ray = column_ray(old(self).player, x, w as int);
                    ||| #[trigger] final(self).depth.cols@[x] == NO_HIT_DEPTH
                    ||| hit_depth(
                        old(self).level,
                        old(self).player.x as int,
                        old(self).player.y as int,
                        ray.0,
                        ray.1,
                        final(self).depth.cols@[x] as int,
                    )
                },
    {
        match self.mode {
            Mode::Menu => self.render_menu(frame, w, h),
            Mode::Playing => self.render_game(frame, w, h),
            Mode::Paused => self.render_paused(frame, w, h),
            Mode::Win => self.render_win(frame, w, h),
            Mode::GameOver => self.render_game_over(frame, w, h),
        }
    }

    /// The menu: a dark screen with the level choices.
    pub fn render_menu(&self, frame: &mut Vec<u8>, w: i32, h: i32) -> (labels: Vec<Label>)
        requires
            flat_screen_ok(*self, old(frame)@, w as int, h as int),
        ensures
            final(frame)@.len() == old(frame)@.len(),
            forall|i: int| 0 <= i < w * h ==> #[trigger] pixel(final(frame)@, i) == (0x10u8, 0x10u8, 0x18u8, 255u8),
            labels@ == seq![
                Label { x: 16, y: 16, text: Text::Title, color: [255u8, 230, 0, 255] },
                Label { x: 16, y: 40, text: Text::ChooseLevel, color: [200u8, 200, 200, 255] },
                Label { x: 16, y: 60, text: Text::LevelOption(1), color: [180u8, 220, 255, 255] },
                Label { x: 16, y: 75, text: Text::LevelOption(2), color: [180u8, 220, 255, 255] },
                Label { x: 16, y: 90, text: Text::LevelOption(3), color: [180u8, 220, 255, 255] },
                Label { x: 16, y: 120, text: Text::Controls, color: [180u8, 180, 180, 255] },
            ],
    {
        fill(frame, w, h, 0x10, 0x10, 0x18);
        let mut labels: Vec<Label> = Vec::new();
        labels.push(label(16, 16, Text::Title, [255, 230, 0, 255]));
        labels.push(label(16, 40, Text::ChooseLevel, [200, 200, 200, 255]));
        labels.push(label(16, 60, Text::LevelOption(1), [180, 220, 255, 255]));
        labels.push(label(16, 75, Text::LevelOption(2), [180, 220, 255, 255]));
        labels.push(label(16, 90, Text::LevelOption(3), [180, 220, 255, 255]));
        labels.push(label(16, 120, Text::Controls, [180, 180, 180, 255]));
        proof {
            assert(labels@ =~= seq![
                Label { x: 16, y: 16, text: Text::Title, color: [255u8, 230, 0, 255] },
                Label { x: 16, y: 40, text: Text::ChooseLevel, color: [200u8, 200, 200, 255] },
                Label { x: 16, y: 60, text: Text::LevelOption(1), color: [180u8, 220, 255, 255] },
                Label { x: 16, y: 75, text: Text::LevelOption(2), color: [180u8, 220, 255, 255] },
                Label { x: 16, y: 90, text: Text::LevelOption(3), color: [180u8, 220, 255, 255] },
                Label { x: 16, y: 120, text: Text::Controls, color: [180u8, 180, 180, 255] },
            ]);
        }
        labels
    }

    /// The level-complete screen.
    pub fn render_win(&self, frame: &mut Vec<u8>, w: i32, h: i32) -> (labels: Vec<Label>)
        requires
            flat_screen_ok(*self, old(frame)@, w as int, h as int),
        ensures
            final(frame)@.len() == old(frame)@.len(),
            forall|i: int| 0 <= i < w * h ==> #[trigger] pixel(final(frame)@, i) == (0u8, 40u8, 0u8, 255u8),
            labels@ == seq![
                Label { x: 16, y: 16, text: Text::LevelDone, color: [255u8, 255, 255, 255] },
                Label { x: 16, y: 40, text: Text::EnterForMenu, color: [200u8, 200, 200, 255] },
            ],
    {
        fill(frame, w, h, 0, 40, 0);
        let mut labels: Vec<Label> = Vec::new();
        labels.push(label(16, 16, Text::LevelDone, [255, 255, 255, 255]));
        labels.push(label(16, 40, Text::EnterForMenu, [200, 200, 200, 255]));
        proof {
            assert(labels@ =~= seq![
                Label { x: 16, y: 16, text: Text::LevelDone, color: [255u8, 255, 255, 255] },
                Label { x: 16, y: 40, text: Text::EnterForMenu, color: [200u8, 200, 200, 255] },
            ]);
        }
        labels
    }

    /// The game-over screen, fading to black over two seconds.
    pub fn render_game_over(&self, frame: &mut Vec<u8>, w: i32, h: i32) -> (labels: Vec<Label>)
        requires
            flat_screen_ok(*self, old(frame)@, w as int, h as int),
        ensures
            final(frame)@.len() == old(frame)@.len(),
            forall|cx: int, cy: int|
                0 <= cx < w && 0 <= cy < h ==> #[trigger] pixel(final(frame)@, cell(w as int, cx, cy)) == (
                    0u8,
                    0u8,
                    0u8,
                    ((if self.death_anim_t < 2_000_000 { self.death_anim_t as int } else { 2_000_000 }) * 220
                        / 2_000_000) as u8,
                ),
            labels@ == seq![
                Label { x: 16, y: 16, text: Text::GameOver, color: [255u8, 255, 255, 255] },
                Label { x: 16, y: 40, text: Text::RetryHelp, color: [200u8, 200, 200, 255] },
                Label { x: 16, y: 55, text: Text::MenuHelp, color: [200u8, 200, 200, 255] },
            ],
    {
        fill(frame, w, h, 10, 0, 0);
        let t = if self.death_anim_t < 2_000_000 { self.death_anim_t } else { 2_000_000 };
        let alpha = (t * 220 / 2_000_000) as u8;
        rect_fill(frame, w, h, 0, 0, w, h, [0, 0, 0, alpha]);
        let mut labels: Vec<Label> = Vec::new();
        labels.push(label(16, 16, Text::GameOver, [255, 255, 255, 255]));
        labels.push(label(16, 40, Text::RetryHelp, [200, 200, 200, 255]));
        labels.push(label(16, 55, Text::MenuHelp, [200, 200, 200, 255]));
        proof {
            assert(labels@ =~= seq![
                Label { x: 16, y: 16, text: Text::GameOver, color: [255u8, 255, 255, 255] },
                Label { x: 16, y: 40, text: Text::RetryHelp, color: [200u8, 200, 200, 255] },
                Label { x: 16, y: 55, text: Text::MenuHelp, color: [200u8, 200, 200, 255] },
            ]);
        }
        labels
    }

    /// The play view: walls, entities, the head-up display and the minimap.
    pub fn render_game(&mut self, frame: &mut Vec<u8>, w: i32, h: i32) -> (labels: Vec<Label>)
        requires
            screen_ok(*old(self), old(frame)@, w as int, h as int),
        ensures
            final(frame)@.len() == old(frame)@.len(),
            *final(self) == (Game { depth: final(self).depth, ..*old(self) }),
            final(self).depth.cols@.len() == w,
            forall|x: int|
                0 <= x < w ==> {
                    let ray = column_ray(old(self).player, x, w as int);
                    ||| #[trigger] final(self).depth.cols@[x] == NO_HIT_DEPTH
                    ||| hit_depth(
                        old(self).level,
                        old(self).player.x as int,
                        old(self).player.y as int,
                        ray.0,
                        ray.1,
                        final(self).depth.cols@[x] as int,
                    )
                },
            labels@.len() == 4,
            labels@[1].text == Text::Coins(
                (if old(self).total_pellets >= old(self).pellets_remaining {
                    old(self).total_pellets - old(self).pellets_remaining
                } else {
                    0
                }) as usize,
                old(self).total_pellets,
            ),
            labels@[2].text == Text::Left(old(self).pellets_remaining),
            labels@[3].text == Text::Lives(if old(self).lives > 0 { old(self).lives } else { 0 }),
    {
        render_scene(frame, w, h, &self.level, &self.player, &self.sprites, &mut self.depth);
        let mut labels: Vec<Label> = Vec::new();
        labels.push(label(6, 6, Text::Fps(self.fps), [255, 255, 255, 255]));
        let collected = self.total_pellets.saturating_sub(self.pellets_remaining);
        labels.push(label(6, 20, Text::Coins(collected, self.total_pellets), [255, 230, 0, 255]));
        labels.push(label(6, 34, Text::Left(self.pellets_remaining), [200, 200, 200, 255]));
        let lives: i32 = if self.lives > 0 { self.lives } else { 0 };
        labels.push(label(6, 50, Text::Lives(lives), [255, 100, 100, 255]));
        let mut i: i32 = 0;
        while i < lives
            invariant
                0 <= i <= lives <= 3,
                frame_fits(frame@, w as int, h as int),
                frame@.len() == old(frame)@.len(),
            decreases lives - i,
        {
            rect_fill(frame, w, h, 70 + i * 8, 50, 6, 6, [220, 40, 40, 255]);
            i = i + 1;
        }
        if self.invincible_time > 0 {
            let phase = (self.invincible_time % 1_000_000_000) * 104304 / 1_000_000 % TURN;
            let s = unit_sin(phase);
            let mag = if s < 0 { -s } else { s };
            let a = mag * 60 / ONE;
            let alpha: u8 = if a > 255 { 255 } else { a as u8 };
            rect_fill(frame, w, h, 0, 0, w, h, [255, 255, 255, alpha]);
        }
        self.render_minimap(frame, w, h);
        labels
    }

    /// The frozen play view under a dark overlay, with the pause help.
    pub fn render_paused(&mut self, frame: &mut Vec<u8>, w: i32, h: i32) -> (labels: Vec<Label>)
        requires
            screen_ok(*old(self), old(frame)@, w as int, h as int),
        ensures
            final(frame)@.len() == old(frame)@.len(),
            *final(self) == (Game { depth: final(self).depth, ..*old(self) }),
            final(self).depth.cols@.len() == w,
            forall|cx: int, cy: int|
                0 <= cx < w && 0 <= cy < h ==> #[trigger] pixel(final(frame)@, cell(w as int, cx, cy)) == (
                    0u8,
                    0u8,
                    0u8,
                    140u8,
                ),
            forall|x: int|
                0 <= x < w ==> {
                    let ray = column_ray(old(self).player, x, w as int);
                    ||| #[trigger] final(self).depth.cols@[x] == NO_HIT_DEPTH
                    ||| hit_depth(
                        old(self).level,
                        old(self).player.x as int,
                        old(self).player.y as int,
                        ray.0,
                        ray.1,
                        final(self).depth.cols@[x] as int,
                    )
                },
    {
        let mut labels = self.render_game(frame, w, h);
        rect_fill(frame, w, h, 0, 0, w, h, [0, 0, 0, 140]);
        labels.push(label(w / 2 - 30, h / 2 - 10, Text::Paused, [255, 255, 255, 255]));
        labels.push(label(w / 2 - 90, h / 2 + 10, Text::PauseHelp, [220, 220, 220, 255]));
        labels
    }

    /// The minimap in the top right corner: four pixels per tile, the
    /// adversaries in red, the player in yellow with a heading line.
    pub fn render_minimap(&self, frame: &mut Vec<u8>, w: i32, h: i32)
        requires
            flat_screen_ok(*self, old(frame)@, w as int, h as int),
        ensures
            final(frame)@.len() == old(frame)@.len(),
    {
        proof {
            lemma_basis_of_angle(self.player.angle as int);
        }
        let scale: i32 = 4;
        let pad: i32 = 6;
        let map_w = self.level.w * scale;
        let map_h = self.level.h * scale;
        let origin_x = w - map_w - pad;
        let origin_y = pad;
        rect_fill(frame, w, h, origin_x - 2, origin_y - 2, map_w + 4, map_h + 4, [0, 0, 0, 180]);
        let mut y: i32 = 0;
        while y < self.level.h
            invariant
                self.wf(),
                0 <= y <= self.level.h,
                origin_x == w - self.level.w * 4 - 6,
                origin_y == 6,
                scale == 4,
                1 <= w <= MAX_SCREEN,
                frame_fits(frame@, w as int, h as int),
                frame@.len() == old(frame)@.len(),
            decreases self.level.h - y,
        {
            let mut x: i32 = 0;
            while x < self.level.w
                invariant
                    self.wf(),
                    0 <= y < self.level.h,
                    0 <= x <= self.level.w,
                    origin_x == w - self.level.w * 4 - 6,
                    origin_y == 6,
                    scale == 4,
                    1 <= w <= MAX_SCREEN,
                    frame_fits(frame@, w as int, h as int),
                    frame@.len() == old(frame)@.len(),
                decreases self.level.w - x,
            {
                let tile = self.level.tile(x, y);
                let color: [u8; 4] = if tile == 0 { [30, 30, 30, 255] } else { wall_color(tile) };
                rect_fill(frame, w, h, origin_x + x * scale, origin_y + y * scale, scale, scale, color);
                x = x + 1;
            }
            y = y + 1;
        }
        let n = self.sprites.len();
        let mut i: usize = 0;
        while i < n
            invariant
                self.wf(),
                n == self.sprites@.len(),
                i <= n,
                origin_x == w - self.level.w * 4 - 6,
                origin_y == 6,
                1 <= w <= MAX_SCREEN,
                frame_fits(frame@, w as int, h as int),
                frame@.len() == old(frame)@.len(),
            decreases n - i,
        {
            let s = self.sprites[i];
            if s.kind == SpriteKind::Adversary {
                proof {
                    assert(crate::player::on_grid(self.level, s.x as int, s.y as int));
                }
                let gx = div_trunc(origin_x as i64 * ONE + s.x * 4, ONE);
                let gy = div_trunc(origin_y as i64 * ONE + s.y * 4, ONE);
                proof {
                    lemma_tdiv_le(origin_x * ONE + s.x * 4, ONE as int, 0x10_0000_0000);
                    lemma_tdiv_le(origin_y * ONE + s.y * 4, ONE as int, 0x10_0000_0000);
                }
                rect_fill(frame, w, h, gx as i32 - 1, gy as i32 - 1, 3, 3, [255, 80, 80, 255]);
            }
            i = i + 1;
        }
        let px_fp = origin_x as i64 * ONE + self.player.x * 4;
        let py_fp = origin_y as i64 * ONE + self.player.y * 4;
        let px = div_trunc(px_fp, ONE);
        let py = div_trunc(py_fp, ONE);
        proof {
            lemma_tdiv_le(px_fp as int, ONE as int, 0x10_0000_0000);
            lemma_tdiv_le(py_fp as int, ONE as int, 0x10_0000_0000);
        }
        rect_fill(frame, w, h, px as i32 - 2, py as i32 - 2, 4, 4, [255, 255, 0, 255]);
        let ex = div_trunc(px_fp + self.player.dir_x * 6, ONE);
        let ey = div_trunc(py_fp + self.player.dir_y * 6, ONE);
        proof {
            lemma_tdiv_le(px_fp + self.player.dir_x * 6, ONE as int, 0x10_0000_0000);
            lemma_tdiv_le(py_fp + self.player.dir_y * 6, ONE as int, 0x10_0000_0000);
        }
        draw_line(frame, w, h, px as i32, py as i32, ex as i32, ey as i32, [255, 255, 255, 255]);
    }
}

} // verus!
