use vstd::prelude::*;

verus! {

/// What an entity is: a pickup to collect, or a roaming adversary.
#[derive(Copy, Clone, PartialEq, Eq, Structural, Debug)]
pub enum SpriteKind {
    Pellet,
    Adversary,
}

/// A positioned, animated entity; `x` and `y` are fixed point, `anim_time`
/// is in microseconds.
#[derive(Copy, Clone, Debug)]
pub struct Sprite {
    pub x: i64,
    pub y: i64,
    pub kind: SpriteKind,
    pub anim_frame: usize,
    pub anim_time: i64,
}

impl Sprite {
    pub fn new(x: i64, y: i64, kind: SpriteKind) -> (r: Sprite)
        ensures
            r.x == x,
            r.y == y,
            r.kind == kind,
            r.anim_frame == 0,
            r.anim_time == 0,
    {
        Sprite { x, y, kind, anim_frame: 0, anim_time: 0 }
    }
}

} // verus!
