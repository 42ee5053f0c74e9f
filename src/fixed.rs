use vstd::prelude::*;
use crate::sine_table::{quarter_sine, quarter_sine_table};

verus! {

/// One tile (or one unit of a unit vector) in fixed point.
pub const ONE: i64 = 65536;

/// Binary angle units in one full turn.
pub const TURN: i64 = 65536;

/// Binary angle units per step of the sine table (1024 steps per turn).
pub const ANGLE_STEP: i64 = 64;

/// Fixed-point units per unit of the sine table: table entries go up to
/// 2048, so a unit vector has length about `ONE`.
pub const SINE_SCALE: i64 = 32;

/// The sine table over a whole turn of 1024 steps, in table units.
pub open spec fn sine_of_step(s: int) -> int {
    let q = s / 256;
    let r = s % 256;
    if q == 0 {
        quarter_sine_table()[r] as int
    } else if q == 1 {
        quarter_sine_table()[256 - r] as int
    } else if q == 2 {
        -(quarter_sine_table()[r] as int)
    } else {
        -(quarter_sine_table()[256 - r] as int)
    }
}

/// An angle brought into `[0, TURN)`.
pub open spec fn wrap_angle(a: int) -> int {
    a % (TURN as int)
}

/// The sine of a binary angle, in fixed point (a multiple of `SINE_SCALE`).
pub open spec fn sin_spec(angle: int) -> int {
    SINE_SCALE * sine_of_step((angle / ANGLE_STEP as int) % 1024)
}

/// The cosine of a binary angle, in fixed point (a multiple of `SINE_SCALE`).
pub open spec fn cos_spec(angle: int) -> int {
    SINE_SCALE * sine_of_step((angle / ANGLE_STEP as int + 256) % 1024)
}

fn sine_step(s: i64) -> (r: i64)
    requires
        0 <= s < 1024,
    ensures
        r == sine_of_step(s as int),
        -65536 < r < 65536,
{
    let q = s / 256;
    let rem = s % 256;
    if q == 0 {
        quarter_sine(rem as usize)
    } else if q == 1 {
        quarter_sine((256 - rem) as usize)
    } else if q == 2 {
        -quarter_sine(rem as usize)
    } else {
        -quarter_sine((256 - rem) as usize)
    }
}

/// The sine of a binary angle in `[0, TURN)`, in fixed point.
pub fn unit_sin(angle: i64) -> (r: i64)
    requires
        0 <= angle < TURN,
    ensures
        r == sin_spec(angle as int),
        r % SINE_SCALE == 0,
        -SINE_SCALE * 65536 < r < SINE_SCALE * 65536,
{
    let s = sine_step((angle / ANGLE_STEP) % 1024);
    SINE_SCALE * s
}

/// The cosine of a binary angle in `[0, TURN)`, in fixed point.
pub fn unit_cos(angle: i64) -> (r: i64)
    requires
        0 <= angle < TURN,
    ensures
        r == cos_spec(angle as int),
        r % SINE_SCALE == 0,
        -SINE_SCALE * 65536 < r < SINE_SCALE * 65536,
{
    let s = sine_step((angle / ANGLE_STEP + 256) % 1024);
    SINE_SCALE * s
}

/// `angle + delta` brought into `[0, TURN)`.
pub fn add_angle(angle: i64, delta: i64) -> (r: i64)
    requires
        0 <= angle < TURN,
        -0x4000_0000_0000_0000 <= delta <= 0x4000_0000_0000_0000,
    ensures
        r == wrap_angle(angle + delta),
        0 <= r < TURN,
{
    let a = angle + delta;
    if a >= 0 {
        a % TURN
    } else {
        let r = TURN - 1 - ((-a - 1) % TURN);
        assert(r == wrap_angle(a as int)) by {
            let m = -(a as int) - 1;
            let k = m / (TURN as int);
            assert(m == k * TURN + m % (TURN as int));
            assert(a == (-k - 1) * TURN + r);
        }
        r
    }
}

/// `r` is the floor of the square root of `n`.
pub open spec fn is_sqrt(n: int, r: int) -> bool {
    0 <= r && r * r <= n < (r + 1) * (r + 1)
}

/// The floor of the square root of `n`.
pub open spec fn sqrt_floor(n: int) -> int {
    choose|r: int| is_sqrt(n, r)
}

/// The floor of a square root is unique, so `sqrt_floor` names it.
pub proof fn lemma_sqrt_floor(n: int, r: int)
    requires
        is_sqrt(n, r),
    ensures
        sqrt_floor(n) == r,
{
    let q = sqrt_floor(n);
    assert(is_sqrt(n, q));
    if q < r {
        assert((q + 1) * (q + 1) <= r * r) by (nonlinear_arith)
            requires
                0 <= q < r,
        ;
    } else if r < q {
        assert((r + 1) * (r + 1) <= q * q) by (nonlinear_arith)
            requires
                0 <= r < q,
        ;
    }
}

/// The integer square root: the largest `r` with `r * r <= n`.
pub fn isqrt(n: u128) -> (r: u64)
    ensures
        r * r <= n,
        n < (r + 1) * (r + 1),
        r == sqrt_floor(n as int),
{
    let mut lo: u128 = 0;
    let mut hi: u128 = 0x1_0000_0000_0000_0000;
    proof {
        assert(n < hi * hi) by (nonlinear_arith)
            requires
                hi == 0x1_0000_0000_0000_0000u128,
                n <= u128::MAX,
        ;
    }
    while hi - lo > 1
        invariant
            lo < hi <= 0x1_0000_0000_0000_0000,
            lo * lo <= n,
            n < hi * hi,
        decreases hi - lo,
    {
        let mid = lo + (hi - lo) / 2;
        proof {
            assert(mid * mid < 0x1_0000_0000_0000_0000 * 0x1_0000_0000_0000_0000) by (nonlinear_arith)
                requires
                    mid < 0x1_0000_0000_0000_0000,
            ;
        }
        if mid * mid <= n {
            lo = mid;
        } else {
            hi = mid;
        }
    }
    assert(hi == lo + 1);
    proof {
        lemma_sqrt_floor(n as int, lo as int);
    }
    lo as u64
}

/// Rust's integer division, which rounds toward zero, for a positive divisor.
pub open spec fn tdiv(a: int, b: int) -> int {
    if a >= 0 {
        a / b
    } else {
        -((-a) / b)
    }
}

/// Dividing a value of magnitude at most `m` by `b` gives at most `m / b`.
pub proof fn lemma_tdiv_le(a: int, b: int, m: int)
    requires
        b >= 1,
        -m <= a <= m,
    ensures
        -(m / b) <= tdiv(a, b) <= m / b,
{
    let am = if a >= 0 { a } else { -a };
    vstd::arithmetic::div_mod::lemma_div_is_ordered(am, m, b);
    vstd::arithmetic::div_mod::lemma_div_pos_is_pos(am, b);
}

/// `a / b` rounded toward zero, for a positive divisor.
pub fn div_trunc(a: i64, b: i64) -> (r: i64)
    requires
        b > 0,
        a > i64::MIN,
    ensures
        r == tdiv(a as int, b as int),
{
    if a >= 0 {
        a / b
    } else {
        -((-a) / b)
    }
}

} // verus!
