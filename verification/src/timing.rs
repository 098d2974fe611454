//! Rational time bases and the timestamp arithmetic of the pipeline: turning
//! a recovered millisecond reading into presentation-time units of a stream,
//! and rescaling a timestamp from one time base into another with
//! round-to-nearest, ties away from zero.

use vstd::arithmetic::mul::lemma_mul_upper_bound;
use vstd::prelude::*;

verus! {

/// A rational time unit: a stream timestamp of `t` counts `t * num / den`
/// seconds.
#[derive(Clone, Copy, Debug, PartialEq, Eq, Structural)]
pub struct TimeBase {
    pub num: u32,
    pub den: u32,
}

impl TimeBase {
    /// A usable time base has a positive numerator and denominator.
    pub open spec fn wf(self) -> bool {
        self.num >= 1 && self.den >= 1
    }

    pub fn new(num: u32, den: u32) -> (r: TimeBase)
        requires
            num >= 1,
            den >= 1,
        ensures
            r == (TimeBase { num, den }),
            r.wf(),
    {
        TimeBase { num, den }
    }
}

/// Clamps a mathematical integer into the `i64` range.
pub open spec fn clamp_i64(v: int) -> int {
    if v > i64::MAX {
        i64::MAX as int
    } else if v < i64::MIN {
        i64::MIN as int
    } else {
        v
    }
}

/// A millisecond reading `ms` expressed in units of `tb`, rounded toward
/// zero and clamped: `(ms / 1000) / (num / den)`.
pub open spec fn pts_from_ms_spec(ms: nat, tb: TimeBase) -> int
    recommends
        tb.wf(),
{
    clamp_i64((ms * tb.den) as int / (1000 * tb.num) as int)
}

/// Converts a recovered millisecond reading into presentation-time units of
/// the stream with time base `tb`.
pub fn pts_from_ms(ms: u64, tb: TimeBase) -> (r: i64)
    requires
        tb.wf(),
    ensures
        r as int == pts_from_ms_spec(ms as nat, tb),
{
    proof {
        lemma_mul_upper_bound(ms as int, u64::MAX as int, tb.den as int, u32::MAX as int);
    }
    let m: u128 = (ms as u128) * (tb.den as u128);
    let d: u128 = 1000u128 * (tb.num as u128);
    let q: u128 = m / d;
    if q > (i64::MAX as u128) {
        i64::MAX
    } else {
        q as i64
    }
}

/// Division rounded to nearest, ties rounded up (away from zero for a
/// magnitude).
pub open spec fn round_div_near(m: nat, d: nat) -> nat
    recommends
        d >= 1,
{
    m / d + if 2 * (m % d) >= d {
        1nat
    } else {
        0nat
    }
}

/// A timestamp rescaled from time base `from` into time base `to`:
/// `pts * (from.num * to.den) / (from.den * to.num)`, rounded to nearest
/// with ties away from zero, clamped into the `i64` range.
pub open spec fn rescale_spec(pts: int, from: TimeBase, to: TimeBase) -> int
    recommends
        from.wf(),
        to.wf(),
{
    let a = (from.num * to.den) as nat;
    let b = (from.den * to.num) as nat;
    let m = (if pts >= 0 {
        pts
    } else {
        -pts
    }) as nat * a;
    let q = round_div_near(m, b) as int;
    clamp_i64(
        if pts >= 0 {
            q
        } else {
            -q
        },
    )
}

/// Rescales a packet or frame timestamp between two rational time bases,
/// rounding to the nearest unit with ties away from zero.
pub fn rescale_pts(pts: i64, from: TimeBase, to: TimeBase) -> (r: i64)
    requires
        from.wf(),
        to.wf(),
    ensures
        r as int == rescale_spec(pts as int, from, to),
{
    let neg = pts < 0;
    let m0: u128 = if neg {
        (-(pts as i128)) as u128
    } else {
        pts as u128
    };
    proof {
        lemma_mul_upper_bound(from.num as int, u32::MAX as int, to.den as int, u32::MAX as int);
        lemma_mul_upper_bound(from.den as int, u32::MAX as int, to.num as int, u32::MAX as int);
    }
    let a: u128 = (from.num as u128) * (to.den as u128);
    let b: u128 = (from.den as u128) * (to.num as u128);
    proof {
        lemma_mul_upper_bound(m0 as int, 0x8000_0000_0000_0000, a as int, 0xffff_fffe_0000_0001);
        assert(b >= 1) by (nonlinear_arith)
            requires
                b == (from.den as u128) * (to.num as u128),
                from.den >= 1,
                to.num >= 1,
        ;
    }
    let m: u128 = m0 * a;
    let q0: u128 = m / b;
    let rem: u128 = m % b;
    let q: u128 = if 2 * rem >= b {
        q0 + 1
    } else {
        q0
    };
    if neg {
        if q > (i64::MAX as u128) + 1 {
            i64::MIN
        } else {
            (-(q as i128)) as i64
        }
    } else {
        if q > i64::MAX as u128 {
            i64::MAX
        } else {
            q as i64
        }
    }
}

} // verus!
