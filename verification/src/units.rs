use vstd::prelude::*;

verus! {

/// Full-scale amplitude: a generator value of `AMP_ONE` stands for 1.0.
pub const AMP_ONE: i64 = 1_000_000;

/// Full-scale volume: a volume of `VOLUME_ONE` stands for 1.0.
pub const VOLUME_ONE: u32 = 100_000_000;

/// Full-scale output: the output of a voice, and the mixed output, stand for 1.0 at
/// `OUTPUT_ONE`. The output has the volume's unit, so that a generator at full
/// scale gives exactly the volume.
pub const OUTPUT_ONE: i64 = 100_000_000;

/// What a rising voice gains per sample (two millionths of full scale).
pub const RISE_STEP: u32 = 200;

/// The volume a freshly triggered voice rises to (0.2 of full scale).
pub const TARGET_VOLUME: u32 = 20_000_000;

/// Of every `DECAY_SCALE` units of volume, a dying voice keeps `DECAY_KEEP` per
/// sample.
pub const DECAY_KEEP: u32 = 99_995;

pub const DECAY_SCALE: u32 = 100_000;

/// What a dying voice loses per sample on top of that.
pub const DECAY_BIAS: u32 = 1;

/// Oscillator frequencies are held in millihertz.
pub const FREQ_SCALE: u32 = 1_000;

/// One turn of an oscillator at sample rate `r` is split into `TURN_SCALE * r` steps.
pub const TURN_SCALE: u64 = 1_000_000;

/// A frequency multiplier of 1.0, in parts per million.
pub const PPM_ONE: i64 = 1_000_000;

/// Tip coordinates are held in thousandths of a device unit.
pub const POSITION_SCALE: i32 = 1_000;

/// Division that rounds toward zero, for a positive divisor.
pub open spec fn div_toward_zero(a: int, b: int) -> int {
    if a >= 0 {
        a / b
    } else {
        -((-a) / b)
    }
}

/// The value `v` held to the range `lo ..= hi`.
pub open spec fn clamp_int(v: int, lo: int, hi: int) -> int {
    if v < lo {
        lo
    } else if v > hi {
        hi
    } else {
        v
    }
}

/// A frequency after it is multiplied by `mult_ppm` millionths: rounded to the
/// nearest unit and held to `1 ..= u32::MAX`, so that it never reaches zero.
pub open spec fn bent_frequency(freq: int, mult_ppm: int) -> int {
    if mult_ppm <= 0 {
        1
    } else {
        clamp_int((freq * mult_ppm + PPM_ONE / 2) / (PPM_ONE as int), 1, u32::MAX as int)
    }
}

/// Multiplies a frequency by `mult_ppm` millionths.
pub fn bend_frequency(freq: u32, mult_ppm: i64) -> (bent: u32)
    ensures
        bent == bent_frequency(freq as int, mult_ppm as int),
        bent >= 1,
{
    if mult_ppm <= 0 {
        1
    } else {
        proof {
            assert(0 <= (freq as int) * (mult_ppm as int) <= 4294967295int * 9223372036854775807int)
                by (nonlinear_arith)
                requires
                    0 <= freq <= 4294967295int,
                    0 < mult_ppm <= 9223372036854775807int,
            ;
        }
        let product: u128 = (freq as u128) * (mult_ppm as u128);
        let rounded: u128 = (product + 500_000) / 1_000_000;
        if rounded < 1 {
            1
        } else if rounded > 4_294_967_295 {
            4_294_967_295
        } else {
            rounded as u32
        }
    }
}

/// Floor division and remainder of a signed number by a positive one.
pub fn floor_div_rem(a: i128, b: i128) -> (r: (i128, i128))
    requires
        b > 0,
    ensures
        r.0 == (a as int) / (b as int),
        r.1 == (a as int) % (b as int),
        0 <= r.1 < b,
{
    proof {
        let x = a as int;
        let d = b as int;
        vstd::arithmetic::div_mod::lemma_fundamental_div_mod(x, d);
        vstd::arithmetic::div_mod::lemma_mod_bound(x, d);
        assert(i128::MIN <= x / d <= i128::MAX) by (nonlinear_arith)
            requires
                d >= 1,
                i128::MIN <= x <= i128::MAX,
                x == d * (x / d) + x % d,
                0 <= x % d < d,
        ;
    }
    let q = a.checked_div_euclid(b);
    let m = a.checked_rem_euclid(b);
    (q.unwrap(), m.unwrap())
}

/// Division of a signed number by a positive one, rounding toward zero.
pub fn quotient_toward_zero(a: i128, b: i128) -> (q: i128)
    requires
        b > 0,
        a > i128::MIN,
    ensures
        q == div_toward_zero(a as int, b as int),
        a >= 0 ==> 0 <= q <= a,
        a <= 0 ==> a <= q <= 0,
{
    if a >= 0 {
        let (q, _m) = floor_div_rem(a, b);
        proof {
            lemma_div_bounds(a as int, b as int);
        }
        q
    } else {
        let (q, _m) = floor_div_rem(-a, b);
        proof {
            lemma_div_bounds(-(a as int), b as int);
        }
        -q
    }
}

/// A non-negative number divided by a positive one lies between zero and itself.
pub proof fn lemma_div_bounds(a: int, b: int)
    requires
        a >= 0,
        b > 0,
    ensures
        0 <= a / b <= a,
{
    vstd::arithmetic::div_mod::lemma_fundamental_div_mod(a, b);
    vstd::arithmetic::div_mod::lemma_mod_pos_bound(a, b);
    assert(0 <= a / b <= a) by (nonlinear_arith)
        requires
            a >= 0,
            b >= 1,
            a == b * (a / b) + a % b,
            0 <= a % b < b,
    ;
}

} // verus!
