use vstd::prelude::*;
use crate::units::AMP_ONE;

verus! {

/// The waveform of an oscillator.
#[derive(Clone, Copy, Debug, PartialEq, Eq, Structural)]
pub enum NoteShape {
    Sine,
    SineSquared,
    Saw,
    Triangle,
}

/// The largest number of steps a turn is ever split into.
pub const MAX_TURN_STEPS: u64 = 4_294_967_295_000_000;

/// The sine of half a turn, `a / d` of the way through it, in amplitude units.
///
/// The sine is taken by Bhaskara's rational form,
/// `16 h (1 - h) / (5 - 4 h (1 - h))` for `h = a / d`, rounded down. The form is
/// exact at the zeros, at the peak and a twelfth of a turn from each zero; between
/// these it is never further than 0.0017 of full scale from the true sine.
pub open spec fn half_sine(a: int, d: int) -> int {
    let p = a * (d - a);
    (16 * AMP_ONE * p) / (5 * d * d - 4 * p)
}

/// The sine `n / d` of the way through a turn, by Bhaskara's form: the second half
/// mirrors the first. It is never further than 0.0017 of full scale from the true
/// sine.
pub open spec fn sine_value(n: int, d: int) -> int {
    if 2 * n < d {
        half_sine(2 * n, d)
    } else {
        -half_sine(2 * n - d, d)
    }
}

/// The squared sine, keeping the sign of the sine.
pub open spec fn sine_squared_value(n: int, d: int) -> int {
    let s = sine_value(n, d);
    if s >= 0 {
        (s * s) / (AMP_ONE as int)
    } else {
        -((s * s) / (AMP_ONE as int))
    }
}

/// A ramp from -0.5 up to 0.5 over the turn.
pub open spec fn saw_value(n: int, d: int) -> int {
    (AMP_ONE * n) / d - AMP_ONE / 2
}

/// Three straight pieces that meet at a quarter and at three quarters of the turn:
/// a rise from -1, a fall from 1 to -1, and a rise from -1 again.
pub open spec fn triangle_value(n: int, d: int) -> int {
    let q = (4 * AMP_ONE * n) / d;
    if 4 * n < d {
        q - AMP_ONE
    } else if 4 * n < 3 * d {
        2 * AMP_ONE - q
    } else {
        q - 4 * AMP_ONE
    }
}

/// The value of a waveform `n / d` of the way through a turn.
pub open spec fn shape_value(shape: NoteShape, n: int, d: int) -> int {
    match shape {
        NoteShape::Sine => sine_value(n, d),
        NoteShape::SineSquared => sine_squared_value(n, d),
        NoteShape::Saw => saw_value(n, d),
        NoteShape::Triangle => triangle_value(n, d),
    }
}

/// The name of a waveform, as it is shown to a player.
pub open spec fn shape_name(shape: NoteShape) -> Seq<char> {
    match shape {
        NoteShape::Sine => "Sine"@,
        NoteShape::SineSquared => "SineSquared"@,
        NoteShape::Saw => "Saw"@,
        NoteShape::Triangle => "Triangle"@,
    }
}

impl NoteShape {
    /// The name of this waveform.
    pub fn name(&self) -> (r: String)
        ensures
            r@ == shape_name(*self),
    {
        match self {
            NoteShape::Sine => "Sine".to_owned(),
            NoteShape::SineSquared => "SineSquared".to_owned(),
            NoteShape::Saw => "Saw".to_owned(),
            NoteShape::Triangle => "Triangle".to_owned(),
        }
    }
}

fn half_sine_of(a: u64, d: u64) -> (v: i64)
    requires
        a < d <= MAX_TURN_STEPS,
    ensures
        v == half_sine(a as int, d as int),
        0 <= v <= AMP_ONE,
{
    let wide_a: u128 = a as u128;
    let wide_d: u128 = d as u128;
    proof {
        lemma_half_sine_bounds(a as int, d as int);
        assert(d as int * d as int <= 18446744065119617025000000000000) by (nonlinear_arith)
            requires
                0 < d <= 4_294_967_295_000_000,
        ;
        assert(5 * (d as int) * (d as int) == 5 * (d as int * d as int)) by (nonlinear_arith);
    }
    let p: u128 = wide_a * (wide_d - wide_a);
    let dd: u128 = wide_d * wide_d;
    assert(4 * p <= dd && dd <= 18446744065119617025000000000000);
    assert(16_000_000 * (p as int) <= 73786976260478468100000000000000000000int) by (nonlinear_arith)
        requires
            4 * p <= dd,
            dd <= 18446744065119617025000000000000int,
    ;
    let den: u128 = 5 * dd - 4 * p;
    let num: u128 = 16_000_000 * p;
    (num / den) as i64
}

fn sine_of(n: u64, d: u64) -> (v: i64)
    requires
        n < d <= MAX_TURN_STEPS,
    ensures
        v == sine_value(n as int, d as int),
        -AMP_ONE <= v <= AMP_ONE,
{
    if n < d - n {
        half_sine_of(2 * n, d)
    } else {
        -half_sine_of(n - (d - n), d)
    }
}

/// The value of `shape`, `n / d` of the way through a turn, in amplitude units.
pub fn waveform(shape: NoteShape, n: u64, d: u64) -> (v: i64)
    requires
        n < d <= MAX_TURN_STEPS,
    ensures
        v == shape_value(shape, n as int, d as int),
        -AMP_ONE <= v <= AMP_ONE,
{
    proof {
        lemma_shape_value_bounds(shape, n as int, d as int);
    }
    match shape {
        NoteShape::Sine => sine_of(n, d),
        NoteShape::SineSquared => {
            let s: i64 = sine_of(n, d);
            proof {
                lemma_square_bounds(s as int);
            }
            if s >= 0 {
                (s * s) / AMP_ONE
            } else {
                -((s * s) / AMP_ONE)
            }
        },
        NoteShape::Saw => {
            proof {
                lemma_ramp_bounds(AMP_ONE as int, n as int, d as int);
            }
            let q: u128 = (1_000_000 * (n as u128)) / (d as u128);
            (q as i64) - AMP_ONE / 2
        },
        NoteShape::Triangle => {
            proof {
                lemma_ramp_bounds(4 * AMP_ONE, n as int, d as int);
            }
            let q: u128 = (4_000_000 * (n as u128)) / (d as u128);
            let wide_n: u128 = n as u128;
            let wide_d: u128 = d as u128;
            if 4 * wide_n < wide_d {
                (q as i64) - AMP_ONE
            } else if 4 * wide_n < 3 * wide_d {
                2 * AMP_ONE - (q as i64)
            } else {
                (q as i64) - 4 * AMP_ONE
            }
        },
    }
}

/// Bhaskara's form never leaves `0 ..= AMP_ONE` on a half turn.
pub proof fn lemma_half_sine_bounds(a: int, d: int)
    requires
        0 <= a < d,
    ensures
        0 <= half_sine(a, d) <= AMP_ONE,
        5 * d * d - 4 * (a * (d - a)) > 0,
        0 <= a * (d - a),
        4 * (a * (d - a)) <= d * d,
{
    let p = a * (d - a);
    let den = 5 * d * d - 4 * p;
    let num = 16 * AMP_ONE * p;
    let dd = d * d;
    assert(0 <= p && 4 * p <= dd && dd > 0) by (nonlinear_arith)
        requires
            0 <= a < d,
            p == a * (d - a),
            dd == d * d,
    ;
    assert(5 * d * d == 5 * dd) by (nonlinear_arith)
        requires
            dd == d * d,
    ;
    assert(num == 16_000_000 * p);
    assert(AMP_ONE * den == 1_000_000 * den);
    assert(0 <= num <= AMP_ONE * den);
    vstd::arithmetic::div_mod::lemma_fundamental_div_mod(num, den);
    vstd::arithmetic::div_mod::lemma_mod_bound(num, den);
    let q = num / den;
    assert(0 <= q <= AMP_ONE) by (nonlinear_arith)
        requires
            den > 0,
            0 <= num <= AMP_ONE * den,
            num == den * q + num % den,
            0 <= num % den < den,
    ;
}

/// Every waveform stays within full scale.
pub proof fn lemma_shape_value_bounds(shape: NoteShape, n: int, d: int)
    requires
        0 <= n < d,
    ensures
        -AMP_ONE <= shape_value(shape, n, d) <= AMP_ONE,
{
    match shape {
        NoteShape::Sine => {
            lemma_sine_bounds(n, d);
        },
        NoteShape::SineSquared => {
            lemma_sine_bounds(n, d);
            let s = sine_value(n, d);
            lemma_square_bounds(s);
        },
        NoteShape::Saw => {
            lemma_ramp_bounds(AMP_ONE as int, n, d);
        },
        NoteShape::Triangle => {
            lemma_ramp_bounds(4 * AMP_ONE, n, d);
            let q = (4 * AMP_ONE * n) / d;
            if 4 * n < d {
                assert(q < AMP_ONE) by {
                    lemma_ramp_below(4 * AMP_ONE, n, d, 1, AMP_ONE as int);
                }
            } else if 4 * n < 3 * d {
                assert(q >= AMP_ONE) by {
                    lemma_ramp_at_least(4 * AMP_ONE, n, d, AMP_ONE as int);
                }
                assert(q < 3 * AMP_ONE) by {
                    lemma_ramp_below(4 * AMP_ONE, n, d, 3, AMP_ONE as int);
                }
            } else {
                assert(q >= 3 * AMP_ONE) by {
                    lemma_ramp_at_least(4 * AMP_ONE, n, d, 3 * AMP_ONE);
                }
            }
        },
    }
}

proof fn lemma_sine_bounds(n: int, d: int)
    requires
        0 <= n < d,
    ensures
        -AMP_ONE <= sine_value(n, d) <= AMP_ONE,
{
    if 2 * n < d {
        lemma_half_sine_bounds(2 * n, d);
    } else {
        lemma_half_sine_bounds(2 * n - d, d);
    }
}

proof fn lemma_square_bounds(s: int)
    requires
        -AMP_ONE <= s <= AMP_ONE,
    ensures
        0 <= (s * s) / (AMP_ONE as int) <= AMP_ONE,
        0 <= s * s <= AMP_ONE * AMP_ONE,
{
    assert(0 <= s * s <= AMP_ONE * AMP_ONE) by (nonlinear_arith)
        requires
            -AMP_ONE <= s <= AMP_ONE,
    ;
}

/// `scale * n / d` runs over `0 .. scale` while `n` runs over `0 .. d`.
proof fn lemma_ramp_bounds(scale: int, n: int, d: int)
    requires
        0 <= n < d,
        scale > 0,
    ensures
        0 <= (scale * n) / d < scale,
{
    let num = scale * n;
    assert(0 <= num < scale * d) by (nonlinear_arith)
        requires
            0 <= n < d,
            scale > 0,
            num == scale * n,
    ;
    vstd::arithmetic::div_mod::lemma_fundamental_div_mod(num, d);
    vstd::arithmetic::div_mod::lemma_mod_bound(num, d);
    let q = num / d;
    assert(0 <= q < scale) by (nonlinear_arith)
        requires
            d > 0,
            0 <= num < scale * d,
            num == d * q + num % d,
            0 <= num % d < d,
    ;
}

/// Where `4 n < k d`, the ramp `4 u n / d` is below `k u`.
proof fn lemma_ramp_below(scale: int, n: int, d: int, k: int, u: int)
    requires
        0 <= n < d,
        u > 0,
        scale == 4 * u,
        4 * n < k * d,
    ensures
        (scale * n) / d < k * u,
{
    let num = scale * n;
    assert(num < k * u * d) by (nonlinear_arith)
        requires
            num == scale * n,
            scale == 4 * u,
            u > 0,
            4 * n < k * d,
    ;
    vstd::arithmetic::div_mod::lemma_fundamental_div_mod(num, d);
    vstd::arithmetic::div_mod::lemma_mod_bound(num, d);
    let q = num / d;
    assert(q < k * u) by (nonlinear_arith)
        requires
            d > 0,
            num < k * u * d,
            num == d * q + num % d,
            0 <= num % d < d,
    ;
}

/// Where `scale * n >= low * d`, the ramp `scale * n / d` is at least `low`.
proof fn lemma_ramp_at_least(scale: int, n: int, d: int, low: int)
    requires
        0 <= n < d,
        scale * n >= low * d,
    ensures
        (scale * n) / d >= low,
{
    let num = scale * n;
    vstd::arithmetic::div_mod::lemma_fundamental_div_mod(num, d);
    vstd::arithmetic::div_mod::lemma_mod_bound(num, d);
    let q = num / d;
    assert(q >= low) by (nonlinear_arith)
        requires
            d > 0,
            num >= low * d,
            num == d * q + num % d,
            0 <= num % d < d,
    ;
}

} // verus!
