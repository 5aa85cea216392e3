//! Rounding a fixed-point value outward to a multiple of a step size.

use vstd::prelude::*;
use vstd::arithmetic::div_mod::lemma_fundamental_div_mod;

verus! {

/// Magnitude of a value, as a mathematical integer.
pub open spec fn abs_of(v: int) -> int {
    if v < 0 { -v } else { v }
}

/// `v` rounded up (for `v >= 0`) to the nearest multiple of `m`.
pub open spec fn round_up_to_multiple(v: int, m: int) -> int {
    ((v + m - 1) / m) * m
}

/// `v` rounded away from zero to the nearest multiple of `m`.
pub open spec fn round_away_to_multiple(v: int, m: int) -> int {
    if v < 0 {
        -round_up_to_multiple(-v, m)
    } else {
        round_up_to_multiple(v, m)
    }
}

/// Rounding a value outward to a whole multiple of a positive step.
pub trait RoundToMultiple: Sized {
    /// When the rounding is defined and free of overflow.
    spec fn round_to_multiple_pre(&self, multiple: Self) -> bool;

    /// The exact value the rounding returns.
    spec fn round_to_multiple_spec(&self, multiple: Self) -> Self;

    /// Round `self` away from zero to a multiple of `multiple`.
    fn round_to_multiple(&self, multiple: Self) -> (r: Self)
        requires
            self.round_to_multiple_pre(multiple),
        ensures
            r == self.round_to_multiple_spec(multiple),
    ;
}

impl RoundToMultiple for i64 {
    open spec fn round_to_multiple_pre(&self, multiple: i64) -> bool {
        &&& 0 < multiple
        &&& abs_of(*self as int) + multiple <= i64::MAX
    }

    open spec fn round_to_multiple_spec(&self, multiple: i64) -> i64 {
        round_away_to_multiple(*self as int, multiple as int) as i64
    }

    fn round_to_multiple(&self, multiple: i64) -> (r: i64) {
        let v = *self;
        let mag: i64 = if v < 0 { -v } else { v };
        let q = (mag + multiple - 1) / multiple;
        proof {
            lemma_round_up_bounds(mag as int, multiple as int);
        }
        let rounded = q * multiple;
        if v < 0 {
            -rounded
        } else {
            rounded
        }
    }
}

/// For `v >= 0` and `m > 0`, rounding up stays within one step of `v`.
pub proof fn lemma_round_up_bounds(v: int, m: int)
    requires
        0 <= v,
        0 < m,
    ensures
        round_up_to_multiple(v, m) == ((v + m - 1) / m) * m,
        v <= round_up_to_multiple(v, m) < v + m,
        round_up_to_multiple(v, m) % m == 0,
{
    let x = v + m - 1;
    let q = x / m;
    lemma_fundamental_div_mod(x, m);
    assert(x == m * q + x % m);
    assert(q * m == m * q) by (nonlinear_arith);
    assert(0 <= x % m < m);
    vstd::arithmetic::div_mod::lemma_mod_multiples_basic(q, m);
}

/// A multiple of `m` stays one when negated.
pub proof fn lemma_neg_mod_zero(a: int, m: int)
    requires
        0 < m,
        a % m == 0,
    ensures
        (-a) % m == 0,
{
    lemma_fundamental_div_mod(a, m);
    assert(-a == (-(a / m)) * m) by (nonlinear_arith)
        requires
            a == m * (a / m),
    ;
    vstd::arithmetic::div_mod::lemma_mod_multiples_basic(-(a / m), m);
}

/// A positive multiple of `m` is at least `m`.
pub proof fn lemma_pos_multiple_at_least(a: int, m: int)
    requires
        0 < m,
        0 < a,
        a % m == 0,
    ensures
        m <= a,
{
    vstd::arithmetic::div_mod::lemma_mod_is_zero(a as nat, m as nat);
}

/// Rounding a negative value away from zero moves it down, onto a multiple
/// of `m` no closer to zero than `-m`, and by less than one whole step.
pub proof fn lemma_round_away_neg(v: int, m: int)
    requires
        0 < m,
        v < 0,
    ensures
        round_away_to_multiple(v, m) <= v,
        round_away_to_multiple(v, m) <= -m,
        round_away_to_multiple(v, m) % m == 0,
        v - m < round_away_to_multiple(v, m),
{
    lemma_round_up_bounds(-v, m);
    let r = round_up_to_multiple(-v, m);
    lemma_pos_multiple_at_least(r, m);
    lemma_neg_mod_zero(r, m);
}

/// Rounding a positive value away from zero moves it up, onto a multiple
/// of `m` no closer to zero than `m`, and by less than one whole step.
pub proof fn lemma_round_away_pos(v: int, m: int)
    requires
        0 < m,
        0 < v,
    ensures
        v <= round_away_to_multiple(v, m),
        m <= round_away_to_multiple(v, m),
        round_away_to_multiple(v, m) % m == 0,
        round_away_to_multiple(v, m) < v + m,
{
    lemma_round_up_bounds(v, m);
    lemma_pos_multiple_at_least(round_up_to_multiple(v, m), m);
}

/// The rounding never shrinks a value, lands on an exact multiple of the
/// step, and moves by less than one whole step.
pub proof fn lemma_round_away_props(v: int, m: int)
    requires
        0 < m,
    ensures
        abs_of(round_away_to_multiple(v, m)) >= abs_of(v),
        round_away_to_multiple(v, m) % m == 0,
        abs_of(round_away_to_multiple(v, m)) < abs_of(v) + m,
{
    let mag = abs_of(v);
    lemma_round_up_bounds(mag, m);
    let r = round_up_to_multiple(mag, m);
    if v < 0 {
        let q = (mag + m - 1) / m;
        assert(-r == (-q) * m) by (nonlinear_arith)
            requires r == q * m;
        vstd::arithmetic::div_mod::lemma_mod_multiples_basic(-q, m);
    }
}

} // verus!
