//! Money amounts of the input, kept to four decimal places.
use vstd::prelude::*;

verus! {

/// The largest magnitude of a decimal's mantissa: 96 bits.
pub const MAX_MANTISSA: i128 = 0xffff_ffff_ffff_ffff_ffff_ffff;

/// The largest scale (digits after the point) of a decimal.
pub const MAX_SCALE: u32 = 28;

/// Ten to the power `e`.
pub open spec fn pow10(e: nat) -> nat
    decreases e,
{
    if e == 0 {
        1
    } else {
        10 * pow10((e - 1) as nat)
    }
}

/// The number of ten-thousandths in `mantissa / 10^scale`, truncated toward
/// zero.
pub open spec fn ticks_of(mantissa: nat, scale: nat) -> nat {
    (mantissa * 10000) / pow10(scale)
}

/// The largest number of ten-thousandths an amount can hold: the largest
/// decimal mantissa, at scale zero.
pub const MAX_TICKS: u128 = 792281625142643375935439503350000;

/// A non-negative amount of money, counted in ten-thousandths.
#[derive(Debug, Clone, Copy, PartialEq, Eq, Structural)]
pub struct Amount(u128);

impl Amount {
    /// No amount exceeds what a decimal can hold.
    #[verifier::type_invariant]
    spec fn within_range(self) -> bool {
        self.0 <= MAX_TICKS
    }

    /// The number of ten-thousandths of this amount.
    pub closed spec fn value(self) -> nat {
        self.0 as nat
    }

    /// The number of ten-thousandths of this amount.
    pub fn ticks(&self) -> (t: u128)
        ensures
            t == self.value(),
            t <= MAX_TICKS,
    {
        proof {
            use_type_invariant(self);
        }
        self.0
    }

    /// The amount of `t` ten-thousandths, where an amount can hold it.
    pub fn from_ticks(t: u128) -> (r: Option<Amount>)
        ensures
            match r {
                Some(a) => t <= MAX_TICKS && a.value() == t,
                None => t > MAX_TICKS,
            },
    {
        if t <= MAX_TICKS {
            Some(Amount(t))
        } else {
            None
        }
    }
}

/// Why a decimal is not an amount.
#[derive(Debug, Clone, Copy, PartialEq, Eq, Structural)]
pub enum AmountError {
    Negative,
}

impl AmountError {
    /// The message of this error.
    pub fn message(&self) -> (m: &'static str)
        ensures
            m@ == "amount must be non-negative"@,
    {
        "amount must be non-negative"
    }
}

proof fn lemma_pow10_adds(a: nat, b: nat)
    ensures
        pow10(a + b) == pow10(a) * pow10(b),
    decreases a,
{
    if a > 0 {
        lemma_pow10_adds((a - 1) as nat, b);
        assert(pow10(a + b) == 10 * pow10((a - 1 + b) as nat));
        let p = pow10((a - 1) as nat);
        let q = pow10(b);
        assert(10 * (p * q) == (10 * p) * q) by (nonlinear_arith);
        assert(pow10(a) == 10 * p);
    } else {
        assert(pow10(0) == 1);
        assert(a + b == b);
    }
}

proof fn lemma_pow10_bounds(e: nat)
    requires
        e <= 28,
    ensures
        1 <= pow10(e) <= pow10(28),
    decreases 28 - e,
{
    if e < 28 {
        lemma_pow10_bounds(e + 1);
        assert(pow10(e + 1) == 10 * pow10(e));
    } else {
        lemma_pow10_positive(e);
    }
}

proof fn lemma_pow10_positive(e: nat)
    ensures
        pow10(e) >= 1,
    decreases e,
{
    if e > 0 {
        lemma_pow10_positive((e - 1) as nat);
    }
}

/// Ten to the power `e`, for the scales a decimal can have.
fn pow10_exec(e: u32) -> (p: u128)
    requires
        e <= MAX_SCALE,
    ensures
        p == pow10(e as nat),
{
    proof {
        reveal_with_fuel(pow10, 29);
        assert(pow10(28) == 10_000_000_000_000_000_000_000_000_000);
    }
    let mut p: u128 = 1;
    let mut i: u32 = 0;
    while i < e
        invariant
            i <= e <= 28,
            p == pow10(i as nat),
            pow10(28) == 10_000_000_000_000_000_000_000_000_000,
        decreases e - i,
    {
        proof {
            lemma_pow10_bounds((i + 1) as nat);
        }
        p = p * 10;
        i = i + 1;
    }
    p
}

impl Amount {
    /// The amount that the decimal `mantissa / 10^scale` gives: refused when
    /// negative, else truncated toward zero to four decimal places.
    pub fn from_decimal_parts(mantissa: i128, scale: u32) -> (r: Result<Amount, AmountError>)
        requires
            -MAX_MANTISSA <= mantissa <= MAX_MANTISSA,
            scale <= MAX_SCALE,
        ensures
            match r {
                Ok(a) => mantissa >= 0 && a.value() == ticks_of(mantissa as nat, scale as nat),
                Err(e) => mantissa < 0 && e == AmountError::Negative,
            },
    {
        if mantissa < 0 {
            return Err(AmountError::Negative);
        }
        let m = mantissa as u128;
        if scale <= 4 {
            let factor = pow10_exec(4 - scale);
            proof {
                lemma_pow10_adds(scale as nat, (4 - scale) as nat);
                lemma_pow10_bounds((4 - scale) as nat);
                lemma_pow10_positive(scale as nat);
                reveal_with_fuel(pow10, 5);
                assert(pow10(4) == 10000);
                assert(m * factor <= MAX_MANTISSA * 10000) by (nonlinear_arith)
                    requires
                        m <= MAX_MANTISSA,
                        factor <= 10000,
                ;
                let ps = pow10(scale as nat) as int;
                let mi = m as int;
                let fi = factor as int;
                assert(mi * 10000 == (mi * fi) * ps) by (nonlinear_arith)
                    requires
                        10000 == ps * fi,
                ;
                assert((mi * 10000) / ps == mi * fi) by {
                    vstd::arithmetic::div_mod::lemma_div_by_multiple(mi * fi, ps);
                }
            }
            Ok(Amount(m * factor))
        } else {
            let divisor = pow10_exec(scale - 4);
            proof {
                lemma_pow10_adds(4, (scale - 4) as nat);
                lemma_pow10_positive((scale - 4) as nat);
                reveal_with_fuel(pow10, 5);
                assert(pow10(4) == 10000);
                let d = pow10((scale - 4) as nat) as int;
                let mi = m as int;
                assert((mi * 10000) / (10000 * d) == mi / d) by {
                    vstd::arithmetic::div_mod::lemma_div_multiples_vanish_quotient(
                        10000,
                        mi,
                        d,
                    );
                }
            }
            proof {
                assert(m / divisor <= m) by (nonlinear_arith)
                    requires
                        divisor >= 1,
                ;
            }
            Ok(Amount(m / divisor))
        }
    }
}

/// Truncation to four places: the amount a decimal gives is at most the
/// decimal, and less than one ten-thousandth below it.
pub proof fn lemma_truncation_bounds(mantissa: nat, scale: nat)
    ensures
        ticks_of(mantissa, scale) * pow10(scale) <= mantissa * 10000,
        mantissa * 10000 < (ticks_of(mantissa, scale) + 1) * pow10(scale),
{
    lemma_pow10_positive(scale);
    let p = pow10(scale) as int;
    let n = (mantissa * 10000) as int;
    vstd::arithmetic::div_mod::lemma_fundamental_div_mod(n, p);
    vstd::arithmetic::div_mod::lemma_mod_bound(n, p);
    let q = n / p;
    assert(q * p == p * q) by (nonlinear_arith);
    assert((q + 1) * p == q * p + p) by (nonlinear_arith);
}

/// A decimal with at most four places keeps its value exactly.
pub proof fn lemma_four_places_kept(mantissa: nat, scale: nat)
    requires
        scale <= 4,
    ensures
        ticks_of(mantissa, scale) == mantissa * pow10((4 - scale) as nat),
{
    lemma_pow10_adds(scale, (4 - scale) as nat);
    lemma_pow10_positive(scale);
    reveal_with_fuel(pow10, 5);
    assert(pow10(4) == 10000);
    let ps = pow10(scale) as int;
    let fi = pow10((4 - scale) as nat) as int;
    let mi = mantissa as int;
    assert(mi * 10000 == (mi * fi) * ps) by (nonlinear_arith)
        requires
            10000 == ps * fi,
    ;
    vstd::arithmetic::div_mod::lemma_div_by_multiple(mi * fi, ps);
}

/// Reading an amount again, as a decimal of four places, gives it back.
pub proof fn lemma_amount_reread(mantissa: nat, scale: nat)
    ensures
        ticks_of(ticks_of(mantissa, scale), 4) == ticks_of(mantissa, scale),
{
    let t = ticks_of(mantissa, scale);
    lemma_four_places_kept(t, 4);
    assert(pow10(0) == 1);
    assert((4 - 4) as nat == 0);
    assert(t * pow10(0) == t);
}

} // verus!
