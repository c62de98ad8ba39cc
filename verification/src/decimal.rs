//! Fixed-point decimal values as the broker reports them, and the decimal
//! arithmetic that portfolio summaries need.
use vstd::prelude::*;

verus! {

/// Largest mantissa magnitude a decimal can hold (96 bits).
pub const MAX_MANTISSA: i128 = 79228162514264337593543950335i128;

/// Largest number of fractional digits a decimal can hold.
pub const MAX_SCALE: u32 = 28u32;

/// A decimal number `mantissa / 10^scale`.
///
/// The value is held exactly as the broker's decimal type holds it: a
/// 96-bit signed mantissa and a scale of at most 28 fractional digits.
/// A zero carries no sign here.
#[derive(Clone, Copy, Debug, PartialEq, Eq, Structural)]
pub struct Decimal {
    pub mantissa: i128,
    pub scale: u32,
}

impl View for Decimal {
    type V = (int, nat);

    open spec fn view(&self) -> (int, nat) {
        (self.mantissa as int, self.scale as nat)
    }
}

/// A mantissa/scale pair that a decimal can hold.
pub open spec fn valid_decimal(d: (int, nat)) -> bool {
    &&& -MAX_MANTISSA <= d.0 <= MAX_MANTISSA
    &&& d.1 <= MAX_SCALE
}

/// `10^n`.
pub open spec fn pow10(n: nat) -> nat
    decreases n,
{
    if n == 0 {
        1
    } else {
        10 * pow10((n - 1) as nat)
    }
}

/// Rounds the quotient `m / d` to the nearest integer, ties to even.
pub open spec fn div_round_half_even(m: nat, d: nat) -> nat {
    let q = m / d;
    let r = m % d;
    if 2 * r > d || (2 * r == d && q % 2 == 1) {
        q + 1
    } else {
        q
    }
}

/// The value of `d` rounded to `dp` fractional digits, midpoints to even.
/// A value with no more than `dp` fractional digits is left as it is; a
/// rounded value has exactly `dp` fractional digits.
pub open spec fn spec_round_dp(d: (int, nat), dp: nat) -> (int, nat) {
    if d.1 <= dp {
        d
    } else {
        let magnitude: nat = if d.0 < 0 { (-d.0) as nat } else { d.0 as nat };
        let rounded = div_round_half_even(magnitude, pow10((d.1 - dp) as nat));
        (if d.0 < 0 { -rounded } else { rounded as int }, dp)
    }
}

/// `10^n` is positive.
pub proof fn lemma_pow10_positive(n: nat)
    ensures
        pow10(n) > 0,
    decreases n,
{
    if n > 0 {
        lemma_pow10_positive((n - 1) as nat);
    }
}

/// Rounding to fewer fractional digits gives the nearest value with that
/// many digits: the rounded value differs from the value by at most half a
/// unit of the last kept digit, it is off by exactly half only where the
/// kept mantissa is even, and it keeps the value's sign.
pub proof fn lemma_round_dp_nearest(d: (int, nat), dp: nat)
    requires
        dp < d.1,
    ensures
        ({
            let k = pow10((d.1 - dp) as nat) as int;
            let r = spec_round_dp(d, dp).0;
            let err = r * k - d.0;
            &&& spec_round_dp(d, dp).1 == dp
            &&& -k <= 2 * err <= k
            &&& (2 * err == k || 2 * err == -k) ==> r % 2 == 0
            &&& d.0 >= 0 ==> r >= 0
            &&& d.0 <= 0 ==> r <= 0
        }),
{
    let k = pow10((d.1 - dp) as nat) as int;
    lemma_pow10_positive((d.1 - dp) as nat);
    let m: int = if d.0 < 0 { -d.0 } else { d.0 };
    let q = m / k;
    let rem = m % k;
    assert(m == k * q + rem && 0 <= rem < k) by {
        vstd::arithmetic::div_mod::lemma_fundamental_div_mod(m, k);
        vstd::arithmetic::div_mod::lemma_mod_pos_bound(m, k);
    }
    assert(q >= 0) by (nonlinear_arith)
        requires
            m >= 0,
            k > 0,
            q == m / k,
    ;
    let rounded = div_round_half_even(m as nat, k as nat) as int;
    assert(rounded == if 2 * rem > k || (2 * rem == k && q % 2 == 1) {
        q + 1
    } else {
        q
    });
    let e = rounded * k - m;
    if rounded == q + 1 {
        assert(e == k - rem) by (nonlinear_arith)
            requires
                rounded == q + 1,
                m == k * q + rem,
                e == rounded * k - m,
        ;
    } else {
        assert(e == -rem) by (nonlinear_arith)
            requires
                rounded == q,
                m == k * q + rem,
                e == rounded * k - m,
        ;
    }
    assert(-k <= 2 * e <= k);
    assert((2 * e == k || 2 * e == -k) ==> rounded % 2 == 0);
    let r = spec_round_dp(d, dp).0;
    if d.0 < 0 {
        assert(r == -rounded);
        assert(r * k - d.0 == -e) by (nonlinear_arith)
            requires
                r == -rounded,
                d.0 == -m,
                e == rounded * k - m,
        ;
        assert(rounded % 2 == 0 ==> r % 2 == 0);
    } else {
        assert(r == rounded);
    }
}

/// The view of an optional decimal.
pub open spec fn opt_view(o: Option<Decimal>) -> Option<(int, nat)> {
    match o {
        Some(d) => Some(d@),
        None => None,
    }
}

/// What the broker's decimal type gives for `a + b`: `None` on overflow.
pub uninterp spec fn decimal_checked_add(a: (int, nat), b: (int, nat)) -> Option<(int, nat)>;

/// What the broker's decimal type gives for `a * b`: `None` on overflow.
pub uninterp spec fn decimal_checked_mul(a: (int, nat), b: (int, nat)) -> Option<(int, nat)>;

/// What the broker's decimal type gives for `a / b`: `None` on overflow or
/// when `b` is zero.
pub uninterp spec fn decimal_checked_div(a: (int, nat), b: (int, nat)) -> Option<(int, nat)>;

impl Decimal {
    /// Whether the value is a decimal that the broker's type can hold.
    pub open spec fn wf(&self) -> bool {
        valid_decimal(self@)
    }

    /// The decimal `mantissa / 10^scale`.
    pub fn new(mantissa: i128, scale: u32) -> (d: Decimal)
        ensures
            d@ == (mantissa as int, scale as nat),
    {
        Decimal { mantissa, scale }
    }

    /// Whether the value is zero.
    pub fn is_zero(&self) -> (b: bool)
        ensures
            b == (self.mantissa == 0),
    {
        self.mantissa == 0
    }

    /// Rounds to `dp` fractional digits, midpoints to even.
    pub fn round_dp(&self, dp: u32) -> (r: Decimal)
        requires
            self.wf(),
        ensures
            r@ == spec_round_dp(self@, dp as nat),
            r.wf(),
    {
        decimal_round_dp(*self, dp)
    }
}

/// Calls `rust_decimal::Decimal::checked_add`. Its result is named
/// `decimal_checked_add`; a result that it gives is a valid decimal.
#[verifier::external_body]
pub(crate) fn decimal_add(a: Decimal, b: Decimal) -> (r: Option<Decimal>)
    requires
        a.wf(),
        b.wf(),
    ensures
        opt_view(r) == decimal_checked_add(a@, b@),
        r matches Some(d) ==> d.wf(),
{
    let x = rust_decimal::Decimal::from_i128_with_scale(a.mantissa, a.scale);
    let y = rust_decimal::Decimal::from_i128_with_scale(b.mantissa, b.scale);
    x.checked_add(y).map(|d| Decimal { mantissa: d.mantissa(), scale: d.scale() })
}

/// Calls `rust_decimal::Decimal::checked_mul`. Its result is named
/// `decimal_checked_mul`; a result that it gives is a valid decimal.
#[verifier::external_body]
pub(crate) fn decimal_mul(a: Decimal, b: Decimal) -> (r: Option<Decimal>)
    requires
        a.wf(),
        b.wf(),
    ensures
        opt_view(r) == decimal_checked_mul(a@, b@),
        r matches Some(d) ==> d.wf(),
{
    let x = rust_decimal::Decimal::from_i128_with_scale(a.mantissa, a.scale);
    let y = rust_decimal::Decimal::from_i128_with_scale(b.mantissa, b.scale);
    x.checked_mul(y).map(|d| Decimal { mantissa: d.mantissa(), scale: d.scale() })
}

/// Calls `rust_decimal::Decimal::checked_div`. Its result is named
/// `decimal_checked_div`; it is `None` for a zero divisor, and a result that
/// it gives is a valid decimal.
#[verifier::external_body]
pub(crate) fn decimal_div(a: Decimal, b: Decimal) -> (r: Option<Decimal>)
    requires
        a.wf(),
        b.wf(),
    ensures
        opt_view(r) == decimal_checked_div(a@, b@),
        b.mantissa == 0 ==> r is None,
        r matches Some(d) ==> d.wf(),
{
    let x = rust_decimal::Decimal::from_i128_with_scale(a.mantissa, a.scale);
    let y = rust_decimal::Decimal::from_i128_with_scale(b.mantissa, b.scale);
    x.checked_div(y).map(|d| Decimal { mantissa: d.mantissa(), scale: d.scale() })
}

/// Calls `rust_decimal::Decimal::round_dp`, which rounds to `dp` fractional
/// digits with midpoints to even and leaves values with fewer digits unchanged.
#[verifier::external_body]
fn decimal_round_dp(d: Decimal, dp: u32) -> (r: Decimal)
    requires
        d.wf(),
    ensures
        r@ == spec_round_dp(d@, dp as nat),
        r.wf(),
{
    let rounded = rust_decimal::Decimal::from_i128_with_scale(d.mantissa, d.scale).round_dp(dp);
    Decimal { mantissa: rounded.mantissa(), scale: rounded.scale() }
}

} // verus!
