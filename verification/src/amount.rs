//! Exact decimal amounts: a signed 96-bit integer of digits and a scale, the
//! number of those digits that stand behind the decimal point.

use vstd::arithmetic::power::pow;
use vstd::prelude::*;

verus! {

/// The largest magnitude of an amount's digits: `2^96 - 1`.
pub const MAX_MANTISSA: i128 = 79_228_162_514_264_337_593_543_950_335;

/// The largest number of digits behind the decimal point.
pub const MAX_SCALE: u32 = 28;

/// The mathematical decimal `mantissa / 10^scale`, with unbounded digits.
pub struct AmountView {
    pub mantissa: int,
    pub scale: nat,
}

impl AmountView {
    /// The scale is one that an amount can have.
    pub open spec fn wf(self) -> bool {
        self.scale <= MAX_SCALE
    }

    /// The digits fit into 96 bits, and the scale is one that an amount can have.
    pub open spec fn in_range(self) -> bool {
        &&& -MAX_MANTISSA <= self.mantissa <= MAX_MANTISSA
        &&& self.scale <= MAX_SCALE
    }

    /// The number that this decimal stands for, counted in units of `10^-28`.
    pub open spec fn value(self) -> int
        recommends
            self.wf(),
    {
        self.mantissa * pow(10, (MAX_SCALE - self.scale) as nat)
    }

    /// The digits of this decimal when it is written with `scale` digits
    /// behind the point.
    pub open spec fn digits_at(self, scale: nat) -> int
        recommends
            self.scale <= scale,
    {
        self.mantissa * pow(10, (scale - self.scale) as nat)
    }

    /// The larger of the two scales.
    pub open spec fn common_scale(self, other: AmountView) -> nat {
        if self.scale >= other.scale {
            self.scale
        } else {
            other.scale
        }
    }

    /// The same magnitude with the opposite sign.
    pub open spec fn negated(self) -> AmountView {
        AmountView { mantissa: -self.mantissa, scale: self.scale }
    }

    /// The exact sum. A zero operand leaves the other one as it is written;
    /// otherwise the sum is written at the larger of the two scales.
    pub open spec fn plus(self, other: AmountView) -> AmountView {
        if self.mantissa == 0 {
            other
        } else if other.mantissa == 0 {
            self
        } else {
            let scale = self.common_scale(other);
            AmountView { mantissa: self.digits_at(scale) + other.digits_at(scale), scale }
        }
    }

    /// The exact difference. Zero minus a decimal is that decimal negated, a
    /// decimal minus zero is itself; otherwise the difference is written at the
    /// larger of the two scales.
    pub open spec fn minus(self, other: AmountView) -> AmountView {
        if self.mantissa == 0 {
            other.negated()
        } else if other.mantissa == 0 {
            self
        } else {
            let scale = self.common_scale(other);
            AmountView { mantissa: self.digits_at(scale) - other.digits_at(scale), scale }
        }
    }

    /// The exact sum can be held in 96 bits: one operand is zero, or both
    /// operands and their sum fit when written at the larger scale.
    pub open spec fn plus_fits(self, other: AmountView) -> bool {
        ||| self.mantissa == 0
        ||| other.mantissa == 0
        ||| {
            let scale = self.common_scale(other);
            &&& fits_96_bits(self.digits_at(scale))
            &&& fits_96_bits(other.digits_at(scale))
            &&& fits_96_bits(self.digits_at(scale) + other.digits_at(scale))
        }
    }

    /// The exact difference can be held in 96 bits: one operand is zero, or
    /// both operands and their difference fit when written at the larger scale.
    pub open spec fn minus_fits(self, other: AmountView) -> bool {
        ||| self.mantissa == 0
        ||| other.mantissa == 0
        ||| {
            let scale = self.common_scale(other);
            &&& fits_96_bits(self.digits_at(scale))
            &&& fits_96_bits(other.digits_at(scale))
            &&& fits_96_bits(self.digits_at(scale) - other.digits_at(scale))
        }
    }
}

/// `digits` is the mantissa of some amount.
pub open spec fn fits_96_bits(digits: int) -> bool {
    -MAX_MANTISSA <= digits <= MAX_MANTISSA
}

/// Writing a decimal at a larger scale does not change its value.
pub proof fn lemma_digits_at_value(a: AmountView, scale: nat)
    requires
        a.scale <= scale <= MAX_SCALE,
    ensures
        a.digits_at(scale) * pow(10, (MAX_SCALE - scale) as nat) == a.value(),
{
    let up = (scale - a.scale) as nat;
    let rest = (MAX_SCALE - scale) as nat;
    vstd::arithmetic::power::lemma_pow_adds(10, up, rest);
    assert(up + rest == (MAX_SCALE - a.scale) as nat);
    vstd::arithmetic::mul::lemma_mul_is_associative(a.mantissa, pow(10, up), pow(10, rest));
}

/// The sum of two decimals stands for the sum of their values.
pub proof fn lemma_plus_value(a: AmountView, b: AmountView)
    requires
        a.wf(),
        b.wf(),
    ensures
        a.plus(b).wf(),
        a.plus(b).value() == a.value() + b.value(),
{
    if a.mantissa != 0 && b.mantissa != 0 {
        let scale = a.common_scale(b);
        let rest = pow(10, (MAX_SCALE - scale) as nat);
        lemma_digits_at_value(a, scale);
        lemma_digits_at_value(b, scale);
        vstd::arithmetic::mul::lemma_mul_is_distributive_add_other_way(
            rest,
            a.digits_at(scale),
            b.digits_at(scale),
        );
    }
}

/// The difference of two decimals stands for the difference of their values.
pub proof fn lemma_minus_value(a: AmountView, b: AmountView)
    requires
        a.wf(),
        b.wf(),
    ensures
        a.minus(b).wf(),
        a.minus(b).value() == a.value() - b.value(),
{
    if a.mantissa == 0 {
        vstd::arithmetic::mul::lemma_mul_unary_negation(
            b.mantissa,
            pow(10, (MAX_SCALE - b.scale) as nat),
        );
    } else if b.mantissa != 0 {
        let scale = a.common_scale(b);
        let rest = pow(10, (MAX_SCALE - scale) as nat);
        lemma_digits_at_value(a, scale);
        lemma_digits_at_value(b, scale);
        vstd::arithmetic::mul::lemma_mul_is_distributive_sub_other_way(
            rest,
            a.digits_at(scale),
            b.digits_at(scale),
        );
    }
}

/// An exact decimal amount of money: `mantissa / 10^scale`.
///
/// Two amounts are equal when they have the same digits and the same scale:
/// `1.0` and `1.00` are two ways to write one value, and `less_than` treats
/// them as one.
#[derive(Clone, Copy, Debug, PartialEq, Eq, Structural)]
pub struct Amount {
    pub mantissa: i128,
    pub scale: u32,
}

impl View for Amount {
    type V = AmountView;

    open spec fn view(&self) -> AmountView {
        AmountView { mantissa: self.mantissa as int, scale: self.scale as nat }
    }
}

impl Amount {
    /// The digits fit into 96 bits and the scale is at most 28.
    pub open spec fn wf(self) -> bool {
        self@.in_range()
    }

    /// The amount `num / 10^scale`.
    pub fn new(num: i64, scale: u32) -> (r: Amount)
        requires
            scale <= MAX_SCALE,
        ensures
            r.wf(),
            r@ == (AmountView { mantissa: num as int, scale: scale as nat }),
    {
        Amount { mantissa: num as i128, scale }
    }

    /// This amount and `other` written at the larger of their scales, or `None`
    /// where one of the two then needs more than 96 bits.
    fn aligned_digits(self, other: Amount) -> (r: Option<(i128, i128)>)
        requires
            self.wf(),
            other.wf(),
        ensures
            ({
                let scale = self@.common_scale(other@);
                let fit = fits_96_bits(self@.digits_at(scale)) && fits_96_bits(
                    other@.digits_at(scale),
                );
                match r {
                    Some((a, b)) => fit && a == self@.digits_at(scale) && b == other@.digits_at(
                        scale,
                    ),
                    None => !fit,
                }
            }),
    {
        let scale: u32 = if self.scale >= other.scale {
            self.scale
        } else {
            other.scale
        };
        match (
            digits_scaled(self.mantissa, scale - self.scale),
            digits_scaled(other.mantissa, scale - other.scale),
        ) {
            (Some(a), Some(b)) => Some((a, b)),
            _ => None,
        }
    }

    /// The exact sum, or `None` where it cannot be held: the call succeeds
    /// exactly when `plus_fits` holds.
    pub fn checked_add(self, other: Amount) -> (r: Option<Amount>)
        requires
            self.wf(),
            other.wf(),
        ensures
            match r {
                Some(sum) => {
                    &&& self@.plus_fits(other@)
                    &&& sum@ == self@.plus(other@)
                    &&& sum@.value() == self@.value() + other@.value()
                    &&& sum.wf()
                },
                None => !self@.plus_fits(other@),
            },
    {
        let fits = self.mantissa == 0 || other.mantissa == 0 || match self.aligned_digits(other) {
            Some((a, b)) => -MAX_MANTISSA <= a + b && a + b <= MAX_MANTISSA,
            None => false,
        };
        if fits {
            proof {
                lemma_plus_value(self@, other@);
            }
            decimal_checked_add(self, other)
        } else {
            None
        }
    }

    /// The exact difference, or `None` where it cannot be held: the call
    /// succeeds exactly when `minus_fits` holds.
    pub fn checked_sub(self, other: Amount) -> (r: Option<Amount>)
        requires
            self.wf(),
            other.wf(),
        ensures
            match r {
                Some(difference) => {
                    &&& self@.minus_fits(other@)
                    &&& difference@ == self@.minus(other@)
                    &&& difference@.value() == self@.value() - other@.value()
                    &&& difference.wf()
                },
                None => !self@.minus_fits(other@),
            },
    {
        let fits = self.mantissa == 0 || other.mantissa == 0 || match self.aligned_digits(other) {
            Some((a, b)) => -MAX_MANTISSA <= a - b && a - b <= MAX_MANTISSA,
            None => false,
        };
        if fits {
            proof {
                lemma_minus_value(self@, other@);
            }
            decimal_checked_sub(self, other)
        } else {
            None
        }
    }

    /// Whether this amount is smaller than `other`, by value: `1.0` is not
    /// smaller than `1.00`.
    pub fn less_than(self, other: Amount) -> (r: bool)
        requires
            self.wf(),
            other.wf(),
        ensures
            r == (self@.value() < other@.value()),
    {
        decimal_less_than(self, other)
    }

    /// Zero with one digit behind the point, the balance of a fresh account.
    pub fn zero() -> (r: Amount)
        ensures
            r.wf(),
            r@ == (AmountView { mantissa: 0, scale: 1 }),
            r@.value() == 0,
    {
        Amount { mantissa: 0, scale: 1 }
    }
}

/// `10^28`, the largest power of ten by which digits are ever scaled.
proof fn lemma_largest_power_of_ten()
    ensures
        pow(10, 28) == 10_000_000_000_000_000_000_000_000_000int,
{
    vstd::arithmetic::power::lemma_pow1(10);
    vstd::arithmetic::power::lemma_pow_adds(10, 1, 1);
    assert(pow(10, 2) == 100);
    vstd::arithmetic::power::lemma_pow_adds(10, 2, 2);
    assert(pow(10, 4) == 10_000);
    vstd::arithmetic::power::lemma_pow_adds(10, 4, 4);
    assert(pow(10, 8) == 100_000_000);
    vstd::arithmetic::power::lemma_pow_adds(10, 8, 8);
    assert(pow(10, 16) == 10_000_000_000_000_000);
    vstd::arithmetic::power::lemma_pow_adds(10, 16, 8);
    assert(pow(10, 24) == 1_000_000_000_000_000_000_000_000);
    vstd::arithmetic::power::lemma_pow_adds(10, 24, 4);
}

/// `10^exponent`.
fn power_of_ten(exponent: u32) -> (r: i128)
    requires
        exponent <= MAX_SCALE,
    ensures
        r == pow(10, exponent as nat),
        1 <= r <= 10_000_000_000_000_000_000_000_000_000,
{
    let mut r: i128 = 1;
    let mut i: u32 = 0;
    proof {
        vstd::arithmetic::power::lemma_pow0(10);
    }
    while i < exponent
        invariant
            i <= exponent <= MAX_SCALE,
            r == pow(10, i as nat),
            1 <= r,
        decreases exponent - i,
    {
        proof {
            lemma_largest_power_of_ten();
            vstd::arithmetic::power::lemma_pow_increases(10, (i + 1) as nat, 28);
            vstd::arithmetic::power::lemma_pow1(10);
            vstd::arithmetic::power::lemma_pow_adds(10, i as nat, 1);
        }
        r = r * 10;
        i = i + 1;
    }
    proof {
        lemma_largest_power_of_ten();
        vstd::arithmetic::power::lemma_pow_increases(10, exponent as nat, 28);
    }
    r
}

/// `mantissa * 10^up`, or `None` where that product needs more than 96 bits.
fn digits_scaled(mantissa: i128, up: u32) -> (r: Option<i128>)
    requires
        fits_96_bits(mantissa as int),
        up <= MAX_SCALE,
    ensures
        match r {
            Some(digits) => digits == mantissa * pow(10, up as nat) && fits_96_bits(digits as int),
            None => !fits_96_bits(mantissa * pow(10, up as nat)),
        },
{
    let power = power_of_ten(up);
    let limit = MAX_MANTISSA / power;
    assert(limit * power <= MAX_MANTISSA < (limit + 1) * power && 0 <= limit) by (nonlinear_arith)
        requires
            limit == MAX_MANTISSA as int / power as int,
            power >= 1,
    ;
    if mantissa > limit || mantissa < -limit {
        assert(!fits_96_bits(mantissa * power)) by (nonlinear_arith)
            requires
                mantissa > limit || mantissa < -limit,
                MAX_MANTISSA < (limit + 1) * power,
                power >= 1,
                limit >= 0,
        ;
        None
    } else {
        assert(fits_96_bits(mantissa * power)) by (nonlinear_arith)
            requires
                -limit <= mantissa <= limit,
                limit * power <= MAX_MANTISSA,
                power >= 1,
        ;
        Some(mantissa * power)
    }
}

/// Calls `rust_decimal::Decimal::checked_add` on the decimals with the digits
/// and scales of `a` and `b`. Trusted: where the exact sum fits as `plus_fits`
/// says, the call returns it, written as `plus` says.
#[verifier::external_body]
fn decimal_checked_add(a: Amount, b: Amount) -> (r: Option<Amount>)
    requires
        a.wf(),
        b.wf(),
        a@.plus_fits(b@),
    ensures
        match r {
            Some(sum) => sum@ == a@.plus(b@),
            None => false,
        },
{
    let x = rust_decimal::Decimal::from_i128_with_scale(a.mantissa, a.scale);
    let y = rust_decimal::Decimal::from_i128_with_scale(b.mantissa, b.scale);
    match x.checked_add(y) {
        Some(d) => Some(Amount { mantissa: d.mantissa(), scale: d.scale() }),
        None => None,
    }
}

/// Calls `rust_decimal::Decimal::checked_sub` on the decimals with the digits
/// and scales of `a` and `b`. Trusted: where the exact difference fits as
/// `minus_fits` says, the call returns it, written as `minus` says.
#[verifier::external_body]
fn decimal_checked_sub(a: Amount, b: Amount) -> (r: Option<Amount>)
    requires
        a.wf(),
        b.wf(),
        a@.minus_fits(b@),
    ensures
        match r {
            Some(difference) => difference@ == a@.minus(b@),
            None => false,
        },
{
    let x = rust_decimal::Decimal::from_i128_with_scale(a.mantissa, a.scale);
    let y = rust_decimal::Decimal::from_i128_with_scale(b.mantissa, b.scale);
    match x.checked_sub(y) {
        Some(d) => Some(Amount { mantissa: d.mantissa(), scale: d.scale() }),
        None => None,
    }
}

/// Compares two decimals with the `<` of `rust_decimal::Decimal`. Trusted: it
/// orders decimals by the numbers they stand for, whatever their scales.
#[verifier::external_body]
fn decimal_less_than(a: Amount, b: Amount) -> (r: bool)
    requires
        a.wf(),
        b.wf(),
    ensures
        r == (a@.value() < b@.value()),
{
    let x = rust_decimal::Decimal::from_i128_with_scale(a.mantissa, a.scale);
    let y = rust_decimal::Decimal::from_i128_with_scale(b.mantissa, b.scale);
    x < y
}

/// What `rust_decimal::Decimal::from_str` makes of a text: the digits and the
/// scale of the decimal that it reads, or `None` where it reads none.
pub uninterp spec fn decimal_from_str(text: Seq<char>) -> Option<AmountView>;

/// Calls `rust_decimal::Decimal::from_str`, through `str::parse`. Trusted: the
/// outcome depends on the text alone, and a decimal that was read has at most
/// 96 bits of digits and a scale of at most 28, as every `Decimal` has.
#[verifier::external_body]
pub(crate) fn parse_decimal(text: &str) -> (r: Option<Amount>)
    ensures
        match r {
            Some(amount) => amount.wf() && decimal_from_str(text@) == Some(amount@),
            None => decimal_from_str(text@) is None,
        },
{
    match text.parse::<rust_decimal::Decimal>() {
        Ok(d) => Some(Amount { mantissa: d.mantissa(), scale: d.scale() }),
        Err(_) => None,
    }
}

} // verus!
