use vstd::prelude::*;

verus! {

/// The largest mantissa magnitude a decimal can hold (96 bits).
pub const MAX_MANTISSA: i128 = 0xFFFF_FFFF_FFFF_FFFF_FFFF_FFFF;

/// The largest number of digits after the decimal point.
pub const MAX_SCALE: u32 = 28;

/// `10^n`.
pub open spec fn pow10(n: nat) -> int
    decreases n,
{
    if n == 0 {
        1
    } else {
        10 * pow10((n - 1) as nat)
    }
}

/// A decimal number `mantissa * 10^(-scale)`, held as plain values.
///
/// This is the value that `rust_decimal::Decimal` carries; every computation on it is
/// made by `rust_decimal` itself.
#[derive(Clone, Copy, Debug)]
pub struct Dec {
    pub mantissa: i128,
    pub scale: u32,
}

impl PartialEq for Dec {
    /// Equality by value, as `rust_decimal` compares (`1.0 == 1.00`); two decimals outside
    /// the representable range compare by their parts.
    fn eq(&self, other: &Dec) -> (r: bool) {
        if self.is_valid() && other.is_valid() {
            dec_compare(self, other) == DecOrd::Equal
        } else {
            self.mantissa == other.mantissa && self.scale == other.scale
        }
    }
}

impl vstd::std_specs::cmp::PartialEqSpecImpl for Dec {
    open spec fn obeys_eq_spec() -> bool {
        true
    }

    open spec fn eq_spec(&self, other: &Dec) -> bool {
        if self.valid() && other.valid() {
            self.units() == other.units()
        } else {
            self.mantissa == other.mantissa && self.scale == other.scale
        }
    }
}

impl Eq for Dec {
}

/// The outcome of comparing two decimals by value.
#[derive(Clone, Copy, Debug, PartialEq, Eq, Structural)]
pub enum DecOrd {
    Less,
    Equal,
    Greater,
}

impl Dec {
    /// The representation bounds of a decimal.
    pub open spec fn valid(self) -> bool {
        &&& -MAX_MANTISSA <= self.mantissa <= MAX_MANTISSA
        &&& self.scale <= MAX_SCALE
    }

    /// The value as an integer count of `10^-28`, the finest unit a decimal can express.
    pub open spec fn units(self) -> int {
        self.mantissa * pow10((MAX_SCALE - self.scale) as nat)
    }

    /// Whether the parts are within the representation bounds.
    pub fn is_valid(&self) -> (b: bool)
        ensures
            b == self.valid(),
    {
        -MAX_MANTISSA <= self.mantissa && self.mantissa <= MAX_MANTISSA && self.scale <= MAX_SCALE
    }

    /// `num * 10^(-scale)`.
    pub fn new(num: i64, scale: u32) -> (d: Dec)
        requires
            scale <= MAX_SCALE,
        ensures
            d.valid(),
            d.mantissa == num,
            d.scale == scale,
    {
        Dec { mantissa: num as i128, scale }
    }

    pub fn zero() -> (d: Dec)
        ensures
            d.valid(),
            d.mantissa == 0,
            d.scale == 0,
    {
        Dec { mantissa: 0, scale: 0 }
    }

    /// The largest decimal.
    pub fn max_value() -> (d: Dec)
        ensures
            d.valid(),
            d.mantissa == MAX_MANTISSA,
            d.scale == 0,
    {
        Dec { mantissa: MAX_MANTISSA, scale: 0 }
    }

    /// The smallest decimal.
    pub fn min_value() -> (d: Dec)
        ensures
            d.valid(),
            d.mantissa == -MAX_MANTISSA,
            d.scale == 0,
    {
        Dec { mantissa: -MAX_MANTISSA, scale: 0 }
    }
}

/// Powers of ten are positive.
pub proof fn lemma_pow10_positive(n: nat)
    ensures
        pow10(n) > 0,
    decreases n,
{
    if n > 0 {
        lemma_pow10_positive((n - 1) as nat);
    }
}

impl Dec {
    /// Whether the value is zero or more.
    pub fn is_nonnegative(&self) -> (b: bool)
        ensures
            b == (self.units() >= 0),
    {
        proof {
            lemma_pow10_positive((MAX_SCALE - self.scale) as nat);
            let p = pow10((MAX_SCALE - self.scale) as nat);
            if self.mantissa >= 0 {
                assert(self.mantissa * p >= 0) by (nonlinear_arith)
                    requires
                        self.mantissa >= 0,
                        p > 0,
                ;
            } else {
                assert(self.mantissa * p < 0) by (nonlinear_arith)
                    requires
                        self.mantissa < 0,
                        p > 0,
                ;
            }
        }
        self.mantissa >= 0
    }
}

/// The mantissa of `d` written with `scale` digits after the point (`scale` at least
/// `d.scale`).
pub open spec fn mantissa_at(d: Dec, scale: nat) -> int {
    d.mantissa * pow10((scale - d.scale) as nat)
}

/// The larger of the two scales, the one a sum or difference is aligned to.
pub open spec fn wider_scale(a: Dec, b: Dec) -> nat {
    if a.scale >= b.scale {
        a.scale as nat
    } else {
        b.scale as nat
    }
}

/// What `rust_decimal` returns for `a.checked_add(b)`.
pub uninterp spec fn decimal_checked_add(a: Dec, b: Dec) -> Option<Dec>;

/// What `rust_decimal` returns for `a.checked_sub(b)`.
pub uninterp spec fn decimal_checked_sub(a: Dec, b: Dec) -> Option<Dec>;

/// What `rust_decimal` returns for `a.checked_mul(b)`.
pub uninterp spec fn decimal_checked_mul(a: Dec, b: Dec) -> Option<Dec>;

/// What `rust_decimal` returns for `a.checked_div(b)`.
pub uninterp spec fn decimal_checked_div(a: Dec, b: Dec) -> Option<Dec>;

/// Compares by value through `rust_decimal::Decimal::cmp` (an `Ord` method).
/// Trusted: `cmp` orders the two numbers by their exact values `mantissa * 10^-scale`
/// (it rescales the operand with fewer decimals before comparing mantissas).
#[verifier::external_body]
pub fn dec_compare(a: &Dec, b: &Dec) -> (r: DecOrd)
    requires
        a.valid(),
        b.valid(),
    ensures
        (r == DecOrd::Less) == (a.units() < b.units()),
        (r == DecOrd::Equal) == (a.units() == b.units()),
        (r == DecOrd::Greater) == (a.units() > b.units()),
{
    let x = rust_decimal::Decimal::from_i128_with_scale(a.mantissa, a.scale);
    let y = rust_decimal::Decimal::from_i128_with_scale(b.mantissa, b.scale);
    match x.cmp(&y) {
        std::cmp::Ordering::Less => DecOrd::Less,
        std::cmp::Ordering::Equal => DecOrd::Equal,
        std::cmp::Ordering::Greater => DecOrd::Greater,
    }
}

/// `rust_decimal::Decimal::checked_add`. Trusted: the result is determined by the two
/// operands alone (named `decimal_checked_add`) and, when present, is a valid decimal;
/// the sum of two non-negative decimals is non-negative, and it is exact whenever that
/// sum, written at the wider of the two scales, fits in 96 bits (the crate aligns the
/// operands and only rounds or overflows past 96 bits). Its value in the other cases,
/// mixed signs included, is left unsaid.
#[verifier::external_body]
pub fn dec_checked_add(a: Dec, b: Dec) -> (r: Option<Dec>)
    requires
        a.valid(),
        b.valid(),
    ensures
        r == decimal_checked_add(a, b),
        r matches Some(v) ==> v.valid(),
        r matches Some(v) ==> (a.units() >= 0 && b.units() >= 0 ==> v.units() >= 0),
        a.mantissa >= 0 && b.mantissa >= 0 && mantissa_at(a, wider_scale(a, b)) + mantissa_at(b, wider_scale(a, b)) <= MAX_MANTISSA
            ==> r is Some && r.unwrap().units() == a.units() + b.units(),
{
    let x = rust_decimal::Decimal::from_i128_with_scale(a.mantissa, a.scale);
    let y = rust_decimal::Decimal::from_i128_with_scale(b.mantissa, b.scale);
    match x.checked_add(y) {
        Some(v) => Some(Dec { mantissa: v.mantissa(), scale: v.scale() }),
        None => None,
    }
}

/// `rust_decimal::Decimal::checked_sub`. Trusted: the result is determined by the two
/// operands alone (named `decimal_checked_sub`) and, when present, is a valid decimal;
/// the difference of two non-negative decimals never overflows (its magnitude is at most
/// the larger operand's), and `a - b` with `0 <= b <= a` is exact whenever it fits in 96
/// bits at the wider scale. Its value in the other cases is left unsaid.
#[verifier::external_body]
pub fn dec_checked_sub(a: Dec, b: Dec) -> (r: Option<Dec>)
    requires
        a.valid(),
        b.valid(),
    ensures
        r == decimal_checked_sub(a, b),
        r matches Some(v) ==> v.valid(),
        a.units() >= 0 && b.units() >= 0 ==> r is Some,
        0 <= b.units() <= a.units()
            && mantissa_at(a, wider_scale(a, b)) - mantissa_at(b, wider_scale(a, b)) <= MAX_MANTISSA
            ==> r is Some && r.unwrap().units() == a.units() - b.units(),
{
    let x = rust_decimal::Decimal::from_i128_with_scale(a.mantissa, a.scale);
    let y = rust_decimal::Decimal::from_i128_with_scale(b.mantissa, b.scale);
    match x.checked_sub(y) {
        Some(v) => Some(Dec { mantissa: v.mantissa(), scale: v.scale() }),
        None => None,
    }
}

/// `rust_decimal::Decimal::checked_mul`. Trusted: the result is determined by the two
/// operands alone (named `decimal_checked_mul`) and, when present, is a valid decimal;
/// the product is exact when the scales add up to at most 28 and the product of the
/// mantissas fits in 96 bits (the crate multiplies the mantissas and adds the scales,
/// rounding only past those bounds). Its value in the other cases is left unsaid.
#[verifier::external_body]
pub fn dec_checked_mul(a: Dec, b: Dec) -> (r: Option<Dec>)
    requires
        a.valid(),
        b.valid(),
    ensures
        r == decimal_checked_mul(a, b),
        r matches Some(v) ==> v.valid(),
        a.scale + b.scale <= MAX_SCALE && -MAX_MANTISSA <= a.mantissa * b.mantissa <= MAX_MANTISSA
            ==> r is Some && r.unwrap().units() == a.mantissa * b.mantissa * pow10((MAX_SCALE - a.scale - b.scale) as nat),
{
    let x = rust_decimal::Decimal::from_i128_with_scale(a.mantissa, a.scale);
    let y = rust_decimal::Decimal::from_i128_with_scale(b.mantissa, b.scale);
    match x.checked_mul(y) {
        Some(v) => Some(Dec { mantissa: v.mantissa(), scale: v.scale() }),
        None => None,
    }
}

/// `rust_decimal::Decimal::checked_div`. Trusted: the result is determined by the two
/// operands alone (named `decimal_checked_div`) and, when present, is a valid decimal;
/// division by zero gives `None`. When the divisor's mantissa divides the dividend's and the
/// dividend has at least as many decimals, the quotient is that exact integer quotient at
/// the difference of the scales (the crate's division ends at once when nothing remains).
/// Its value in the other cases, and the rounding, are left unsaid.
#[verifier::external_body]
pub fn dec_checked_div(a: Dec, b: Dec) -> (r: Option<Dec>)
    requires
        a.valid(),
        b.valid(),
    ensures
        r == decimal_checked_div(a, b),
        r matches Some(v) ==> v.valid(),
        b.units() == 0 ==> r is None,
        a.mantissa >= 0 && b.mantissa > 0 && a.scale >= b.scale && a.mantissa % b.mantissa == 0
            ==> r is Some && r.unwrap().units() == (a.mantissa / b.mantissa) * pow10((MAX_SCALE - (a.scale - b.scale)) as nat),
{
    let x = rust_decimal::Decimal::from_i128_with_scale(a.mantissa, a.scale);
    let y = rust_decimal::Decimal::from_i128_with_scale(b.mantissa, b.scale);
    match x.checked_div(y) {
        Some(v) => Some(Dec { mantissa: v.mantissa(), scale: v.scale() }),
        None => None,
    }
}

/// The smaller of two decimals by value; `a` when they are equal (as `Decimal::min` does).
pub fn dec_min(a: Dec, b: Dec) -> (r: Dec)
    requires
        a.valid(),
        b.valid(),
    ensures
        r == (if a.units() > b.units() { b } else { a }),
{
    match dec_compare(&a, &b) {
        DecOrd::Greater => b,
        _ => a,
    }
}

} // verus!
