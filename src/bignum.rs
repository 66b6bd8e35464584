use num_bigint::{BigInt, Sign};
use num_traits::{ToPrimitive, Zero};
use vstd::prelude::*;

verus! {

/// Weight of one base-2^32 digit.
pub open spec fn digit_base() -> int {
    0x1_0000_0000
}

/// The natural number written by base-2^32 digits, least significant first.
pub open spec fn magnitude(d: Seq<u32>) -> int
    decreases d.len(),
{
    if d.len() == 0 {
        0
    } else {
        d[0] as int + digit_base() * magnitude(d.drop_first())
    }
}

/// Decimal digits of a natural number, most significant first.
pub open spec fn decimal_digits(n: nat) -> Seq<char>
    decreases n,
{
    let last = seq![(('0' as u8) + (n % 10) as u8) as char];
    if n < 10 {
        last
    } else {
        decimal_digits(n / 10) + last
    }
}

/// Decimal rendering of an integer, with a leading `-` when it is negative.
pub open spec fn decimal(v: int) -> Seq<char> {
    if v < 0 {
        seq!['-'] + decimal_digits((-v) as nat)
    } else {
        decimal_digits(v as nat)
    }
}

/// An arbitrary-precision guest integer: a sign and base-2^32 digits,
/// least significant first.
pub struct Int {
    pub negative: bool,
    pub digits: Vec<u32>,
}

impl Int {
    /// The integer this value stands for.
    pub open spec fn value(&self) -> int {
        if self.negative {
            -magnitude(self.digits@)
        } else {
            magnitude(self.digits@)
        }
    }

    /// The guest integer with value `x`.
    pub fn from_i64(x: i64) -> (r: Int)
        ensures
            r.value() == x,
    {
        big_from_i64(x)
    }

    /// The guest integer with value `n`.
    pub fn from_usize(n: usize) -> (r: Int)
        ensures
            r.value() == n,
    {
        big_from_usize(n)
    }

    /// The value as an `i128`, or `None` where it does not fit.
    pub fn to_i128(&self) -> (r: Option<i128>)
        ensures
            r == (if i128::MIN <= self.value() <= i128::MAX {
                Some(self.value() as i128)
            } else {
                None
            }),
    {
        big_to_i128(self)
    }

    /// Whether two guest integers have the same value.
    pub fn same_value(&self, other: &Int) -> (r: bool)
        ensures
            r == (self.value() == other.value()),
    {
        big_eq(self, other)
    }

    /// Whether the value is zero.
    pub fn is_zero(&self) -> (r: bool)
        ensures
            r == (self.value() == 0),
    {
        big_is_zero(self)
    }

    /// Decimal rendering of the value.
    pub fn to_decimal(&self) -> (r: String)
        ensures
            r@ == decimal(self.value()),
    {
        big_to_decimal(self)
    }
}

/// Relies on `BigInt::from(i64)` and `BigInt::to_u32_digits`: the sign and the
/// base-2^32 digits, least significant first, of the given value.
#[verifier::external_body]
fn big_from_i64(x: i64) -> (r: Int)
    ensures
        r.value() == x,
{
    let (sign, digits) = BigInt::from(x).to_u32_digits();
    Int { negative: sign == Sign::Minus, digits }
}

/// Relies on `BigInt::from(usize)` and `BigInt::to_u32_digits`: the sign and the
/// base-2^32 digits, least significant first, of the given value.
#[verifier::external_body]
fn big_from_usize(n: usize) -> (r: Int)
    ensures
        r.value() == n,
{
    let (sign, digits) = BigInt::from(n).to_u32_digits();
    Int { negative: sign == Sign::Minus, digits }
}

/// Relies on `BigInt::from_slice` (the value of a sign and base-2^32 digits) and
/// on `ToPrimitive::to_i128` for `BigInt`: `None` where the value does not fit.
#[verifier::external_body]
fn big_to_i128(x: &Int) -> (r: Option<i128>)
    ensures
        r == (if i128::MIN <= x.value() <= i128::MAX {
            Some(x.value() as i128)
        } else {
            None
        }),
{
    let sign = if x.negative { Sign::Minus } else { Sign::Plus };
    BigInt::from_slice(sign, &x.digits).to_i128()
}

/// Relies on `BigInt::from_slice` and on `BigInt`'s `==`, which compares values.
#[verifier::external_body]
fn big_eq(a: &Int, b: &Int) -> (r: bool)
    ensures
        r == (a.value() == b.value()),
{
    let sa = if a.negative { Sign::Minus } else { Sign::Plus };
    let sb = if b.negative { Sign::Minus } else { Sign::Plus };
    BigInt::from_slice(sa, &a.digits) == BigInt::from_slice(sb, &b.digits)
}

/// Relies on `BigInt::from_slice` and on `Zero::is_zero` for `BigInt`.
#[verifier::external_body]
fn big_is_zero(a: &Int) -> (r: bool)
    ensures
        r == (a.value() == 0),
{
    let sign = if a.negative { Sign::Minus } else { Sign::Plus };
    BigInt::from_slice(sign, &a.digits).is_zero()
}

/// Relies on `BigInt::from_slice` and on `BigInt`'s `Display`: decimal digits,
/// with a leading `-` for a negative value.
#[verifier::external_body]
fn big_to_decimal(a: &Int) -> (r: String)
    ensures
        r@ == decimal(a.value()),
{
    let sign = if a.negative { Sign::Minus } else { Sign::Plus };
    BigInt::from_slice(sign, &a.digits).to_string()
}

} // verus!
