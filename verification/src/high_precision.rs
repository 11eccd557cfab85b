use fixed::types::I10F118;
use std::cmp::Ordering;
use vstd::prelude::*;
use vstd::std_specs::cmp::{PartialEqSpec, PartialOrdSpec};

use crate::exp2::Exp2;

verus! {

/// The raw representation of the number one: `2^118`.
pub open spec fn one_bits() -> int {
    332306998946228968225951765070086144
}

/// Whether an integer fits in the raw representation (`i128`).
pub open spec fn fits(v: int) -> bool {
    i128::MIN <= v <= i128::MAX
}

/// Integer division rounded toward zero.
pub open spec fn trunc_div(n: int, d: int) -> int {
    let q = if n >= 0 { n } else { -n } / (if d >= 0 { d } else { -d });
    if (n < 0) != (d < 0) {
        -q
    } else {
        q
    }
}

/// Raw result of a fixed-point product: the exact product of the values,
/// rounded toward negative infinity.
pub open spec fn mul_bits(a: int, b: int) -> int {
    (a * b) / one_bits()
}

/// Raw result of a fixed-point quotient: the exact quotient of the values,
/// rounded toward zero.
pub open spec fn div_bits(a: int, b: int) -> int {
    trunc_div(a * one_bits(), b)
}

/// Raw result of `2^x` as the fixed-point analytics crate computes it.
pub uninterp spec fn pow2_bits(x: i128) -> i128;

/// Signed fixed-point number with 10 integer bits and 118 fractional bits.
/// Its view is its raw representation: the value is `view / 2^118`, so the
/// values range over `[-512, 512)`.
#[derive(Debug, Default, Clone, Copy)]
pub struct HighPrecision {
    bits: i128,
}

impl View for HighPrecision {
    type V = i128;

    closed spec fn view(&self) -> i128 {
        self.bits
    }
}

/// `I10F118 + I10F118`: the raw values are added as integers; the crate
/// panics on overflow (with debug assertions), which `requires` leaves out.
#[verifier::external_body]
fn fixed_add(a: i128, b: i128) -> (r: i128)
    requires
        fits(a + b),
    ensures
        r == a + b,
{
    (I10F118::from_bits(a) + I10F118::from_bits(b)).to_bits()
}

/// `I10F118 - I10F118`: the raw values are subtracted as integers; overflow
/// panics (with debug assertions) and is left out by `requires`.
#[verifier::external_body]
fn fixed_sub(a: i128, b: i128) -> (r: i128)
    requires
        fits(a - b),
    ensures
        r == a - b,
{
    (I10F118::from_bits(a) - I10F118::from_bits(b)).to_bits()
}

/// `-I10F118`: the raw value is negated; negating the minimum overflows and is
/// left out by `requires`.
#[verifier::external_body]
fn fixed_neg(a: i128) -> (r: i128)
    requires
        fits(-a),
    ensures
        r == -a,
{
    (-I10F118::from_bits(a)).to_bits()
}

/// `I10F118 * I10F118`: the crate forms the 256-bit product of the raw values
/// and shifts it right by 118 bits (rounding toward negative infinity); a
/// result that does not fit is an overflow, left out by `requires`.
#[verifier::external_body]
fn fixed_mul(a: i128, b: i128) -> (r: i128)
    requires
        fits(mul_bits(a as int, b as int)),
    ensures
        r == mul_bits(a as int, b as int),
{
    (I10F118::from_bits(a) * I10F118::from_bits(b)).to_bits()
}

/// `I10F118 / I10F118`: the crate divides the raw dividend shifted left by 118
/// bits by the raw divisor, rounding toward zero; division by zero panics and
/// a quotient that does not fit overflows, both left out by `requires`.
#[verifier::external_body]
fn fixed_div(a: i128, b: i128) -> (r: i128)
    requires
        b != 0,
        fits(div_bits(a as int, b as int)),
    ensures
        r == div_bits(a as int, b as int),
{
    (I10F118::from_bits(a) / I10F118::from_bits(b)).to_bits()
}

/// `I10F118::checked_mul`: the product as `*` computes it, or `None` exactly
/// when that product does not fit.
#[verifier::external_body]
fn fixed_checked_mul(a: i128, b: i128) -> (r: Option<i128>)
    ensures
        r == if fits(mul_bits(a as int, b as int)) {
            Some(mul_bits(a as int, b as int) as i128)
        } else {
            None::<i128>
        },
{
    match I10F118::from_bits(a).checked_mul(I10F118::from_bits(b)) {
        Some(x) => Some(x.to_bits()),
        None => None,
    }
}

/// `I10F118::from_num(u64)`: an integer below 512 converts exactly to
/// `n * 2^118`; larger integers do not fit (a panic with debug assertions)
/// and are left out by `requires`.
#[verifier::external_body]
fn fixed_from_u64(n: u64) -> (r: i128)
    requires
        n < 512,
    ensures
        r == n * one_bits(),
{
    I10F118::from_num(n).to_bits()
}

/// `fixed_analytics::pow2` on `I10F118`: the result is named by `pow2_bits`;
/// the crate's source shows it saturates to the maximum above an integer part
/// of 256 and to zero below an integer part of -256. Nothing more (such as the
/// accuracy of the approximation) is stated.
#[verifier::external_body]
fn fixed_pow2(x: i128) -> (r: i128)
    ensures
        r == pow2_bits(x),
        x as int / one_bits() > 256 ==> r == i128::MAX,
        x as int / one_bits() < -256 ==> r == 0,
{
    fixed_analytics::pow2(I10F118::from_bits(x)).to_bits()
}

impl HighPrecision {
    /// The number whose raw representation is `bits`.
    pub fn from_bits(bits: i128) -> (r: Self)
        ensures
            r@ == bits,
    {
        HighPrecision { bits }
    }

    /// The raw representation.
    pub fn to_bits(self) -> (r: i128)
        ensures
            r == self@,
    {
        self.bits
    }

    /// The number with raw representation `bits`, in specifications.
    pub closed spec fn spec_from_bits(bits: i128) -> Self {
        HighPrecision { bits }
    }

    pub broadcast proof fn lemma_spec_from_bits(bits: i128)
        ensures
            #[trigger] Self::spec_from_bits(bits)@ == bits,
    {
    }

    /// Two numbers with the same raw representation are the same number.
    pub broadcast proof fn lemma_view_injective(a: Self, b: Self)
        ensures
            #![trigger a@, b@]
            a@ == b@ ==> a == b,
    {
    }

    /// The sum, or `None` when it does not fit.
    pub fn checked_add(self, rhs: Self) -> (r: Option<Self>)
        ensures
            r is Some <==> fits(self@ + rhs@),
            r matches Some(v) ==> v@ == self@ + rhs@,
    {
        match self.bits.checked_add(rhs.bits) {
            Some(bits) => Some(HighPrecision { bits }),
            None => None,
        }
    }

    /// The difference, or `None` when it does not fit.
    pub fn checked_sub(self, rhs: Self) -> (r: Option<Self>)
        ensures
            r is Some <==> fits(self@ - rhs@),
            r matches Some(v) ==> v@ == self@ - rhs@,
    {
        match self.bits.checked_sub(rhs.bits) {
            Some(bits) => Some(HighPrecision { bits }),
            None => None,
        }
    }

    /// The product as `*` computes it, or `None` when it does not fit.
    pub fn checked_mul(self, rhs: Self) -> (r: Option<Self>)
        ensures
            r is Some <==> fits(mul_bits(self@ as int, rhs@ as int)),
            r matches Some(v) ==> v@ == mul_bits(self@ as int, rhs@ as int),
    {
        match fixed_checked_mul(self.bits, rhs.bits) {
            Some(bits) => Some(HighPrecision { bits }),
            None => None,
        }
    }

    /// Converts an integer below 512 exactly.
    pub fn from_u64(n: u64) -> (r: Self)
        requires
            n < 512,
        ensures
            r@ == n * one_bits(),
    {
        HighPrecision { bits: fixed_from_u64(n) }
    }
}

impl Exp2 for HighPrecision {
    fn exp2(self) -> (r: Self)
        ensures
            r@ == pow2_bits(self@),
    {
        HighPrecision { bits: fixed_pow2(self.bits) }
    }
}

impl std::ops::Neg for HighPrecision {
    type Output = HighPrecision;

    fn neg(self) -> (r: HighPrecision)
        ensures
            r@ == -self@,
    {
        HighPrecision { bits: fixed_neg(self.bits) }
    }
}

impl vstd::std_specs::ops::NegSpecImpl for HighPrecision {
    open spec fn obeys_neg_spec() -> bool {
        true
    }

    open spec fn neg_req(self) -> bool {
        fits(-self@)
    }

    open spec fn neg_spec(self) -> HighPrecision {
        HighPrecision::spec_from_bits((-self@) as i128)
    }
}

impl std::ops::Add for HighPrecision {
    type Output = HighPrecision;

    fn add(self, rhs: HighPrecision) -> (r: HighPrecision)
        ensures
            r@ == self@ + rhs@,
    {
        HighPrecision { bits: fixed_add(self.bits, rhs.bits) }
    }
}

impl vstd::std_specs::ops::AddSpecImpl for HighPrecision {
    open spec fn obeys_add_spec() -> bool {
        true
    }

    open spec fn add_req(self, rhs: HighPrecision) -> bool {
        fits(self@ + rhs@)
    }

    open spec fn add_spec(self, rhs: HighPrecision) -> HighPrecision {
        HighPrecision::spec_from_bits((self@ + rhs@) as i128)
    }
}

impl std::ops::Sub for HighPrecision {
    type Output = HighPrecision;

    fn sub(self, rhs: HighPrecision) -> (r: HighPrecision)
        ensures
            r@ == self@ - rhs@,
    {
        HighPrecision { bits: fixed_sub(self.bits, rhs.bits) }
    }
}

impl vstd::std_specs::ops::SubSpecImpl for HighPrecision {
    open spec fn obeys_sub_spec() -> bool {
        true
    }

    open spec fn sub_req(self, rhs: HighPrecision) -> bool {
        fits(self@ - rhs@)
    }

    open spec fn sub_spec(self, rhs: HighPrecision) -> HighPrecision {
        HighPrecision::spec_from_bits((self@ - rhs@) as i128)
    }
}

impl std::ops::Mul for HighPrecision {
    type Output = HighPrecision;

    fn mul(self, rhs: HighPrecision) -> (r: HighPrecision)
        ensures
            r@ == mul_bits(self@ as int, rhs@ as int),
    {
        HighPrecision { bits: fixed_mul(self.bits, rhs.bits) }
    }
}

impl vstd::std_specs::ops::MulSpecImpl for HighPrecision {
    open spec fn obeys_mul_spec() -> bool {
        true
    }

    open spec fn mul_req(self, rhs: HighPrecision) -> bool {
        fits(mul_bits(self@ as int, rhs@ as int))
    }

    open spec fn mul_spec(self, rhs: HighPrecision) -> HighPrecision {
        HighPrecision::spec_from_bits(mul_bits(self@ as int, rhs@ as int) as i128)
    }
}

impl std::ops::Div for HighPrecision {
    type Output = HighPrecision;

    fn div(self, rhs: HighPrecision) -> (r: HighPrecision)
        ensures
            r@ == div_bits(self@ as int, rhs@ as int),
    {
        HighPrecision { bits: fixed_div(self.bits, rhs.bits) }
    }
}

impl vstd::std_specs::ops::DivSpecImpl for HighPrecision {
    open spec fn obeys_div_spec() -> bool {
        true
    }

    open spec fn div_req(self, rhs: HighPrecision) -> bool {
        rhs@ != 0 && fits(div_bits(self@ as int, rhs@ as int))
    }

    open spec fn div_spec(self, rhs: HighPrecision) -> HighPrecision {
        HighPrecision::spec_from_bits(div_bits(self@ as int, rhs@ as int) as i128)
    }
}

impl PartialEq for HighPrecision {
    fn eq(&self, other: &HighPrecision) -> (r: bool) {
        self.bits == other.bits
    }
}

impl vstd::std_specs::cmp::PartialEqSpecImpl for HighPrecision {
    open spec fn obeys_eq_spec() -> bool {
        true
    }

    open spec fn eq_spec(&self, other: &HighPrecision) -> bool {
        self@ == other@
    }
}

impl Eq for HighPrecision {
}

impl PartialOrd for HighPrecision {
    fn partial_cmp(&self, other: &HighPrecision) -> (r: Option<Ordering>) {
        if self.bits < other.bits {
            Some(Ordering::Less)
        } else if self.bits == other.bits {
            Some(Ordering::Equal)
        } else {
            Some(Ordering::Greater)
        }
    }
}

impl vstd::std_specs::cmp::PartialOrdSpecImpl for HighPrecision {
    open spec fn obeys_partial_cmp_spec() -> bool {
        true
    }

    open spec fn partial_cmp_spec(&self, other: &HighPrecision) -> Option<Ordering> {
        if self@ < other@ {
            Some(Ordering::Less)
        } else if self@ == other@ {
            Some(Ordering::Equal)
        } else {
            Some(Ordering::Greater)
        }
    }
}

/// Two fixed-point numbers are equal exactly when they are the same number:
/// `==` compares the whole value, fractional bits included.
pub proof fn lemma_eq_is_value_equality(a: HighPrecision, b: HighPrecision)
    ensures
        a.eq_spec(&b) <==> a@ == b@,
        a.eq_spec(&b) <==> a == b,
{
}

/// Fixed-point numbers are ordered by their values, fractional bits
/// included: `a < b` exactly when the value of `a` is below that of `b`, the
/// two compare equal exactly when `==` holds, and the order is total.
pub proof fn lemma_order_is_value_order(a: HighPrecision, b: HighPrecision)
    ensures
        a.partial_cmp_spec(&b) == Some(Ordering::Less) <==> a@ < b@,
        a.partial_cmp_spec(&b) == Some(Ordering::Greater) <==> b@ < a@,
        a.partial_cmp_spec(&b) == Some(Ordering::Equal) <==> a.eq_spec(&b),
        a.partial_cmp_spec(&b) == Some(Ordering::Less) <==> b.partial_cmp_spec(&a) == Some(
            Ordering::Greater,
        ),
        a.partial_cmp_spec(&b) is Some,
{
}

} // verus!
