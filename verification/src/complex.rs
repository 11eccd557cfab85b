use std::ops::{Add, Div, Mul, Neg, Sub};
use vstd::prelude::*;
use vstd::std_specs::ops::{AddSpec, DivSpec, MulSpec, NegSpec, SubSpec};

verus! {

/// A complex number `re + im·i` over any number type.
#[derive(Debug, Default, Clone, Copy, PartialEq)]
pub struct Complex<T> {
    pub re: T,
    pub im: T,
}

impl<T: Copy> Complex<T> {
    pub fn new(re: T, im: T) -> (r: Self)
        ensures
            r == (Complex { re, im }),
    {
        Self { re, im }
    }
}

impl<T: Copy + Neg<Output = T>> Complex<T> {
    /// The conjugate `re - im·i`, in specifications.
    pub open spec fn spec_conj(self) -> Self {
        Complex { re: self.re, im: self.im.neg_spec() }
    }

    /// The conjugate `re - im·i`.
    pub fn conj(self) -> (r: Self)
        requires
            self.im.neg_req(),
        ensures
            r.re == self.re,
            T::obeys_neg_spec() ==> r == self.spec_conj(),
    {
        Self { re: self.re, im: self.im.neg() }
    }
}

impl<T: Copy + Add<Output = T> + Mul<Output = T>> Complex<T> {
    /// What computing `re·re + im·im` needs of `T`.
    pub open spec fn abs_squared_req(self) -> bool {
        &&& T::obeys_mul_spec()
        &&& self.re.mul_req(self.re)
        &&& self.im.mul_req(self.im)
        &&& self.re.mul_spec(self.re).add_req(self.im.mul_spec(self.im))
    }

    /// `re·re + im·i`, in specifications.
    pub open spec fn spec_abs_squared(self) -> T {
        self.re.mul_spec(self.re).add_spec(self.im.mul_spec(self.im))
    }

    /// The squared magnitude `re·re + im·im`.
    pub fn abs_squared(self) -> (r: T)
        requires
            self.abs_squared_req(),
        ensures
            T::obeys_add_spec() ==> r == self.spec_abs_squared(),
    {
        self.re.mul(self.re).add(self.im.mul(self.im))
    }
}

impl<T: Copy> From<(T, T)> for Complex<T> {
    fn from(value: (T, T)) -> (r: Self) {
        Self::new(value.0, value.1)
    }
}

impl<T: Copy> vstd::std_specs::convert::FromSpecImpl<(T, T)> for Complex<T> {
    open spec fn obeys_from_spec() -> bool {
        true
    }

    open spec fn from_spec(value: (T, T)) -> Complex<T> {
        Complex { re: value.0, im: value.1 }
    }
}

impl<T: Copy + Neg<Output = T>> Neg for Complex<T> {
    type Output = Self;

    fn neg(self) -> (r: Self) {
        Self { re: self.re.neg(), im: self.im.neg() }
    }
}

impl<T: Copy + Neg<Output = T>> vstd::std_specs::ops::NegSpecImpl for Complex<T> {
    open spec fn obeys_neg_spec() -> bool {
        T::obeys_neg_spec()
    }

    open spec fn neg_req(self) -> bool {
        self.re.neg_req() && self.im.neg_req()
    }

    open spec fn neg_spec(self) -> Complex<T> {
        Complex { re: self.re.neg_spec(), im: self.im.neg_spec() }
    }
}

// Operations with a real number: `(re + im·i) op rhs`.
impl<T: Copy + Add<Output = T>> Add<T> for Complex<T> {
    type Output = Self;

    fn add(self, rhs: T) -> (r: Self) {
        Self { re: self.re.add(rhs), im: self.im }
    }
}

impl<T: Copy + Add<Output = T>> vstd::std_specs::ops::AddSpecImpl<T> for Complex<T> {
    open spec fn obeys_add_spec() -> bool {
        T::obeys_add_spec()
    }

    open spec fn add_req(self, rhs: T) -> bool {
        self.re.add_req(rhs)
    }

    open spec fn add_spec(self, rhs: T) -> Complex<T> {
        Complex { re: self.re.add_spec(rhs), im: self.im }
    }
}

impl<T: Copy + Sub<Output = T>> Sub<T> for Complex<T> {
    type Output = Self;

    fn sub(self, rhs: T) -> (r: Self) {
        Self { re: self.re.sub(rhs), im: self.im }
    }
}

impl<T: Copy + Sub<Output = T>> vstd::std_specs::ops::SubSpecImpl<T> for Complex<T> {
    open spec fn obeys_sub_spec() -> bool {
        T::obeys_sub_spec()
    }

    open spec fn sub_req(self, rhs: T) -> bool {
        self.re.sub_req(rhs)
    }

    open spec fn sub_spec(self, rhs: T) -> Complex<T> {
        Complex { re: self.re.sub_spec(rhs), im: self.im }
    }
}

impl<T: Copy + Mul<Output = T>> Mul<T> for Complex<T> {
    type Output = Self;

    fn mul(self, rhs: T) -> (r: Self) {
        Self { re: self.re.mul(rhs), im: self.im.mul(rhs) }
    }
}

impl<T: Copy + Mul<Output = T>> vstd::std_specs::ops::MulSpecImpl<T> for Complex<T> {
    open spec fn obeys_mul_spec() -> bool {
        T::obeys_mul_spec()
    }

    open spec fn mul_req(self, rhs: T) -> bool {
        self.re.mul_req(rhs) && self.im.mul_req(rhs)
    }

    open spec fn mul_spec(self, rhs: T) -> Complex<T> {
        Complex { re: self.re.mul_spec(rhs), im: self.im.mul_spec(rhs) }
    }
}

impl<T: Copy + Div<Output = T>> Div<T> for Complex<T> {
    type Output = Self;

    fn div(self, rhs: T) -> (r: Self) {
        Self { re: self.re.div(rhs), im: self.im.div(rhs) }
    }
}

impl<T: Copy + Div<Output = T>> vstd::std_specs::ops::DivSpecImpl<T> for Complex<T> {
    open spec fn obeys_div_spec() -> bool {
        T::obeys_div_spec()
    }

    open spec fn div_req(self, rhs: T) -> bool {
        self.re.div_req(rhs) && self.im.div_req(rhs)
    }

    open spec fn div_spec(self, rhs: T) -> Complex<T> {
        Complex { re: self.re.div_spec(rhs), im: self.im.div_spec(rhs) }
    }
}

// Operations between complex numbers.
impl<T: Copy + Add<Output = T>> Add for Complex<T> {
    type Output = Self;

    fn add(self, rhs: Self) -> (r: Self) {
        Self { re: self.re.add(rhs.re), im: self.im.add(rhs.im) }
    }
}

impl<T: Copy + Add<Output = T>> vstd::std_specs::ops::AddSpecImpl for Complex<T> {
    open spec fn obeys_add_spec() -> bool {
        T::obeys_add_spec()
    }

    open spec fn add_req(self, rhs: Complex<T>) -> bool {
        self.re.add_req(rhs.re) && self.im.add_req(rhs.im)
    }

    open spec fn add_spec(self, rhs: Complex<T>) -> Complex<T> {
        Complex { re: self.re.add_spec(rhs.re), im: self.im.add_spec(rhs.im) }
    }
}

impl<T: Copy + Sub<Output = T>> Sub for Complex<T> {
    type Output = Self;

    fn sub(self, rhs: Self) -> (r: Self) {
        Self { re: self.re.sub(rhs.re), im: self.im.sub(rhs.im) }
    }
}

impl<T: Copy + Sub<Output = T>> vstd::std_specs::ops::SubSpecImpl for Complex<T> {
    open spec fn obeys_sub_spec() -> bool {
        T::obeys_sub_spec()
    }

    open spec fn sub_req(self, rhs: Complex<T>) -> bool {
        self.re.sub_req(rhs.re) && self.im.sub_req(rhs.im)
    }

    open spec fn sub_spec(self, rhs: Complex<T>) -> Complex<T> {
        Complex { re: self.re.sub_spec(rhs.re), im: self.im.sub_spec(rhs.im) }
    }
}

impl<T: Copy + Add<Output = T> + Sub<Output = T> + Mul<Output = T>> Complex<T> {
    /// What computing the product needs of `T`.
    pub open spec fn mul_complex_req(self, rhs: Self) -> bool {
        &&& T::obeys_mul_spec()
        &&& self.re.mul_req(rhs.re)
        &&& self.im.mul_req(rhs.im)
        &&& self.re.mul_req(rhs.im)
        &&& self.im.mul_req(rhs.re)
        &&& self.re.mul_spec(rhs.re).sub_req(self.im.mul_spec(rhs.im))
        &&& self.re.mul_spec(rhs.im).add_req(self.im.mul_spec(rhs.re))
    }

    /// `(a + bi)(c + di) = (a·c - b·d) + (a·d + b·c)i`, in specifications.
    pub open spec fn spec_mul_complex(self, rhs: Self) -> Self {
        Complex {
            re: self.re.mul_spec(rhs.re).sub_spec(self.im.mul_spec(rhs.im)),
            im: self.re.mul_spec(rhs.im).add_spec(self.im.mul_spec(rhs.re)),
        }
    }
}

// (a + bi)*(c + di) = (a*c - b*d) + (b*c + a*d)i
impl<T: Copy + Add<Output = T> + Sub<Output = T> + Mul<Output = T>> Mul for Complex<T> {
    type Output = Self;

    fn mul(self, rhs: Self) -> (r: Self) {
        Self {
            re: self.re.mul(rhs.re).sub(self.im.mul(rhs.im)),
            im: self.re.mul(rhs.im).add(self.im.mul(rhs.re)),
        }
    }
}

impl<T: Copy + Add<Output = T> + Sub<Output = T> + Mul<Output = T>> vstd::std_specs::ops::MulSpecImpl for Complex<T> {
    open spec fn obeys_mul_spec() -> bool {
        T::obeys_mul_spec() && T::obeys_add_spec() && T::obeys_sub_spec()
    }

    open spec fn mul_req(self, rhs: Complex<T>) -> bool {
        self.mul_complex_req(rhs)
    }

    open spec fn mul_spec(self, rhs: Complex<T>) -> Complex<T> {
        self.spec_mul_complex(rhs)
    }
}

impl<T: Copy + Add<Output = T> + Sub<Output = T> + Mul<Output = T> + Div<Output = T> + Neg<Output = T>> Complex<T> {
    /// What computing the quotient needs of `T`.
    pub open spec fn div_complex_req(self, rhs: Self) -> bool {
        let num = self.spec_mul_complex(rhs.spec_conj());
        let den = rhs.spec_abs_squared();
        &&& T::obeys_neg_spec()
        &&& T::obeys_add_spec()
        &&& T::obeys_sub_spec()
        &&& rhs.im.neg_req()
        &&& self.mul_complex_req(rhs.spec_conj())
        &&& rhs.abs_squared_req()
        &&& num.re.div_req(den)
        &&& num.im.div_req(den)
    }

    /// `(a + bi) / (c + di) = ((a + bi)(c - di)) / (c·c + d·d)`, in
    /// specifications.
    pub open spec fn spec_div_complex(self, rhs: Self) -> Self {
        let num = self.spec_mul_complex(rhs.spec_conj());
        let den = rhs.spec_abs_squared();
        Complex { re: num.re.div_spec(den), im: num.im.div_spec(den) }
    }
}

// (a + bi) / (c + di)
// ((a + bi) * (c - di)) / ((c + di) * (c - di))
// ((a*c + b*d) + (b*c - a*d)i) / (c^2 + d^2)
impl<T: Copy + Add<Output = T> + Sub<Output = T> + Mul<Output = T> + Div<Output = T> + Neg<Output = T>> Div for Complex<T> {
    type Output = Self;

    fn div(self, rhs: Self) -> (r: Self) {
        let num = Mul::<Complex<T>>::mul(self, rhs.conj());
        let den = rhs.re.mul(rhs.re).add(rhs.im.mul(rhs.im));
        Div::<T>::div(num, den)
    }
}

impl<T: Copy + Add<Output = T> + Sub<Output = T> + Mul<Output = T> + Div<Output = T> + Neg<Output = T>> vstd::std_specs::ops::DivSpecImpl for Complex<T> {
    open spec fn obeys_div_spec() -> bool {
        T::obeys_div_spec()
    }

    open spec fn div_req(self, rhs: Complex<T>) -> bool {
        self.div_complex_req(rhs)
    }

    open spec fn div_spec(self, rhs: Complex<T>) -> Complex<T> {
        self.spec_div_complex(rhs)
    }
}

} // verus!
