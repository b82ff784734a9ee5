//! Three-component vectors stored as an array, with component-wise arithmetic.
use vstd::prelude::*;
use std::ops::{Add, AddAssign, Div, DivAssign, Mul, MulAssign, Sub, SubAssign};
use vstd::std_specs::ops::{AddSpecImpl, DivSpecImpl, MulSpecImpl, SubSpecImpl};
use vstd::std_specs::ops::{AddSpec, DivSpec, MulSpec, SubSpec};
use vstd::std_specs::convert::IntoSpec;
use vstd::std_specs::cmp::{PartialEqSpec, PartialEqSpecImpl, PartialOrdSpec, PartialOrdIs};
use crate::utils::{lawful_order, le, lemma_total_order, lt};
use vstd::laws_eq::obeys_concrete_eq;

verus! {

/// Conversion of a value into `U`.
pub trait ConvertTo<U> {
    fn convert_to(self) -> U;
}

impl<T> ConvertTo<T> for T {
    /// Converting a value into its own type gives it back unchanged.
    fn convert_to(self) -> (r: T)
        ensures
            r == self,
    {
        self
    }
}

/// Converts `value` through its `Into<U>` conversion.
fn convert_to<T, U>(value: T) -> (r: U)
    where
        T: Into<U>,
    ensures
        T::obeys_into_spec() ==> r == value.into_spec(),
{
    value.into()
}

/// A vector of three components.
#[derive(Debug, Clone)]
pub struct Vec3<T> {
    pub v: [T; 3],
}

impl<T: PartialEq> PartialEq for Vec3<T> {
    fn eq(&self, other: &Self) -> (r: bool) {
        self.v[0] == other.v[0] && self.v[1] == other.v[1] && self.v[2] == other.v[2]
    }
}

impl<T: PartialEq> PartialEqSpecImpl for Vec3<T> {
    open spec fn obeys_eq_spec() -> bool {
        T::obeys_eq_spec()
    }

    open spec fn eq_spec(&self, other: &Self) -> bool {
        &&& self.v[0].eq_spec(&other.v[0])
        &&& self.v[1].eq_spec(&other.v[1])
        &&& self.v[2].eq_spec(&other.v[2])
    }
}

/// The component-wise sum of `a` and `b`, each component by `T`'s own `add`.
pub open spec fn sum3<T: Add<Output = T>>(a: Vec3<T>, b: Vec3<T>) -> Vec3<T> {
    Vec3 { v: [a.v[0].add_spec(b.v[0]), a.v[1].add_spec(b.v[1]), a.v[2].add_spec(b.v[2])] }
}

/// Whether `T`'s `add` accepts every pair of components of `a` and `b`.
pub open spec fn sum3_ok<T: Add<Output = T>>(a: Vec3<T>, b: Vec3<T>) -> bool {
    a.v[0].add_req(b.v[0]) && a.v[1].add_req(b.v[1]) && a.v[2].add_req(b.v[2])
}

/// `a` with the scalar `s` added to each component (`a[i] + s`).
pub open spec fn sum3_scalar<T: Add<Output = T>>(a: Vec3<T>, s: T) -> Vec3<T> {
    Vec3 { v: [a.v[0].add_spec(s), a.v[1].add_spec(s), a.v[2].add_spec(s)] }
}

/// Whether `T`'s `add` accepts every component of `a` with the scalar `s`.
pub open spec fn sum3_scalar_ok<T: Add<Output = T>>(a: Vec3<T>, s: T) -> bool {
    a.v[0].add_req(s) && a.v[1].add_req(s) && a.v[2].add_req(s)
}

/// The component-wise difference of `a` and `b`, each component by `T`'s own `sub`.
pub open spec fn diff3<T: Sub<Output = T>>(a: Vec3<T>, b: Vec3<T>) -> Vec3<T> {
    Vec3 { v: [a.v[0].sub_spec(b.v[0]), a.v[1].sub_spec(b.v[1]), a.v[2].sub_spec(b.v[2])] }
}

/// Whether `T`'s `sub` accepts every pair of components of `a` and `b`.
pub open spec fn diff3_ok<T: Sub<Output = T>>(a: Vec3<T>, b: Vec3<T>) -> bool {
    a.v[0].sub_req(b.v[0]) && a.v[1].sub_req(b.v[1]) && a.v[2].sub_req(b.v[2])
}

/// `a` with the scalar `s` subtracted from each component (`a[i] - s`).
pub open spec fn diff3_scalar<T: Sub<Output = T>>(a: Vec3<T>, s: T) -> Vec3<T> {
    Vec3 { v: [a.v[0].sub_spec(s), a.v[1].sub_spec(s), a.v[2].sub_spec(s)] }
}

/// Whether `T`'s `sub` accepts every component of `a` with the scalar `s`.
pub open spec fn diff3_scalar_ok<T: Sub<Output = T>>(a: Vec3<T>, s: T) -> bool {
    a.v[0].sub_req(s) && a.v[1].sub_req(s) && a.v[2].sub_req(s)
}

/// The component-wise product of `a` and `b`, each component by `T`'s own `mul`.
pub open spec fn prod3<T: Mul<Output = T>>(a: Vec3<T>, b: Vec3<T>) -> Vec3<T> {
    Vec3 { v: [a.v[0].mul_spec(b.v[0]), a.v[1].mul_spec(b.v[1]), a.v[2].mul_spec(b.v[2])] }
}

/// Whether `T`'s `mul` accepts every pair of components of `a` and `b`.
pub open spec fn prod3_ok<T: Mul<Output = T>>(a: Vec3<T>, b: Vec3<T>) -> bool {
    a.v[0].mul_req(b.v[0]) && a.v[1].mul_req(b.v[1]) && a.v[2].mul_req(b.v[2])
}

/// `a` with the scalar `s` multiplied into each component (`a[i] * s`).
pub open spec fn prod3_scalar<T: Mul<Output = T>>(a: Vec3<T>, s: T) -> Vec3<T> {
    Vec3 { v: [a.v[0].mul_spec(s), a.v[1].mul_spec(s), a.v[2].mul_spec(s)] }
}

/// Whether `T`'s `mul` accepts every component of `a` with the scalar `s`.
pub open spec fn prod3_scalar_ok<T: Mul<Output = T>>(a: Vec3<T>, s: T) -> bool {
    a.v[0].mul_req(s) && a.v[1].mul_req(s) && a.v[2].mul_req(s)
}

/// The component-wise quotient of `a` and `b`, each component by `T`'s own `div`.
pub open spec fn quot3<T: Div<Output = T>>(a: Vec3<T>, b: Vec3<T>) -> Vec3<T> {
    Vec3 { v: [a.v[0].div_spec(b.v[0]), a.v[1].div_spec(b.v[1]), a.v[2].div_spec(b.v[2])] }
}

/// Whether `T`'s `div` accepts every pair of components of `a` and `b`.
pub open spec fn quot3_ok<T: Div<Output = T>>(a: Vec3<T>, b: Vec3<T>) -> bool {
    a.v[0].div_req(b.v[0]) && a.v[1].div_req(b.v[1]) && a.v[2].div_req(b.v[2])
}

/// `a` with the scalar `s` divided into each component (`a[i] / s`).
pub open spec fn quot3_scalar<T: Div<Output = T>>(a: Vec3<T>, s: T) -> Vec3<T> {
    Vec3 { v: [a.v[0].div_spec(s), a.v[1].div_spec(s), a.v[2].div_spec(s)] }
}

/// Whether `T`'s `div` accepts every component of `a` with the scalar `s`.
pub open spec fn quot3_scalar_ok<T: Div<Output = T>>(a: Vec3<T>, s: T) -> bool {
    a.v[0].div_req(s) && a.v[1].div_req(s) && a.v[2].div_req(s)
}

impl<T: Add<Output = T> + Copy> AddSpecImpl<T> for Vec3<T> {
    open spec fn obeys_add_spec() -> bool {
        T::obeys_add_spec()
    }

    open spec fn add_req(self, rhs: T) -> bool {
        sum3_scalar_ok(self, rhs)
    }

    open spec fn add_spec(self, rhs: T) -> Vec3<T> {
        sum3_scalar(self, rhs)
    }
}

// Vec3 + scalar
impl<T: Add<Output = T> + Copy> Add<T> for Vec3<T> {
    type Output = Vec3<T>;

    fn add(self, rhs: T) -> (r: Vec3<T>) {
        Vec3 { v: [self.v[0] + rhs, self.v[1] + rhs, self.v[2] + rhs] }
    }
}

impl<T: Add<Output = T> + Copy> AddSpecImpl<T> for &Vec3<T> {
    open spec fn obeys_add_spec() -> bool {
        T::obeys_add_spec()
    }

    open spec fn add_req(self, rhs: T) -> bool {
        sum3_scalar_ok(*self, rhs)
    }

    open spec fn add_spec(self, rhs: T) -> Vec3<T> {
        sum3_scalar(*self, rhs)
    }
}

// &Vec3 + scalar
impl<T: Add<Output = T> + Copy> Add<T> for &Vec3<T> {
    type Output = Vec3<T>;

    fn add(self, rhs: T) -> (r: Vec3<T>) {
        Vec3 { v: [self.v[0] + rhs, self.v[1] + rhs, self.v[2] + rhs] }
    }
}

impl<T: Add<Output = T> + Copy> AddSpecImpl<&Vec3<T>> for &Vec3<T> {
    open spec fn obeys_add_spec() -> bool {
        T::obeys_add_spec()
    }

    open spec fn add_req(self, rhs: &Vec3<T>) -> bool {
        sum3_ok(*self, *rhs)
    }

    open spec fn add_spec(self, rhs: &Vec3<T>) -> Vec3<T> {
        sum3(*self, *rhs)
    }
}

// &Vec3 + &Vec3
impl<T: Add<Output = T> + Copy> Add<&Vec3<T>> for &Vec3<T> {
    type Output = Vec3<T>;

    fn add(self, rhs: &Vec3<T>) -> (r: Vec3<T>) {
        Vec3 { v: [self.v[0] + rhs.v[0], self.v[1] + rhs.v[1], self.v[2] + rhs.v[2]] }
    }
}

impl<T: Add<Output = T> + Copy> AddSpecImpl<&Vec3<T>> for Vec3<T> {
    open spec fn obeys_add_spec() -> bool {
        T::obeys_add_spec()
    }

    open spec fn add_req(self, rhs: &Vec3<T>) -> bool {
        sum3_ok(self, *rhs)
    }

    open spec fn add_spec(self, rhs: &Vec3<T>) -> Vec3<T> {
        sum3(self, *rhs)
    }
}

// Vec3 + &Vec3
impl<T: Add<Output = T> + Copy> Add<&Vec3<T>> for Vec3<T> {
    type Output = Vec3<T>;

    fn add(self, rhs: &Vec3<T>) -> (r: Vec3<T>) {
        Vec3 { v: [self.v[0] + rhs.v[0], self.v[1] + rhs.v[1], self.v[2] + rhs.v[2]] }
    }
}

impl<T: Add<Output = T> + Copy> AddSpecImpl<Vec3<T>> for &Vec3<T> {
    open spec fn obeys_add_spec() -> bool {
        T::obeys_add_spec()
    }

    open spec fn add_req(self, rhs: Vec3<T>) -> bool {
        sum3_ok(*self, rhs)
    }

    open spec fn add_spec(self, rhs: Vec3<T>) -> Vec3<T> {
        sum3(*self, rhs)
    }
}

// &Vec3 + Vec3
impl<T: Add<Output = T> + Copy> Add<Vec3<T>> for &Vec3<T> {
    type Output = Vec3<T>;

    fn add(self, rhs: Vec3<T>) -> (r: Vec3<T>) {
        Vec3 { v: [self.v[0] + rhs.v[0], self.v[1] + rhs.v[1], self.v[2] + rhs.v[2]] }
    }
}

impl<T: Add<Output = T> + Copy> AddSpecImpl<Vec3<T>> for Vec3<T> {
    open spec fn obeys_add_spec() -> bool {
        T::obeys_add_spec()
    }

    open spec fn add_req(self, rhs: Vec3<T>) -> bool {
        sum3_ok(self, rhs)
    }

    open spec fn add_spec(self, rhs: Vec3<T>) -> Vec3<T> {
        sum3(self, rhs)
    }
}

// Vec3 + Vec3
impl<T: Add<Output = T> + Copy> Add<Vec3<T>> for Vec3<T> {
    type Output = Vec3<T>;

    fn add(self, rhs: Vec3<T>) -> (r: Vec3<T>) {
        Vec3 { v: [self.v[0] + rhs.v[0], self.v[1] + rhs.v[1], self.v[2] + rhs.v[2]] }
    }
}

// Vec3 += scalar
impl<T: Add<Output = T> + Copy> AddAssign<T> for Vec3<T> {
    fn add_assign(&mut self, rhs: T)
        requires
            sum3_scalar_ok(*old(self), rhs),
        ensures
            T::obeys_add_spec() ==> final(self).v@ == sum3_scalar(*old(self), rhs).v@,
    {
        self.v[0] = self.v[0] + rhs;
        self.v[1] = self.v[1] + rhs;
        self.v[2] = self.v[2] + rhs;
    }
}

// Vec3 += &Vec3
impl<T: Add<Output = T> + Copy> AddAssign<&Vec3<T>> for Vec3<T> {
    fn add_assign(&mut self, rhs: &Vec3<T>)
        requires
            sum3_ok(*old(self), *rhs),
        ensures
            T::obeys_add_spec() ==> final(self).v@ == sum3(*old(self), *rhs).v@,
    {
        self.v[0] = self.v[0] + rhs.v[0];
        self.v[1] = self.v[1] + rhs.v[1];
        self.v[2] = self.v[2] + rhs.v[2];
    }
}

// Vec3 += Vec3
impl<T: Add<Output = T> + Copy> AddAssign<Vec3<T>> for Vec3<T> {
    fn add_assign(&mut self, rhs: Vec3<T>)
        requires
            sum3_ok(*old(self), rhs),
        ensures
            T::obeys_add_spec() ==> final(self).v@ == sum3(*old(self), rhs).v@,
    {
        self.v[0] = self.v[0] + rhs.v[0];
        self.v[1] = self.v[1] + rhs.v[1];
        self.v[2] = self.v[2] + rhs.v[2];
    }
}

impl<T: Sub<Output = T> + Copy> SubSpecImpl<T> for Vec3<T> {
    open spec fn obeys_sub_spec() -> bool {
        T::obeys_sub_spec()
    }

    open spec fn sub_req(self, rhs: T) -> bool {
        diff3_scalar_ok(self, rhs)
    }

    open spec fn sub_spec(self, rhs: T) -> Vec3<T> {
        diff3_scalar(self, rhs)
    }
}

// Vec3 - scalar
impl<T: Sub<Output = T> + Copy> Sub<T> for Vec3<T> {
    type Output = Vec3<T>;

    fn sub(self, rhs: T) -> (r: Vec3<T>) {
        Vec3 { v: [self.v[0] - rhs, self.v[1] - rhs, self.v[2] - rhs] }
    }
}

impl<T: Sub<Output = T> + Copy> SubSpecImpl<T> for &Vec3<T> {
    open spec fn obeys_sub_spec() -> bool {
        T::obeys_sub_spec()
    }

    open spec fn sub_req(self, rhs: T) -> bool {
        diff3_scalar_ok(*self, rhs)
    }

    open spec fn sub_spec(self, rhs: T) -> Vec3<T> {
        diff3_scalar(*self, rhs)
    }
}

// &Vec3 - scalar
impl<T: Sub<Output = T> + Copy> Sub<T> for &Vec3<T> {
    type Output = Vec3<T>;

    fn sub(self, rhs: T) -> (r: Vec3<T>) {
        Vec3 { v: [self.v[0] - rhs, self.v[1] - rhs, self.v[2] - rhs] }
    }
}

impl<T: Sub<Output = T> + Copy> SubSpecImpl<&Vec3<T>> for &Vec3<T> {
    open spec fn obeys_sub_spec() -> bool {
        T::obeys_sub_spec()
    }

    open spec fn sub_req(self, rhs: &Vec3<T>) -> bool {
        diff3_ok(*self, *rhs)
    }

    open spec fn sub_spec(self, rhs: &Vec3<T>) -> Vec3<T> {
        diff3(*self, *rhs)
    }
}

// &Vec3 - &Vec3
impl<T: Sub<Output = T> + Copy> Sub<&Vec3<T>> for &Vec3<T> {
    type Output = Vec3<T>;

    fn sub(self, rhs: &Vec3<T>) -> (r: Vec3<T>) {
        Vec3 { v: [self.v[0] - rhs.v[0], self.v[1] - rhs.v[1], self.v[2] - rhs.v[2]] }
    }
}

impl<T: Sub<Output = T> + Copy> SubSpecImpl<&Vec3<T>> for Vec3<T> {
    open spec fn obeys_sub_spec() -> bool {
        T::obeys_sub_spec()
    }

    open spec fn sub_req(self, rhs: &Vec3<T>) -> bool {
        diff3_ok(self, *rhs)
    }

    open spec fn sub_spec(self, rhs: &Vec3<T>) -> Vec3<T> {
        diff3(self, *rhs)
    }
}

// Vec3 - &Vec3
impl<T: Sub<Output = T> + Copy> Sub<&Vec3<T>> for Vec3<T> {
    type Output = Vec3<T>;

    fn sub(self, rhs: &Vec3<T>) -> (r: Vec3<T>) {
        Vec3 { v: [self.v[0] - rhs.v[0], self.v[1] - rhs.v[1], self.v[2] - rhs.v[2]] }
    }
}

impl<T: Sub<Output = T> + Copy> SubSpecImpl<Vec3<T>> for &Vec3<T> {
    open spec fn obeys_sub_spec() -> bool {
        T::obeys_sub_spec()
    }

    open spec fn sub_req(self, rhs: Vec3<T>) -> bool {
        diff3_ok(*self, rhs)
    }

    open spec fn sub_spec(self, rhs: Vec3<T>) -> Vec3<T> {
        diff3(*self, rhs)
    }
}

// &Vec3 - Vec3
impl<T: Sub<Output = T> + Copy> Sub<Vec3<T>> for &Vec3<T> {
    type Output = Vec3<T>;

    fn sub(self, rhs: Vec3<T>) -> (r: Vec3<T>) {
        Vec3 { v: [self.v[0] - rhs.v[0], self.v[1] - rhs.v[1], self.v[2] - rhs.v[2]] }
    }
}

impl<T: Sub<Output = T> + Copy> SubSpecImpl<Vec3<T>> for Vec3<T> {
    open spec fn obeys_sub_spec() -> bool {
        T::obeys_sub_spec()
    }

    open spec fn sub_req(self, rhs: Vec3<T>) -> bool {
        diff3_ok(self, rhs)
    }

    open spec fn sub_spec(self, rhs: Vec3<T>) -> Vec3<T> {
        diff3(self, rhs)
    }
}

// Vec3 - Vec3
impl<T: Sub<Output = T> + Copy> Sub<Vec3<T>> for Vec3<T> {
    type Output = Vec3<T>;

    fn sub(self, rhs: Vec3<T>) -> (r: Vec3<T>) {
        Vec3 { v: [self.v[0] - rhs.v[0], self.v[1] - rhs.v[1], self.v[2] - rhs.v[2]] }
    }
}

// Vec3 -= scalar
impl<T: Sub<Output = T> + Copy> SubAssign<T> for Vec3<T> {
    fn sub_assign(&mut self, rhs: T)
        requires
            diff3_scalar_ok(*old(self), rhs),
        ensures
            T::obeys_sub_spec() ==> final(self).v@ == diff3_scalar(*old(self), rhs).v@,
    {
        self.v[0] = self.v[0] - rhs;
        self.v[1] = self.v[1] - rhs;
        self.v[2] = self.v[2] - rhs;
    }
}

// Vec3 -= &Vec3
impl<T: Sub<Output = T> + Copy> SubAssign<&Vec3<T>> for Vec3<T> {
    fn sub_assign(&mut self, rhs: &Vec3<T>)
        requires
            diff3_ok(*old(self), *rhs),
        ensures
            T::obeys_sub_spec() ==> final(self).v@ == diff3(*old(self), *rhs).v@,
    {
        self.v[0] = self.v[0] - rhs.v[0];
        self.v[1] = self.v[1] - rhs.v[1];
        self.v[2] = self.v[2] - rhs.v[2];
    }
}

// Vec3 -= Vec3
impl<T: Sub<Output = T> + Copy> SubAssign<Vec3<T>> for Vec3<T> {
    fn sub_assign(&mut self, rhs: Vec3<T>)
        requires
            diff3_ok(*old(self), rhs),
        ensures
            T::obeys_sub_spec() ==> final(self).v@ == diff3(*old(self), rhs).v@,
    {
        self.v[0] = self.v[0] - rhs.v[0];
        self.v[1] = self.v[1] - rhs.v[1];
        self.v[2] = self.v[2] - rhs.v[2];
    }
}

impl<T: Mul<Output = T> + Copy> MulSpecImpl<T> for Vec3<T> {
    open spec fn obeys_mul_spec() -> bool {
        T::obeys_mul_spec()
    }

    open spec fn mul_req(self, rhs: T) -> bool {
        prod3_scalar_ok(self, rhs)
    }

    open spec fn mul_spec(self, rhs: T) -> Vec3<T> {
        prod3_scalar(self, rhs)
    }
}

// Vec3 * scalar
impl<T: Mul<Output = T> + Copy> Mul<T> for Vec3<T> {
    type Output = Vec3<T>;

    fn mul(self, rhs: T) -> (r: Vec3<T>) {
        Vec3 { v: [self.v[0] * rhs, self.v[1] * rhs, self.v[2] * rhs] }
    }
}

impl<T: Mul<Output = T> + Copy> MulSpecImpl<T> for &Vec3<T> {
    open spec fn obeys_mul_spec() -> bool {
        T::obeys_mul_spec()
    }

    open spec fn mul_req(self, rhs: T) -> bool {
        prod3_scalar_ok(*self, rhs)
    }

    open spec fn mul_spec(self, rhs: T) -> Vec3<T> {
        prod3_scalar(*self, rhs)
    }
}

// &Vec3 * scalar
impl<T: Mul<Output = T> + Copy> Mul<T> for &Vec3<T> {
    type Output = Vec3<T>;

    fn mul(self, rhs: T) -> (r: Vec3<T>) {
        Vec3 { v: [self.v[0] * rhs, self.v[1] * rhs, self.v[2] * rhs] }
    }
}

impl<T: Mul<Output = T> + Copy> MulSpecImpl<&Vec3<T>> for &Vec3<T> {
    open spec fn obeys_mul_spec() -> bool {
        T::obeys_mul_spec()
    }

    open spec fn mul_req(self, rhs: &Vec3<T>) -> bool {
        prod3_ok(*self, *rhs)
    }

    open spec fn mul_spec(self, rhs: &Vec3<T>) -> Vec3<T> {
        prod3(*self, *rhs)
    }
}

// &Vec3 * &Vec3
impl<T: Mul<Output = T> + Copy> Mul<&Vec3<T>> for &Vec3<T> {
    type Output = Vec3<T>;

    fn mul(self, rhs: &Vec3<T>) -> (r: Vec3<T>) {
        Vec3 { v: [self.v[0] * rhs.v[0], self.v[1] * rhs.v[1], self.v[2] * rhs.v[2]] }
    }
}

impl<T: Mul<Output = T> + Copy> MulSpecImpl<&Vec3<T>> for Vec3<T> {
    open spec fn obeys_mul_spec() -> bool {
        T::obeys_mul_spec()
    }

    open spec fn mul_req(self, rhs: &Vec3<T>) -> bool {
        prod3_ok(self, *rhs)
    }

    open spec fn mul_spec(self, rhs: &Vec3<T>) -> Vec3<T> {
        prod3(self, *rhs)
    }
}

// Vec3 * &Vec3
impl<T: Mul<Output = T> + Copy> Mul<&Vec3<T>> for Vec3<T> {
    type Output = Vec3<T>;

    fn mul(self, rhs: &Vec3<T>) -> (r: Vec3<T>) {
        Vec3 { v: [self.v[0] * rhs.v[0], self.v[1] * rhs.v[1], self.v[2] * rhs.v[2]] }
    }
}

impl<T: Mul<Output = T> + Copy> MulSpecImpl<Vec3<T>> for &Vec3<T> {
    open spec fn obeys_mul_spec() -> bool {
        T::obeys_mul_spec()
    }

    open spec fn mul_req(self, rhs: Vec3<T>) -> bool {
        prod3_ok(*self, rhs)
    }

    open spec fn mul_spec(self, rhs: Vec3<T>) -> Vec3<T> {
        prod3(*self, rhs)
    }
}

// &Vec3 * Vec3
impl<T: Mul<Output = T> + Copy> Mul<Vec3<T>> for &Vec3<T> {
    type Output = Vec3<T>;

    fn mul(self, rhs: Vec3<T>) -> (r: Vec3<T>) {
        Vec3 { v: [self.v[0] * rhs.v[0], self.v[1] * rhs.v[1], self.v[2] * rhs.v[2]] }
    }
}

impl<T: Mul<Output = T> + Copy> MulSpecImpl<Vec3<T>> for Vec3<T> {
    open spec fn obeys_mul_spec() -> bool {
        T::obeys_mul_spec()
    }

    open spec fn mul_req(self, rhs: Vec3<T>) -> bool {
        prod3_ok(self, rhs)
    }

    open spec fn mul_spec(self, rhs: Vec3<T>) -> Vec3<T> {
        prod3(self, rhs)
    }
}

// Vec3 * Vec3
impl<T: Mul<Output = T> + Copy> Mul<Vec3<T>> for Vec3<T> {
    type Output = Vec3<T>;

    fn mul(self, rhs: Vec3<T>) -> (r: Vec3<T>) {
        Vec3 { v: [self.v[0] * rhs.v[0], self.v[1] * rhs.v[1], self.v[2] * rhs.v[2]] }
    }
}

// Vec3 *= scalar
impl<T: Mul<Output = T> + Copy> MulAssign<T> for Vec3<T> {
    fn mul_assign(&mut self, rhs: T)
        requires
            prod3_scalar_ok(*old(self), rhs),
        ensures
            T::obeys_mul_spec() ==> final(self).v@ == prod3_scalar(*old(self), rhs).v@,
    {
        self.v[0] = self.v[0] * rhs;
        self.v[1] = self.v[1] * rhs;
        self.v[2] = self.v[2] * rhs;
    }
}

// Vec3 *= &Vec3
impl<T: Mul<Output = T> + Copy> MulAssign<&Vec3<T>> for Vec3<T> {
    fn mul_assign(&mut self, rhs: &Vec3<T>)
        requires
            prod3_ok(*old(self), *rhs),
        ensures
            T::obeys_mul_spec() ==> final(self).v@ == prod3(*old(self), *rhs).v@,
    {
        self.v[0] = self.v[0] * rhs.v[0];
        self.v[1] = self.v[1] * rhs.v[1];
        self.v[2] = self.v[2] * rhs.v[2];
    }
}

// Vec3 *= Vec3
impl<T: Mul<Output = T> + Copy> MulAssign<Vec3<T>> for Vec3<T> {
    fn mul_assign(&mut self, rhs: Vec3<T>)
        requires
            prod3_ok(*old(self), rhs),
        ensures
            T::obeys_mul_spec() ==> final(self).v@ == prod3(*old(self), rhs).v@,
    {
        self.v[0] = self.v[0] * rhs.v[0];
        self.v[1] = self.v[1] * rhs.v[1];
        self.v[2] = self.v[2] * rhs.v[2];
    }
}

impl<T: Div<Output = T> + Copy> DivSpecImpl<T> for Vec3<T> {
    open spec fn obeys_div_spec() -> bool {
        T::obeys_div_spec()
    }

    open spec fn div_req(self, rhs: T) -> bool {
        quot3_scalar_ok(self, rhs)
    }

    open spec fn div_spec(self, rhs: T) -> Vec3<T> {
        quot3_scalar(self, rhs)
    }
}

// Vec3 / scalar
impl<T: Div<Output = T> + Copy> Div<T> for Vec3<T> {
    type Output = Vec3<T>;

    fn div(self, rhs: T) -> (r: Vec3<T>) {
        Vec3 { v: [self.v[0] / rhs, self.v[1] / rhs, self.v[2] / rhs] }
    }
}

impl<T: Div<Output = T> + Copy> DivSpecImpl<T> for &Vec3<T> {
    open spec fn obeys_div_spec() -> bool {
        T::obeys_div_spec()
    }

    open spec fn div_req(self, rhs: T) -> bool {
        quot3_scalar_ok(*self, rhs)
    }

    open spec fn div_spec(self, rhs: T) -> Vec3<T> {
        quot3_scalar(*self, rhs)
    }
}

// &Vec3 / scalar
impl<T: Div<Output = T> + Copy> Div<T> for &Vec3<T> {
    type Output = Vec3<T>;

    fn div(self, rhs: T) -> (r: Vec3<T>) {
        Vec3 { v: [self.v[0] / rhs, self.v[1] / rhs, self.v[2] / rhs] }
    }
}

impl<T: Div<Output = T> + Copy> DivSpecImpl<&Vec3<T>> for &Vec3<T> {
    open spec fn obeys_div_spec() -> bool {
        T::obeys_div_spec()
    }

    open spec fn div_req(self, rhs: &Vec3<T>) -> bool {
        quot3_ok(*self, *rhs)
    }

    open spec fn div_spec(self, rhs: &Vec3<T>) -> Vec3<T> {
        quot3(*self, *rhs)
    }
}

// &Vec3 / &Vec3
impl<T: Div<Output = T> + Copy> Div<&Vec3<T>> for &Vec3<T> {
    type Output = Vec3<T>;

    fn div(self, rhs: &Vec3<T>) -> (r: Vec3<T>) {
        Vec3 { v: [self.v[0] / rhs.v[0], self.v[1] / rhs.v[1], self.v[2] / rhs.v[2]] }
    }
}

impl<T: Div<Output = T> + Copy> DivSpecImpl<&Vec3<T>> for Vec3<T> {
    open spec fn obeys_div_spec() -> bool {
        T::obeys_div_spec()
    }

    open spec fn div_req(self, rhs: &Vec3<T>) -> bool {
        quot3_ok(self, *rhs)
    }

    open spec fn div_spec(self, rhs: &Vec3<T>) -> Vec3<T> {
        quot3(self, *rhs)
    }
}

// Vec3 / &Vec3
impl<T: Div<Output = T> + Copy> Div<&Vec3<T>> for Vec3<T> {
    type Output = Vec3<T>;

    fn div(self, rhs: &Vec3<T>) -> (r: Vec3<T>) {
        Vec3 { v: [self.v[0] / rhs.v[0], self.v[1] / rhs.v[1], self.v[2] / rhs.v[2]] }
    }
}

impl<T: Div<Output = T> + Copy> DivSpecImpl<Vec3<T>> for &Vec3<T> {
    open spec fn obeys_div_spec() -> bool {
        T::obeys_div_spec()
    }

    open spec fn div_req(self, rhs: Vec3<T>) -> bool {
        quot3_ok(*self, rhs)
    }

    open spec fn div_spec(self, rhs: Vec3<T>) -> Vec3<T> {
        quot3(*self, rhs)
    }
}

// &Vec3 / Vec3
impl<T: Div<Output = T> + Copy> Div<Vec3<T>> for &Vec3<T> {
    type Output = Vec3<T>;

    fn div(self, rhs: Vec3<T>) -> (r: Vec3<T>) {
        Vec3 { v: [self.v[0] / rhs.v[0], self.v[1] / rhs.v[1], self.v[2] / rhs.v[2]] }
    }
}

impl<T: Div<Output = T> + Copy> DivSpecImpl<Vec3<T>> for Vec3<T> {
    open spec fn obeys_div_spec() -> bool {
        T::obeys_div_spec()
    }

    open spec fn div_req(self, rhs: Vec3<T>) -> bool {
        quot3_ok(self, rhs)
    }

    open spec fn div_spec(self, rhs: Vec3<T>) -> Vec3<T> {
        quot3(self, rhs)
    }
}

// Vec3 / Vec3
impl<T: Div<Output = T> + Copy> Div<Vec3<T>> for Vec3<T> {
    type Output = Vec3<T>;

    fn div(self, rhs: Vec3<T>) -> (r: Vec3<T>) {
        Vec3 { v: [self.v[0] / rhs.v[0], self.v[1] / rhs.v[1], self.v[2] / rhs.v[2]] }
    }
}

// Vec3 /= scalar
impl<T: Div<Output = T> + Copy> DivAssign<T> for Vec3<T> {
    fn div_assign(&mut self, rhs: T)
        requires
            quot3_scalar_ok(*old(self), rhs),
        ensures
            T::obeys_div_spec() ==> final(self).v@ == quot3_scalar(*old(self), rhs).v@,
    {
        self.v[0] = self.v[0] / rhs;
        self.v[1] = self.v[1] / rhs;
        self.v[2] = self.v[2] / rhs;
    }
}

// Vec3 /= &Vec3
impl<T: Div<Output = T> + Copy> DivAssign<&Vec3<T>> for Vec3<T> {
    fn div_assign(&mut self, rhs: &Vec3<T>)
        requires
            quot3_ok(*old(self), *rhs),
        ensures
            T::obeys_div_spec() ==> final(self).v@ == quot3(*old(self), *rhs).v@,
    {
        self.v[0] = self.v[0] / rhs.v[0];
        self.v[1] = self.v[1] / rhs.v[1];
        self.v[2] = self.v[2] / rhs.v[2];
    }
}

// Vec3 /= Vec3
impl<T: Div<Output = T> + Copy> DivAssign<Vec3<T>> for Vec3<T> {
    fn div_assign(&mut self, rhs: Vec3<T>)
        requires
            quot3_ok(*old(self), rhs),
        ensures
            T::obeys_div_spec() ==> final(self).v@ == quot3(*old(self), rhs).v@,
    {
        self.v[0] = self.v[0] / rhs.v[0];
        self.v[1] = self.v[1] / rhs.v[1];
        self.v[2] = self.v[2] / rhs.v[2];
    }
}

impl<T> Vec3<T> where T: PartialOrd + Copy + Mul<Output = T> + Add<Output = T> + Sub<Output = T> {
    /// The sum of the squares of the components, `x*x + y*y + z*z`, by `T`'s own arithmetic.
    pub open spec fn spec_squared_length(self) -> T {
        self.v[0].mul_spec(self.v[0]).add_spec(self.v[1].mul_spec(self.v[1])).add_spec(
            self.v[2].mul_spec(self.v[2]),
        )
    }

    /// `T`'s arithmetic follows its specification and accepts every step of `squared_length`.
    pub open spec fn squared_length_ok(self) -> bool {
        &&& T::obeys_mul_spec()
        &&& T::obeys_add_spec()
        &&& self.v[0].mul_req(self.v[0])
        &&& self.v[1].mul_req(self.v[1])
        &&& self.v[2].mul_req(self.v[2])
        &&& self.v[0].mul_spec(self.v[0]).add_req(self.v[1].mul_spec(self.v[1]))
        &&& self.v[0].mul_spec(self.v[0]).add_spec(self.v[1].mul_spec(self.v[1])).add_req(
            self.v[2].mul_spec(self.v[2]),
        )
    }

    /// The dot product `x*ox + y*oy + z*oz`, by `T`'s own arithmetic.
    pub open spec fn spec_dot(self, other: Self) -> T {
        self.v[0].mul_spec(other.v[0]).add_spec(self.v[1].mul_spec(other.v[1])).add_spec(
            self.v[2].mul_spec(other.v[2]),
        )
    }

    /// `T`'s arithmetic follows its specification and accepts every step of `dot`.
    pub open spec fn dot_ok(self, other: Self) -> bool {
        &&& T::obeys_mul_spec()
        &&& T::obeys_add_spec()
        &&& self.v[0].mul_req(other.v[0])
        &&& self.v[1].mul_req(other.v[1])
        &&& self.v[2].mul_req(other.v[2])
        &&& self.v[0].mul_spec(other.v[0]).add_req(self.v[1].mul_spec(other.v[1]))
        &&& self.v[0].mul_spec(other.v[0]).add_spec(self.v[1].mul_spec(other.v[1])).add_req(
            self.v[2].mul_spec(other.v[2]),
        )
    }

    /// The cross product `(y*oz - oy*z, z*ox - x*oz, x*oy - y*ox)`, by `T`'s own arithmetic.
    pub open spec fn spec_cross(self, other: Self) -> Self {
        Vec3 {
            v: [
                self.v[1].mul_spec(other.v[2]).sub_spec(other.v[1].mul_spec(self.v[2])),
                self.v[2].mul_spec(other.v[0]).sub_spec(self.v[0].mul_spec(other.v[2])),
                self.v[0].mul_spec(other.v[1]).sub_spec(self.v[1].mul_spec(other.v[0])),
            ],
        }
    }

    /// `T`'s arithmetic follows its specification and accepts every step of `cross`.
    pub open spec fn cross_ok(self, other: Self) -> bool {
        &&& T::obeys_mul_spec()
        &&& T::obeys_sub_spec()
        &&& self.v[1].mul_req(other.v[2])
        &&& other.v[1].mul_req(self.v[2])
        &&& self.v[2].mul_req(other.v[0])
        &&& self.v[0].mul_req(other.v[2])
        &&& self.v[0].mul_req(other.v[1])
        &&& self.v[1].mul_req(other.v[0])
        &&& self.v[1].mul_spec(other.v[2]).sub_req(other.v[1].mul_spec(self.v[2]))
        &&& self.v[2].mul_spec(other.v[0]).sub_req(self.v[0].mul_spec(other.v[2]))
        &&& self.v[0].mul_spec(other.v[1]).sub_req(self.v[1].mul_spec(other.v[0]))
    }

    /// The largest component, found as `max_component` compares: the first component wins
    /// unless the second is greater than it, and the third wins only when it is greater
    /// than the winner of the first two.
    pub open spec fn spec_max_component(self) -> T {
        if self.v[0].is_gt(&self.v[1]) {
            if self.v[2].is_gt(&self.v[0]) {
                self.v[2]
            } else {
                self.v[0]
            }
        } else {
            if self.v[2].is_gt(&self.v[1]) {
                self.v[2]
            } else {
                self.v[1]
            }
        }
    }

    /// The smallest component, found as `min_component` compares (the mirror image of
    /// `spec_max_component`).
    pub open spec fn spec_min_component(self) -> T {
        if self.v[0].is_lt(&self.v[1]) {
            if self.v[2].is_lt(&self.v[0]) {
                self.v[2]
            } else {
                self.v[0]
            }
        } else {
            if self.v[2].is_lt(&self.v[1]) {
                self.v[2]
            } else {
                self.v[1]
            }
        }
    }

    pub fn new(x: T, y: T, z: T) -> (r: Self)
        ensures
            r.v@ == seq![x, y, z],
    {
        Self { v: [x, y, z] }
    }

    pub fn squared_length(&self) -> (r: T)
        requires
            self.squared_length_ok(),
        ensures
            r == self.spec_squared_length(),
    {
        self.v[0] * self.v[0] + self.v[1] * self.v[1] + self.v[2] * self.v[2]
    }

    pub fn dot(&self, other: &Self) -> (r: T)
        requires
            self.dot_ok(*other),
        ensures
            r == self.spec_dot(*other),
    {
        self.v[0] * other.v[0] + self.v[1] * other.v[1] + self.v[2] * other.v[2]
    }

    pub fn cross(&self, other: &Self) -> (r: Vec3<T>)
        requires
            self.cross_ok(*other),
        ensures
            r.v@ == self.spec_cross(*other).v@,
    {
        Vec3::<T> {
            v: [
                self.v[1] * other.v[2] - other.v[1] * self.v[2],
                self.v[2] * other.v[0] - self.v[0] * other.v[2],
                self.v[0] * other.v[1] - self.v[1] * other.v[0],
            ],
        }
    }

    pub fn max_component(&self) -> (r: T)
        ensures
            T::obeys_partial_cmp_spec() ==> r == self.spec_max_component(),
    {
        if self.v[0] > self.v[1] {
            if self.v[2] > self.v[0] {
                return self.v[2];
            }
            return self.v[0];
        } else {
            if self.v[2] > self.v[1] {
                return self.v[2];
            }
            return self.v[1];
        }
    }

    pub fn min_component(&self) -> (r: T)
        ensures
            T::obeys_partial_cmp_spec() ==> r == self.spec_min_component(),
    {
        if self.v[0] < self.v[1] {
            if self.v[2] < self.v[0] {
                return self.v[2];
            }
            return self.v[0];
        } else {
            if self.v[2] < self.v[1] {
                return self.v[2];
            }
            return self.v[1];
        }
    }

    pub fn to_array(&self) -> (r: [T; 3])
        ensures
            r@ == self.v@,
    {
        [self.v[0], self.v[1], self.v[2]]
    }
}

/// The cross product of two integer vectors is perpendicular to both of them, when no step of
/// the products overflows.
pub proof fn law_cross_is_perpendicular(a: Vec3<i64>, b: Vec3<i64>)
    requires
        a.cross_ok(b),
        a.dot_ok(a.spec_cross(b)),
        b.dot_ok(a.spec_cross(b)),
    ensures
        a.spec_dot(a.spec_cross(b)) == 0,
        b.spec_dot(a.spec_cross(b)) == 0,
{
    let c = a.spec_cross(b);
    let (a0, a1, a2) = (a.v[0] as int, a.v[1] as int, a.v[2] as int);
    let (b0, b1, b2) = (b.v[0] as int, b.v[1] as int, b.v[2] as int);
    assert(c.v[0] == a1 * b2 - b1 * a2);
    assert(c.v[1] == a2 * b0 - a0 * b2);
    assert(c.v[2] == a0 * b1 - a1 * b0);
    assert(a0 * (a1 * b2 - b1 * a2) + a1 * (a2 * b0 - a0 * b2) + a2 * (a0 * b1 - a1 * b0) == 0)
        by (nonlinear_arith);
    assert(b0 * (a1 * b2 - b1 * a2) + b1 * (a2 * b0 - a0 * b2) + b2 * (a0 * b1 - a1 * b0) == 0)
        by (nonlinear_arith);
}

/// Swapping the operands of the cross product of two integer vectors negates each component,
/// when no step of either product overflows.
pub proof fn law_cross_is_antisymmetric(a: Vec3<i64>, b: Vec3<i64>)
    requires
        a.cross_ok(b),
        b.cross_ok(a),
    ensures
        b.spec_cross(a).v[0] == -a.spec_cross(b).v[0],
        b.spec_cross(a).v[1] == -a.spec_cross(b).v[1],
        b.spec_cross(a).v[2] == -a.spec_cross(b).v[2],
{
    let (a0, a1, a2) = (a.v[0] as int, a.v[1] as int, a.v[2] as int);
    let (b0, b1, b2) = (b.v[0] as int, b.v[1] as int, b.v[2] as int);
    assert(a2 * b0 == b0 * a2 && a0 * b2 == b2 * a0 && a0 * b1 == b1 * a0 && a1 * b0 == b0 * a1
        && a1 * b2 == b2 * a1 && b1 * a2 == a2 * b1) by (nonlinear_arith);
}

/// For a lawful order, `max_component` is one of the components and none is greater.
pub proof fn law_max_component_is_greatest<T>(a: Vec3<T>)
    where
        T: Ord + Copy + Mul<Output = T> + Add<Output = T> + Sub<Output = T>,
    requires
        lawful_order::<T>(),
    ensures
        a.spec_max_component() == a.v[0] || a.spec_max_component() == a.v[1]
            || a.spec_max_component() == a.v[2],
        le(a.v[0], a.spec_max_component()),
        le(a.v[1], a.spec_max_component()),
        le(a.v[2], a.spec_max_component()),
{
    lemma_total_order::<T>();
    let (x, y, z) = (a.v[0], a.v[1], a.v[2]);
    assert(lt(y, x) == x.is_gt(&y)) by {
        reveal(vstd::laws_cmp::obeys_partial_cmp_spec_properties);
    }
    assert(lt(x, z) == z.is_gt(&x)) by {
        reveal(vstd::laws_cmp::obeys_partial_cmp_spec_properties);
    }
    assert(lt(y, z) == z.is_gt(&y)) by {
        reveal(vstd::laws_cmp::obeys_partial_cmp_spec_properties);
    }
    if lt(y, x) {
        if lt(x, z) {
        } else {
        }
    } else {
        if lt(y, z) {
        } else {
        }
    }
}

/// For a lawful order, `min_component` is one of the components and none is smaller.
pub proof fn law_min_component_is_least<T>(a: Vec3<T>)
    where
        T: Ord + Copy + Mul<Output = T> + Add<Output = T> + Sub<Output = T>,
    requires
        lawful_order::<T>(),
    ensures
        a.spec_min_component() == a.v[0] || a.spec_min_component() == a.v[1]
            || a.spec_min_component() == a.v[2],
        le(a.spec_min_component(), a.v[0]),
        le(a.spec_min_component(), a.v[1]),
        le(a.spec_min_component(), a.v[2]),
{
    lemma_total_order::<T>();
    let (x, y, z) = (a.v[0], a.v[1], a.v[2]);
    if lt(x, y) {
        if lt(z, x) {
        } else {
        }
    } else {
        if lt(z, y) {
        } else {
        }
    }
}

/// Component `i` of `r` is `f` applied to component `i` of `a` and component `i` of `b`.
pub open spec fn componentwise<T>(r: Vec3<T>, a: Vec3<T>, b: Vec3<T>, f: spec_fn(T, T) -> T) -> bool {
    &&& r.v[0] == f(a.v[0], b.v[0])
    &&& r.v[1] == f(a.v[1], b.v[1])
    &&& r.v[2] == f(a.v[2], b.v[2])
}

/// Component `i` of `r` is `f` applied to component `i` of `a` and the scalar `s`.
pub open spec fn componentwise_scalar<T>(r: Vec3<T>, a: Vec3<T>, s: T, f: spec_fn(T, T) -> T) -> bool {
    &&& r.v[0] == f(a.v[0], s)
    &&& r.v[1] == f(a.v[1], s)
    &&& r.v[2] == f(a.v[2], s)
}

/// Vector addition works component by component in every form the operator takes: each
/// component of the result is the matching component of `a` plus the scalar `s`, or plus
/// the matching component of `b`; the assigning forms (`+=`) give the same.
pub proof fn law_addition_is_componentwise<T: Add<Output = T> + Copy>(a: Vec3<T>, b: Vec3<T>, s: T)
    ensures
        componentwise_scalar(<Vec3<T> as AddSpec<T>>::add_spec(a, s), a, s, |x: T, y: T| x.add_spec(y)),
        componentwise_scalar(<&Vec3<T> as AddSpec<T>>::add_spec(&a, s), a, s, |x: T, y: T| x.add_spec(y)),
        componentwise(<&Vec3<T> as AddSpec<&Vec3<T>>>::add_spec(&a, &b), a, b, |x: T, y: T| x.add_spec(y)),
        componentwise(<Vec3<T> as AddSpec<&Vec3<T>>>::add_spec(a, &b), a, b, |x: T, y: T| x.add_spec(y)),
        componentwise(<&Vec3<T> as AddSpec<Vec3<T>>>::add_spec(&a, b), a, b, |x: T, y: T| x.add_spec(y)),
        componentwise(<Vec3<T> as AddSpec<Vec3<T>>>::add_spec(a, b), a, b, |x: T, y: T| x.add_spec(y)),
        componentwise_scalar(sum3_scalar(a, s), a, s, |x: T, y: T| x.add_spec(y)),
        componentwise(sum3(a, b), a, b, |x: T, y: T| x.add_spec(y)),
{
}

/// Vector subtraction works component by component in every form the operator takes: each
/// component of the result is the matching component of `a` minus the scalar `s`, or minus
/// the matching component of `b`; the assigning forms (`-=`) give the same.
pub proof fn law_subtraction_is_componentwise<T: Sub<Output = T> + Copy>(a: Vec3<T>, b: Vec3<T>, s: T)
    ensures
        componentwise_scalar(<Vec3<T> as SubSpec<T>>::sub_spec(a, s), a, s, |x: T, y: T| x.sub_spec(y)),
        componentwise_scalar(<&Vec3<T> as SubSpec<T>>::sub_spec(&a, s), a, s, |x: T, y: T| x.sub_spec(y)),
        componentwise(<&Vec3<T> as SubSpec<&Vec3<T>>>::sub_spec(&a, &b), a, b, |x: T, y: T| x.sub_spec(y)),
        componentwise(<Vec3<T> as SubSpec<&Vec3<T>>>::sub_spec(a, &b), a, b, |x: T, y: T| x.sub_spec(y)),
        componentwise(<&Vec3<T> as SubSpec<Vec3<T>>>::sub_spec(&a, b), a, b, |x: T, y: T| x.sub_spec(y)),
        componentwise(<Vec3<T> as SubSpec<Vec3<T>>>::sub_spec(a, b), a, b, |x: T, y: T| x.sub_spec(y)),
        componentwise_scalar(diff3_scalar(a, s), a, s, |x: T, y: T| x.sub_spec(y)),
        componentwise(diff3(a, b), a, b, |x: T, y: T| x.sub_spec(y)),
{
}

/// Vector multiplication works component by component in every form the operator takes: each
/// component of the result is the matching component of `a` times the scalar `s`, or times
/// the matching component of `b`; the assigning forms (`*=`) give the same.
pub proof fn law_multiplication_is_componentwise<T: Mul<Output = T> + Copy>(a: Vec3<T>, b: Vec3<T>, s: T)
    ensures
        componentwise_scalar(<Vec3<T> as MulSpec<T>>::mul_spec(a, s), a, s, |x: T, y: T| x.mul_spec(y)),
        componentwise_scalar(<&Vec3<T> as MulSpec<T>>::mul_spec(&a, s), a, s, |x: T, y: T| x.mul_spec(y)),
        componentwise(<&Vec3<T> as MulSpec<&Vec3<T>>>::mul_spec(&a, &b), a, b, |x: T, y: T| x.mul_spec(y)),
        componentwise(<Vec3<T> as MulSpec<&Vec3<T>>>::mul_spec(a, &b), a, b, |x: T, y: T| x.mul_spec(y)),
        componentwise(<&Vec3<T> as MulSpec<Vec3<T>>>::mul_spec(&a, b), a, b, |x: T, y: T| x.mul_spec(y)),
        componentwise(<Vec3<T> as MulSpec<Vec3<T>>>::mul_spec(a, b), a, b, |x: T, y: T| x.mul_spec(y)),
        componentwise_scalar(prod3_scalar(a, s), a, s, |x: T, y: T| x.mul_spec(y)),
        componentwise(prod3(a, b), a, b, |x: T, y: T| x.mul_spec(y)),
{
}

/// Vector division works component by component in every form the operator takes: each
/// component of the result is the matching component of `a` divided by the scalar `s`, or divided by
/// the matching component of `b`; the assigning forms (`/=`) give the same.
pub proof fn law_division_is_componentwise<T: Div<Output = T> + Copy>(a: Vec3<T>, b: Vec3<T>, s: T)
    ensures
        componentwise_scalar(<Vec3<T> as DivSpec<T>>::div_spec(a, s), a, s, |x: T, y: T| x.div_spec(y)),
        componentwise_scalar(<&Vec3<T> as DivSpec<T>>::div_spec(&a, s), a, s, |x: T, y: T| x.div_spec(y)),
        componentwise(<&Vec3<T> as DivSpec<&Vec3<T>>>::div_spec(&a, &b), a, b, |x: T, y: T| x.div_spec(y)),
        componentwise(<Vec3<T> as DivSpec<&Vec3<T>>>::div_spec(a, &b), a, b, |x: T, y: T| x.div_spec(y)),
        componentwise(<&Vec3<T> as DivSpec<Vec3<T>>>::div_spec(&a, b), a, b, |x: T, y: T| x.div_spec(y)),
        componentwise(<Vec3<T> as DivSpec<Vec3<T>>>::div_spec(a, b), a, b, |x: T, y: T| x.div_spec(y)),
        componentwise_scalar(quot3_scalar(a, s), a, s, |x: T, y: T| x.div_spec(y)),
        componentwise(quot3(a, b), a, b, |x: T, y: T| x.div_spec(y)),
{
}


/// Two vectors are equal by `==` exactly when each pair of matching components is equal by
/// `T`'s `==`; where `T`'s `==` is identity, exactly when they hold the same components.
pub proof fn law_equality_compares_every_component<T: PartialEq>(a: Vec3<T>, b: Vec3<T>)
    ensures
        <Vec3<T> as PartialEqSpec>::eq_spec(&a, &b) <==> (a.v[0].eq_spec(&b.v[0]) && a.v[1].eq_spec(&b.v[1]) && a.v[2].eq_spec(
            &b.v[2],
        )),
        obeys_concrete_eq::<T>() ==> (<Vec3<T> as PartialEqSpec>::eq_spec(&a, &b) <==> a.v@ == b.v@),
{
    reveal(obeys_concrete_eq);
    if obeys_concrete_eq::<T>() {
        if a.v@ == b.v@ {
            assert(a.v[0] == b.v[0] && a.v[1] == b.v[1] && a.v[2] == b.v[2]);
        }
        if <Vec3<T> as PartialEqSpec>::eq_spec(&a, &b) {
            assert(a.v@ =~= b.v@);
        }
    }
}

/// For integer vectors whose products do not overflow, the dot product is the sum of the
/// products of matching components, and the squared length is the dot product of the vector
/// with itself.
pub proof fn law_dot_is_sum_of_products(a: Vec3<i64>, b: Vec3<i64>)
    requires
        a.dot_ok(b),
        a.squared_length_ok(),
    ensures
        a.spec_dot(b) == a.v[0] * b.v[0] + a.v[1] * b.v[1] + a.v[2] * b.v[2],
        a.spec_squared_length() == a.v[0] * a.v[0] + a.v[1] * a.v[1] + a.v[2] * a.v[2],
{
}

/// For integer vectors whose products do not overflow, the cross product is
/// `(a1*b2 - a2*b1, a2*b0 - a0*b2, a0*b1 - a1*b0)`.
pub proof fn law_cross_components(a: Vec3<i64>, b: Vec3<i64>)
    requires
        a.cross_ok(b),
    ensures
        a.spec_cross(b).v[0] == a.v[1] * b.v[2] - a.v[2] * b.v[1],
        a.spec_cross(b).v[1] == a.v[2] * b.v[0] - a.v[0] * b.v[2],
        a.spec_cross(b).v[2] == a.v[0] * b.v[1] - a.v[1] * b.v[0],
{
    assert(b.v[1] * a.v[2] == a.v[2] * b.v[1]) by (nonlinear_arith);
}

} // verus!
