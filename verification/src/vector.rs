//! Three-component vectors with named `x`, `y`, `z` fields and component-wise arithmetic.
use vstd::prelude::*;
use std::ops::{Add, AddAssign, Div, DivAssign, Mul, MulAssign, Sub, SubAssign};
use vstd::std_specs::ops::{AddSpecImpl, DivSpecImpl, MulSpecImpl, SubSpecImpl};
use vstd::std_specs::ops::{AddSpec, DivSpec, MulSpec, SubSpec};

verus! {

/// A vector of three components.
#[derive(Debug, Clone, Copy)]
pub struct Vec3<T> {
    pub x: T,
    pub y: T,
    pub z: T,
}

/// The component-wise sum of `a` and `b`, each component by `T`'s own `add`.
pub open spec fn sum3<T: Add<Output = T>>(a: Vec3<T>, b: Vec3<T>) -> Vec3<T> {
    Vec3 { x: a.x.add_spec(b.x), y: a.y.add_spec(b.y), z: a.z.add_spec(b.z) }
}

/// Whether `T`'s `add` accepts every pair of components of `a` and `b`.
pub open spec fn sum3_ok<T: Add<Output = T>>(a: Vec3<T>, b: Vec3<T>) -> bool {
    a.x.add_req(b.x) && a.y.add_req(b.y) && a.z.add_req(b.z)
}

/// `a` with the scalar `s` added to each component (`a[i] + s`).
pub open spec fn sum3_scalar<T: Add<Output = T>>(a: Vec3<T>, s: T) -> Vec3<T> {
    Vec3 { x: a.x.add_spec(s), y: a.y.add_spec(s), z: a.z.add_spec(s) }
}

/// Whether `T`'s `add` accepts every component of `a` with the scalar `s`.
pub open spec fn sum3_scalar_ok<T: Add<Output = T>>(a: Vec3<T>, s: T) -> bool {
    a.x.add_req(s) && a.y.add_req(s) && a.z.add_req(s)
}

/// The component-wise difference of `a` and `b`, each component by `T`'s own `sub`.
pub open spec fn diff3<T: Sub<Output = T>>(a: Vec3<T>, b: Vec3<T>) -> Vec3<T> {
    Vec3 { x: a.x.sub_spec(b.x), y: a.y.sub_spec(b.y), z: a.z.sub_spec(b.z) }
}

/// Whether `T`'s `sub` accepts every pair of components of `a` and `b`.
pub open spec fn diff3_ok<T: Sub<Output = T>>(a: Vec3<T>, b: Vec3<T>) -> bool {
    a.x.sub_req(b.x) && a.y.sub_req(b.y) && a.z.sub_req(b.z)
}

/// `a` with the scalar `s` subtracted from each component (`a[i] - s`).
pub open spec fn diff3_scalar<T: Sub<Output = T>>(a: Vec3<T>, s: T) -> Vec3<T> {
    Vec3 { x: a.x.sub_spec(s), y: a.y.sub_spec(s), z: a.z.sub_spec(s) }
}

/// Whether `T`'s `sub` accepts every component of `a` with the scalar `s`.
pub open spec fn diff3_scalar_ok<T: Sub<Output = T>>(a: Vec3<T>, s: T) -> bool {
    a.x.sub_req(s) && a.y.sub_req(s) && a.z.sub_req(s)
}

/// The component-wise product of `a` and `b`, each component by `T`'s own `mul`.
pub open spec fn prod3<T: Mul<Output = T>>(a: Vec3<T>, b: Vec3<T>) -> Vec3<T> {
    Vec3 { x: a.x.mul_spec(b.x), y: a.y.mul_spec(b.y), z: a.z.mul_spec(b.z) }
}

/// Whether `T`'s `mul` accepts every pair of components of `a` and `b`.
pub open spec fn prod3_ok<T: Mul<Output = T>>(a: Vec3<T>, b: Vec3<T>) -> bool {
    a.x.mul_req(b.x) && a.y.mul_req(b.y) && a.z.mul_req(b.z)
}

/// `a` with the scalar `s` multiplied into each component (`a[i] * s`).
pub open spec fn prod3_scalar<T: Mul<Output = T>>(a: Vec3<T>, s: T) -> Vec3<T> {
    Vec3 { x: a.x.mul_spec(s), y: a.y.mul_spec(s), z: a.z.mul_spec(s) }
}

/// Whether `T`'s `mul` accepts every component of `a` with the scalar `s`.
pub open spec fn prod3_scalar_ok<T: Mul<Output = T>>(a: Vec3<T>, s: T) -> bool {
    a.x.mul_req(s) && a.y.mul_req(s) && a.z.mul_req(s)
}

/// The component-wise quotient of `a` and `b`, each component by `T`'s own `div`.
pub open spec fn quot3<T: Div<Output = T>>(a: Vec3<T>, b: Vec3<T>) -> Vec3<T> {
    Vec3 { x: a.x.div_spec(b.x), y: a.y.div_spec(b.y), z: a.z.div_spec(b.z) }
}

/// Whether `T`'s `div` accepts every pair of components of `a` and `b`.
pub open spec fn quot3_ok<T: Div<Output = T>>(a: Vec3<T>, b: Vec3<T>) -> bool {
    a.x.div_req(b.x) && a.y.div_req(b.y) && a.z.div_req(b.z)
}

/// `a` with the scalar `s` divided into each component (`a[i] / s`).
pub open spec fn quot3_scalar<T: Div<Output = T>>(a: Vec3<T>, s: T) -> Vec3<T> {
    Vec3 { x: a.x.div_spec(s), y: a.y.div_spec(s), z: a.z.div_spec(s) }
}

/// Whether `T`'s `div` accepts every component of `a` with the scalar `s`.
pub open spec fn quot3_scalar_ok<T: Div<Output = T>>(a: Vec3<T>, s: T) -> bool {
    a.x.div_req(s) && a.y.div_req(s) && a.z.div_req(s)
}

impl<T: Add<Output = T> + Copy> AddSpecImpl<T> for Vec3<T> {
    open spec fn obeys_add_spec() -> bool {
        T::obeys_add_spec()
    }

    open spec fn add_req(self, rhs: T) -> bool {
        sum3_scalar_ok(self, rhs)
    }

    open spec fn add_spec(self, rhs: T) -> Vec3<T> {
        sum3_scalar(self, rhs)
    }
}

// Vec3 + scalar
impl<T: Add<Output = T> + Copy> Add<T> for Vec3<T> {
    type Output = Vec3<T>;

    fn add(self, rhs: T) -> (r: Vec3<T>) {
        Vec3 { x: self.x + rhs, y: self.y + rhs, z: self.z + rhs }
    }
}

impl<T: Add<Output = T> + Copy> AddSpecImpl<&Vec3<T>> for &Vec3<T> {
    open spec fn obeys_add_spec() -> bool {
        T::obeys_add_spec()
    }

    open spec fn add_req(self, rhs: &Vec3<T>) -> bool {
        sum3_ok(*self, *rhs)
    }

    open spec fn add_spec(self, rhs: &Vec3<T>) -> Vec3<T> {
        sum3(*self, *rhs)
    }
}

// &Vec3 + &Vec3, leaving both operands in place
impl<T: Add<Output = T> + Copy> Add<&Vec3<T>> for &Vec3<T> {
    type Output = Vec3<T>;

    fn add(self, rhs: &Vec3<T>) -> (r: Vec3<T>) {
        Vec3 { x: self.x + rhs.x, y: self.y + rhs.y, z: self.z + rhs.z }
    }
}

impl<T: Add<Output = T> + Copy> AddSpecImpl<&Vec3<T>> for Vec3<T> {
    open spec fn obeys_add_spec() -> bool {
        T::obeys_add_spec()
    }

    open spec fn add_req(self, rhs: &Vec3<T>) -> bool {
        sum3_ok(self, *rhs)
    }

    open spec fn add_spec(self, rhs: &Vec3<T>) -> Vec3<T> {
        sum3(self, *rhs)
    }
}

// Vec3 + &Vec3
impl<T: Add<Output = T> + Copy> Add<&Vec3<T>> for Vec3<T> {
    type Output = Vec3<T>;

    fn add(self, rhs: &Vec3<T>) -> (r: Vec3<T>) {
        Vec3 { x: self.x + rhs.x, y: self.y + rhs.y, z: self.z + rhs.z }
    }
}

impl<T: Add<Output = T> + Copy> AddSpecImpl<Vec3<T>> for Vec3<T> {
    open spec fn obeys_add_spec() -> bool {
        T::obeys_add_spec()
    }

    open spec fn add_req(self, rhs: Vec3<T>) -> bool {
        sum3_ok(self, rhs)
    }

    open spec fn add_spec(self, rhs: Vec3<T>) -> Vec3<T> {
        sum3(self, rhs)
    }
}

// Vec3 + Vec3
impl<T: Add<Output = T> + Copy> Add<Vec3<T>> for Vec3<T> {
    type Output = Vec3<T>;

    fn add(self, rhs: Vec3<T>) -> (r: Vec3<T>) {
        Vec3 { x: self.x + rhs.x, y: self.y + rhs.y, z: self.z + rhs.z }
    }
}

// Vec3 += scalar
impl<T: Add<Output = T> + Copy> AddAssign<T> for Vec3<T> {
    fn add_assign(&mut self, rhs: T)
        requires
            sum3_scalar_ok(*old(self), rhs),
        ensures
            T::obeys_add_spec() ==> *final(self) == sum3_scalar(*old(self), rhs),
    {
        self.x = self.x + rhs;
        self.y = self.y + rhs;
        self.z = self.z + rhs;
    }
}

// Vec3 += &Vec3
impl<T: Add<Output = T> + Copy> AddAssign<&Vec3<T>> for Vec3<T> {
    fn add_assign(&mut self, rhs: &Vec3<T>)
        requires
            sum3_ok(*old(self), *rhs),
        ensures
            T::obeys_add_spec() ==> *final(self) == sum3(*old(self), *rhs),
    {
        self.x = self.x + rhs.x;
        self.y = self.y + rhs.y;
        self.z = self.z + rhs.z;
    }
}

impl<T: Sub<Output = T> + Copy> SubSpecImpl<&Vec3<T>> for &Vec3<T> {
    open spec fn obeys_sub_spec() -> bool {
        T::obeys_sub_spec()
    }

    open spec fn sub_req(self, rhs: &Vec3<T>) -> bool {
        diff3_ok(*self, *rhs)
    }

    open spec fn sub_spec(self, rhs: &Vec3<T>) -> Vec3<T> {
        diff3(*self, *rhs)
    }
}

// &Vec3 - &Vec3, leaving both operands in place
impl<T: Sub<Output = T> + Copy> Sub<&Vec3<T>> for &Vec3<T> {
    type Output = Vec3<T>;

    fn sub(self, rhs: &Vec3<T>) -> (r: Vec3<T>) {
        Vec3 { x: self.x - rhs.x, y: self.y - rhs.y, z: self.z - rhs.z }
    }
}

impl<T: Sub<Output = T> + Copy> SubSpecImpl<&Vec3<T>> for Vec3<T> {
    open spec fn obeys_sub_spec() -> bool {
        T::obeys_sub_spec()
    }

    open spec fn sub_req(self, rhs: &Vec3<T>) -> bool {
        diff3_ok(self, *rhs)
    }

    open spec fn sub_spec(self, rhs: &Vec3<T>) -> Vec3<T> {
        diff3(self, *rhs)
    }
}

// Vec3 - &Vec3
impl<T: Sub<Output = T> + Copy> Sub<&Vec3<T>> for Vec3<T> {
    type Output = Vec3<T>;

    fn sub(self, rhs: &Vec3<T>) -> (r: Vec3<T>) {
        Vec3 { x: self.x - rhs.x, y: self.y - rhs.y, z: self.z - rhs.z }
    }
}

impl<T: Sub<Output = T> + Copy> SubSpecImpl<Vec3<T>> for Vec3<T> {
    open spec fn obeys_sub_spec() -> bool {
        T::obeys_sub_spec()
    }

    open spec fn sub_req(self, rhs: Vec3<T>) -> bool {
        diff3_ok(self, rhs)
    }

    open spec fn sub_spec(self, rhs: Vec3<T>) -> Vec3<T> {
        diff3(self, rhs)
    }
}

// Vec3 - Vec3
impl<T: Sub<Output = T> + Copy> Sub<Vec3<T>> for Vec3<T> {
    type Output = Vec3<T>;

    fn sub(self, rhs: Vec3<T>) -> (r: Vec3<T>) {
        Vec3 { x: self.x - rhs.x, y: self.y - rhs.y, z: self.z - rhs.z }
    }
}

// Vec3 -= scalar
impl<T: Sub<Output = T> + Copy> SubAssign<T> for Vec3<T> {
    fn sub_assign(&mut self, rhs: T)
        requires
            diff3_scalar_ok(*old(self), rhs),
        ensures
            T::obeys_sub_spec() ==> *final(self) == diff3_scalar(*old(self), rhs),
    {
        self.x = self.x - rhs;
        self.y = self.y - rhs;
        self.z = self.z - rhs;
    }
}

// Vec3 -= &Vec3
impl<T: Sub<Output = T> + Copy> SubAssign<&Vec3<T>> for Vec3<T> {
    fn sub_assign(&mut self, rhs: &Vec3<T>)
        requires
            diff3_ok(*old(self), *rhs),
        ensures
            T::obeys_sub_spec() ==> *final(self) == diff3(*old(self), *rhs),
    {
        self.x = self.x - rhs.x;
        self.y = self.y - rhs.y;
        self.z = self.z - rhs.z;
    }
}

impl<T: Mul<Output = T> + Copy> MulSpecImpl<&Vec3<T>> for &Vec3<T> {
    open spec fn obeys_mul_spec() -> bool {
        T::obeys_mul_spec()
    }

    open spec fn mul_req(self, rhs: &Vec3<T>) -> bool {
        prod3_ok(*self, *rhs)
    }

    open spec fn mul_spec(self, rhs: &Vec3<T>) -> Vec3<T> {
        prod3(*self, *rhs)
    }
}

// &Vec3 * &Vec3, leaving both operands in place
impl<T: Mul<Output = T> + Copy> Mul<&Vec3<T>> for &Vec3<T> {
    type Output = Vec3<T>;

    fn mul(self, rhs: &Vec3<T>) -> (r: Vec3<T>) {
        Vec3 { x: self.x * rhs.x, y: self.y * rhs.y, z: self.z * rhs.z }
    }
}

impl<T: Mul<Output = T> + Copy> MulSpecImpl<&Vec3<T>> for Vec3<T> {
    open spec fn obeys_mul_spec() -> bool {
        T::obeys_mul_spec()
    }

    open spec fn mul_req(self, rhs: &Vec3<T>) -> bool {
        prod3_ok(self, *rhs)
    }

    open spec fn mul_spec(self, rhs: &Vec3<T>) -> Vec3<T> {
        prod3(self, *rhs)
    }
}

// Vec3 * &Vec3
impl<T: Mul<Output = T> + Copy> Mul<&Vec3<T>> for Vec3<T> {
    type Output = Vec3<T>;

    fn mul(self, rhs: &Vec3<T>) -> (r: Vec3<T>) {
        Vec3 { x: self.x * rhs.x, y: self.y * rhs.y, z: self.z * rhs.z }
    }
}

impl<T: Mul<Output = T> + Copy> MulSpecImpl<Vec3<T>> for Vec3<T> {
    open spec fn obeys_mul_spec() -> bool {
        T::obeys_mul_spec()
    }

    open spec fn mul_req(self, rhs: Vec3<T>) -> bool {
        prod3_ok(self, rhs)
    }

    open spec fn mul_spec(self, rhs: Vec3<T>) -> Vec3<T> {
        prod3(self, rhs)
    }
}

// Vec3 * Vec3
impl<T: Mul<Output = T> + Copy> Mul<Vec3<T>> for Vec3<T> {
    type Output = Vec3<T>;

    fn mul(self, rhs: Vec3<T>) -> (r: Vec3<T>) {
        Vec3 { x: self.x * rhs.x, y: self.y * rhs.y, z: self.z * rhs.z }
    }
}

impl<T: Mul<Output = T> + Copy> MulSpecImpl<T> for Vec3<T> {
    open spec fn obeys_mul_spec() -> bool {
        T::obeys_mul_spec()
    }

    open spec fn mul_req(self, rhs: T) -> bool {
        prod3_scalar_ok(self, rhs)
    }

    open spec fn mul_spec(self, rhs: T) -> Vec3<T> {
        prod3_scalar(self, rhs)
    }
}

// Vec3 * scalar
impl<T: Mul<Output = T> + Copy> Mul<T> for Vec3<T> {
    type Output = Vec3<T>;

    fn mul(self, rhs: T) -> (r: Vec3<T>) {
        Vec3 { x: self.x * rhs, y: self.y * rhs, z: self.z * rhs }
    }
}

// Vec3 *= scalar
impl<T: Mul<Output = T> + Copy> MulAssign<T> for Vec3<T> {
    fn mul_assign(&mut self, rhs: T)
        requires
            prod3_scalar_ok(*old(self), rhs),
        ensures
            T::obeys_mul_spec() ==> *final(self) == prod3_scalar(*old(self), rhs),
    {
        self.x = self.x * rhs;
        self.y = self.y * rhs;
        self.z = self.z * rhs;
    }
}

// Vec3 *= &Vec3
impl<T: Mul<Output = T> + Copy> MulAssign<&Vec3<T>> for Vec3<T> {
    fn mul_assign(&mut self, rhs: &Vec3<T>)
        requires
            prod3_ok(*old(self), *rhs),
        ensures
            T::obeys_mul_spec() ==> *final(self) == prod3(*old(self), *rhs),
    {
        self.x = self.x * rhs.x;
        self.y = self.y * rhs.y;
        self.z = self.z * rhs.z;
    }
}

impl<T: Div<Output = T> + Copy> DivSpecImpl<T> for Vec3<T> {
    open spec fn obeys_div_spec() -> bool {
        T::obeys_div_spec()
    }

    open spec fn div_req(self, rhs: T) -> bool {
        quot3_scalar_ok(self, rhs)
    }

    open spec fn div_spec(self, rhs: T) -> Vec3<T> {
        quot3_scalar(self, rhs)
    }
}

// Vec3 / scalar
impl<T: Div<Output = T> + Copy> Div<T> for Vec3<T> {
    type Output = Vec3<T>;

    fn div(self, rhs: T) -> (r: Vec3<T>) {
        Vec3 { x: self.x / rhs, y: self.y / rhs, z: self.z / rhs }
    }
}

impl<T: Div<Output = T> + Copy> DivSpecImpl<&Vec3<T>> for &Vec3<T> {
    open spec fn obeys_div_spec() -> bool {
        T::obeys_div_spec()
    }

    open spec fn div_req(self, rhs: &Vec3<T>) -> bool {
        quot3_ok(*self, *rhs)
    }

    open spec fn div_spec(self, rhs: &Vec3<T>) -> Vec3<T> {
        quot3(*self, *rhs)
    }
}

// &Vec3 / &Vec3, leaving both operands in place
impl<T: Div<Output = T> + Copy> Div<&Vec3<T>> for &Vec3<T> {
    type Output = Vec3<T>;

    fn div(self, rhs: &Vec3<T>) -> (r: Vec3<T>) {
        Vec3 { x: self.x / rhs.x, y: self.y / rhs.y, z: self.z / rhs.z }
    }
}

impl<T: Div<Output = T> + Copy> DivSpecImpl<&Vec3<T>> for Vec3<T> {
    open spec fn obeys_div_spec() -> bool {
        T::obeys_div_spec()
    }

    open spec fn div_req(self, rhs: &Vec3<T>) -> bool {
        quot3_ok(self, *rhs)
    }

    open spec fn div_spec(self, rhs: &Vec3<T>) -> Vec3<T> {
        quot3(self, *rhs)
    }
}

// Vec3 / &Vec3
impl<T: Div<Output = T> + Copy> Div<&Vec3<T>> for Vec3<T> {
    type Output = Vec3<T>;

    fn div(self, rhs: &Vec3<T>) -> (r: Vec3<T>) {
        Vec3 { x: self.x / rhs.x, y: self.y / rhs.y, z: self.z / rhs.z }
    }
}

impl<T: Div<Output = T> + Copy> DivSpecImpl<Vec3<T>> for Vec3<T> {
    open spec fn obeys_div_spec() -> bool {
        T::obeys_div_spec()
    }

    open spec fn div_req(self, rhs: Vec3<T>) -> bool {
        quot3_ok(self, rhs)
    }

    open spec fn div_spec(self, rhs: Vec3<T>) -> Vec3<T> {
        quot3(self, rhs)
    }
}

// Vec3 / Vec3
impl<T: Div<Output = T> + Copy> Div<Vec3<T>> for Vec3<T> {
    type Output = Vec3<T>;

    fn div(self, rhs: Vec3<T>) -> (r: Vec3<T>) {
        Vec3 { x: self.x / rhs.x, y: self.y / rhs.y, z: self.z / rhs.z }
    }
}

// Vec3 /= scalar
impl<T: Div<Output = T> + Copy> DivAssign<T> for Vec3<T> {
    fn div_assign(&mut self, rhs: T)
        requires
            quot3_scalar_ok(*old(self), rhs),
        ensures
            T::obeys_div_spec() ==> *final(self) == quot3_scalar(*old(self), rhs),
    {
        self.x = self.x / rhs;
        self.y = self.y / rhs;
        self.z = self.z / rhs;
    }
}

// Vec3 /= &Vec3
impl<T: Div<Output = T> + Copy> DivAssign<&Vec3<T>> for Vec3<T> {
    fn div_assign(&mut self, rhs: &Vec3<T>)
        requires
            quot3_ok(*old(self), *rhs),
        ensures
            T::obeys_div_spec() ==> *final(self) == quot3(*old(self), *rhs),
    {
        self.x = self.x / rhs.x;
        self.y = self.y / rhs.y;
        self.z = self.z / rhs.z;
    }
}

impl<T> Vec3<T> where T: Copy + Mul<Output = T> + Add<Output = T> + Sub<Output = T> {
    /// The sum of the squares of the components, `x*x + y*y + z*z`, by `T`'s own arithmetic.
    pub open spec fn spec_squared_length(self) -> T {
        self.x.mul_spec(self.x).add_spec(self.y.mul_spec(self.y)).add_spec(self.z.mul_spec(self.z))
    }

    /// `T`'s arithmetic follows its specification and accepts every step of `squared_length`.
    pub open spec fn squared_length_ok(self) -> bool {
        &&& T::obeys_mul_spec()
        &&& T::obeys_add_spec()
        &&& self.x.mul_req(self.x)
        &&& self.y.mul_req(self.y)
        &&& self.z.mul_req(self.z)
        &&& self.x.mul_spec(self.x).add_req(self.y.mul_spec(self.y))
        &&& self.x.mul_spec(self.x).add_spec(self.y.mul_spec(self.y)).add_req(self.z.mul_spec(self.z))
    }

    /// The dot product `x*ox + y*oy + z*oz`, by `T`'s own arithmetic.
    pub open spec fn spec_dot(self, other: Self) -> T {
        self.x.mul_spec(other.x).add_spec(self.y.mul_spec(other.y)).add_spec(self.z.mul_spec(other.z))
    }

    /// `T`'s arithmetic follows its specification and accepts every step of `dot`.
    pub open spec fn dot_ok(self, other: Self) -> bool {
        &&& T::obeys_mul_spec()
        &&& T::obeys_add_spec()
        &&& self.x.mul_req(other.x)
        &&& self.y.mul_req(other.y)
        &&& self.z.mul_req(other.z)
        &&& self.x.mul_spec(other.x).add_req(self.y.mul_spec(other.y))
        &&& self.x.mul_spec(other.x).add_spec(self.y.mul_spec(other.y)).add_req(self.z.mul_spec(other.z))
    }

    /// What `cross` computes: `(y*oz - oy*z, z*ox - x*oz, x*oy - y*oy)`. Its third component
    /// subtracts `y*oy`, not the `y*ox` of the textbook cross product.
    pub open spec fn spec_cross(self, other: Self) -> Self {
        Vec3 {
            x: self.y.mul_spec(other.z).sub_spec(other.y.mul_spec(self.z)),
            y: self.z.mul_spec(other.x).sub_spec(self.x.mul_spec(other.z)),
            z: self.x.mul_spec(other.y).sub_spec(self.y.mul_spec(other.y)),
        }
    }

    /// `T`'s arithmetic follows its specification and accepts every step of `cross`.
    pub open spec fn cross_ok(self, other: Self) -> bool {
        &&& T::obeys_mul_spec()
        &&& T::obeys_sub_spec()
        &&& self.y.mul_req(other.z)
        &&& other.y.mul_req(self.z)
        &&& self.z.mul_req(other.x)
        &&& self.x.mul_req(other.z)
        &&& self.x.mul_req(other.y)
        &&& self.y.mul_req(other.y)
        &&& self.y.mul_spec(other.z).sub_req(other.y.mul_spec(self.z))
        &&& self.z.mul_spec(other.x).sub_req(self.x.mul_spec(other.z))
        &&& self.x.mul_spec(other.y).sub_req(self.y.mul_spec(other.y))
    }

    pub fn new(x: T, y: T, z: T) -> (r: Self)
        ensures
            r == (Vec3 { x, y, z }),
    {
        Vec3 { x, y, z }
    }

    pub fn squared_length(&self) -> (r: T)
        requires
            self.squared_length_ok(),
        ensures
            r == self.spec_squared_length(),
    {
        self.x * self.x + self.y * self.y + self.z * self.z
    }

    pub fn dot(self, other: &Self) -> (r: T)
        requires
            self.dot_ok(*other),
        ensures
            r == self.spec_dot(*other),
    {
        self.x * other.x + self.y * other.y + self.z * other.z
    }

    pub fn cross(self, other: &Self) -> (r: Vec3<T>)
        requires
            self.cross_ok(*other),
        ensures
            r == self.spec_cross(*other),
    {
        Vec3::<T> {
            x: self.y * other.z - other.y * self.z,
            y: self.z * other.x - self.x * other.z,
            z: self.x * other.y - self.y * other.y,
        }
    }
}

/// Component `i` of `r` is `f` applied to component `i` of `a` and component `i` of `b`.
pub open spec fn componentwise<T>(r: Vec3<T>, a: Vec3<T>, b: Vec3<T>, f: spec_fn(T, T) -> T) -> bool {
    &&& r.x == f(a.x, b.x)
    &&& r.y == f(a.y, b.y)
    &&& r.z == f(a.z, b.z)
}

/// Component `i` of `r` is `f` applied to component `i` of `a` and the scalar `s`.
pub open spec fn componentwise_scalar<T>(r: Vec3<T>, a: Vec3<T>, s: T, f: spec_fn(T, T) -> T) -> bool {
    &&& r.x == f(a.x, s)
    &&& r.y == f(a.y, s)
    &&& r.z == f(a.z, s)
}

/// Vector addition works component by component in every form the operator takes: each
/// component of the result is the matching component of `a` plus the scalar `s`, or plus
/// the matching component of `b`; the assigning forms (`+=`) give the same.
pub proof fn law_addition_is_componentwise<T: Add<Output = T> + Copy>(a: Vec3<T>, b: Vec3<T>, s: T)
    ensures
        componentwise_scalar(<Vec3<T> as AddSpec<T>>::add_spec(a, s), a, s, |x: T, y: T| x.add_spec(y)),
        componentwise(<&Vec3<T> as AddSpec<&Vec3<T>>>::add_spec(&a, &b), a, b, |x: T, y: T| x.add_spec(y)),
        componentwise(<Vec3<T> as AddSpec<&Vec3<T>>>::add_spec(a, &b), a, b, |x: T, y: T| x.add_spec(y)),
        componentwise(<Vec3<T> as AddSpec<Vec3<T>>>::add_spec(a, b), a, b, |x: T, y: T| x.add_spec(y)),
        componentwise_scalar(sum3_scalar(a, s), a, s, |x: T, y: T| x.add_spec(y)),
        componentwise(sum3(a, b), a, b, |x: T, y: T| x.add_spec(y)),
{
}

/// Vector subtraction works component by component in every form the operator takes: each
/// component of the result is the matching component of `a` minus the scalar `s`, or minus
/// the matching component of `b`; the assigning forms (`-=`) give the same.
pub proof fn law_subtraction_is_componentwise<T: Sub<Output = T> + Copy>(a: Vec3<T>, b: Vec3<T>, s: T)
    ensures
        componentwise(<&Vec3<T> as SubSpec<&Vec3<T>>>::sub_spec(&a, &b), a, b, |x: T, y: T| x.sub_spec(y)),
        componentwise(<Vec3<T> as SubSpec<&Vec3<T>>>::sub_spec(a, &b), a, b, |x: T, y: T| x.sub_spec(y)),
        componentwise(<Vec3<T> as SubSpec<Vec3<T>>>::sub_spec(a, b), a, b, |x: T, y: T| x.sub_spec(y)),
        componentwise_scalar(diff3_scalar(a, s), a, s, |x: T, y: T| x.sub_spec(y)),
        componentwise(diff3(a, b), a, b, |x: T, y: T| x.sub_spec(y)),
{
}

/// Vector multiplication works component by component in every form the operator takes: each
/// component of the result is the matching component of `a` times the scalar `s`, or times
/// the matching component of `b`; the assigning forms (`*=`) give the same.
pub proof fn law_multiplication_is_componentwise<T: Mul<Output = T> + Copy>(a: Vec3<T>, b: Vec3<T>, s: T)
    ensures
        componentwise(<&Vec3<T> as MulSpec<&Vec3<T>>>::mul_spec(&a, &b), a, b, |x: T, y: T| x.mul_spec(y)),
        componentwise(<Vec3<T> as MulSpec<&Vec3<T>>>::mul_spec(a, &b), a, b, |x: T, y: T| x.mul_spec(y)),
        componentwise(<Vec3<T> as MulSpec<Vec3<T>>>::mul_spec(a, b), a, b, |x: T, y: T| x.mul_spec(y)),
        componentwise_scalar(<Vec3<T> as MulSpec<T>>::mul_spec(a, s), a, s, |x: T, y: T| x.mul_spec(y)),
        componentwise_scalar(prod3_scalar(a, s), a, s, |x: T, y: T| x.mul_spec(y)),
        componentwise(prod3(a, b), a, b, |x: T, y: T| x.mul_spec(y)),
{
}

/// Vector division works component by component in every form the operator takes: each
/// component of the result is the matching component of `a` divided by the scalar `s`, or divided by
/// the matching component of `b`; the assigning forms (`/=`) give the same.
pub proof fn law_division_is_componentwise<T: Div<Output = T> + Copy>(a: Vec3<T>, b: Vec3<T>, s: T)
    ensures
        componentwise_scalar(<Vec3<T> as DivSpec<T>>::div_spec(a, s), a, s, |x: T, y: T| x.div_spec(y)),
        componentwise(<&Vec3<T> as DivSpec<&Vec3<T>>>::div_spec(&a, &b), a, b, |x: T, y: T| x.div_spec(y)),
        componentwise(<Vec3<T> as DivSpec<&Vec3<T>>>::div_spec(a, &b), a, b, |x: T, y: T| x.div_spec(y)),
        componentwise(<Vec3<T> as DivSpec<Vec3<T>>>::div_spec(a, b), a, b, |x: T, y: T| x.div_spec(y)),
        componentwise_scalar(quot3_scalar(a, s), a, s, |x: T, y: T| x.div_spec(y)),
        componentwise(quot3(a, b), a, b, |x: T, y: T| x.div_spec(y)),
{
}


/// For integer vectors whose products do not overflow, the dot product is the sum of the
/// products of matching components, and the squared length is the dot product of the vector
/// with itself.
pub proof fn law_dot_is_sum_of_products(a: Vec3<i64>, b: Vec3<i64>)
    requires
        a.dot_ok(b),
        a.squared_length_ok(),
    ensures
        a.spec_dot(b) == a.x * b.x + a.y * b.y + a.z * b.z,
        a.spec_squared_length() == a.x * a.x + a.y * a.y + a.z * a.z,
{
}

/// For integer vectors whose products do not overflow, `cross` gives
/// `(y*oz - oy*z, z*ox - x*oz, x*oy - y*oy)`: the first two components are those of the cross
/// product, and the third subtracts `y*oy` where the cross product has `y*ox`.
pub proof fn law_cross_components(a: Vec3<i64>, b: Vec3<i64>)
    requires
        a.cross_ok(b),
    ensures
        a.spec_cross(b).x == a.y * b.z - a.z * b.y,
        a.spec_cross(b).y == a.z * b.x - a.x * b.z,
        a.spec_cross(b).z == a.x * b.y - a.y * b.y,
{
    assert(b.y * a.z == a.z * b.y) by (nonlinear_arith);
}

} // verus!
