use vstd::prelude::*;
use std::ops::{Add, Div, Mul, Sub};

use vstd::std_specs::cmp::PartialOrdSpec;
use vstd::std_specs::ops::{AddSpec, DivSpec, MulSpec, SubSpec};

verus! {

/// A pair of values: a position or a size along x and y.
#[derive(Debug, Clone, Copy, PartialEq)]
pub struct Vec2<T> {
    inner: [T; 2],
}

impl<T> View for Vec2<T> {
    type V = (T, T);

    closed spec fn view(&self) -> (T, T) {
        (self.inner@[0], self.inner@[1])
    }
}

impl<T: Copy> Vec2<T> {
    /// The pair `(x, y)`.
    pub fn new(x: T, y: T) -> (r: Self)
        ensures
            r@ == (x, y),
    {
        Self { inner: [x, y] }
    }

    /// The pair `(size, size)`.
    pub fn splat(size: T) -> (r: Self)
        ensures
            r@ == (size, size),
    {
        Self { inner: [size, size] }
    }

    /// The first component.
    pub fn x(&self) -> (r: T)
        ensures
            r == self@.0,
    {
        self.inner[0]
    }

    /// The second component.
    pub fn y(&self) -> (r: T)
        ensures
            r == self@.1,
    {
        self.inner[1]
    }

    /// The first component, to be changed in place.
    pub fn mut_x(&mut self) -> (r: &mut T)
        ensures
            *r == old(self)@.0,
            final(self)@ == (*final(r), old(self)@.1),
    {
        &mut self.inner[0]
    }

    /// The second component, to be changed in place.
    pub fn mut_y(&mut self) -> (r: &mut T)
        ensures
            *r == old(self)@.1,
            final(self)@ == (old(self)@.0, *final(r)),
    {
        &mut self.inner[1]
    }

    /// Replaces the first component.
    pub fn set_x(&mut self, x: T)
        ensures
            final(self)@ == (x, old(self)@.1),
    {
        self.inner[0] = x;
    }

    /// Replaces the second component.
    pub fn set_y(&mut self, y: T)
        ensures
            final(self)@ == (old(self)@.0, y),
    {
        self.inner[1] = y;
    }

    /// Exchanges the two components.
    pub fn swap(&mut self)
        ensures
            final(self)@ == (old(self)@.1, old(self)@.0),
    {
        let x = self.inner[0];
        let y = self.inner[1];
        self.inner[0] = y;
        self.inner[1] = x;
    }

    /// Applies `f` to both components.
    pub fn map<U, F>(self, f: F) -> (r: Vec2<U>) where U: Copy, F: Copy + FnOnce(T) -> U
        requires
            f.requires((self@.0,)),
            f.requires((self@.1,)),
        ensures
            f.ensures((self@.0,), r@.0),
            f.ensures((self@.1,), r@.1),
    {
        let a = f(self.inner[0]);
        let b = f(self.inner[1]);
        Vec2::new(a, b)
    }
}

impl<T: Copy + PartialOrd> Vec2<T> {
    /// Each component raised to at least `x` and `y`: a component is kept when
    /// it is greater than the bound, else the bound is taken.
    pub fn max(&self, x: T, y: T) -> (r: Self)
        ensures
            T::obeys_partial_cmp_spec() ==> r@ == (
                if self@.0.partial_cmp_spec(&x) == Some(std::cmp::Ordering::Greater) {
                    self@.0
                } else {
                    x
                },
                if self@.1.partial_cmp_spec(&y) == Some(std::cmp::Ordering::Greater) {
                    self@.1
                } else {
                    y
                },
            ),
    {
        let a = self.inner[0];
        let b = self.inner[1];
        let rx = if a > x {
            a
        } else {
            x
        };
        let ry = if b > y {
            b
        } else {
            y
        };
        Self { inner: [rx, ry] }
    }
}

impl<T: Copy> From<(T, T)> for Vec2<T> {
    fn from(inner: (T, T)) -> (r: Self)
        ensures
            r@ == inner,
    {
        Self { inner: [inner.0, inner.1] }
    }
}

impl<T: Copy> vstd::std_specs::convert::FromSpecImpl<(T, T)> for Vec2<T> {
    open spec fn obeys_from_spec() -> bool {
        true
    }

    closed spec fn from_spec(v: (T, T)) -> Vec2<T> {
        Vec2 { inner: [v.0, v.1] }
    }
}

impl<T: Add<Output = T> + Copy> Add for Vec2<T> {
    type Output = Self;

    /// Adds the components pairwise.
    fn add(self, other: Self) -> (r: Self)
        ensures
            T::obeys_add_spec() ==> r@ == (self@.0.add_spec(other@.0), self@.1.add_spec(other@.1)),
    {
        let x = self.inner[0] + other.inner[0];
        let y = self.inner[1] + other.inner[1];
        let r = Self { inner: [x, y] };
        assert(r@ == (x, y));
        r
    }
}

impl<T: Add<Output = T> + Copy> vstd::std_specs::ops::AddSpecImpl for Vec2<T> {
    open spec fn obeys_add_spec() -> bool {
        T::obeys_add_spec()
    }

    open spec fn add_req(self, rhs: Self) -> bool {
        self@.0.add_req(rhs@.0) && self@.1.add_req(rhs@.1)
    }

    closed spec fn add_spec(self, rhs: Self) -> Self {
        Vec2 { inner: [self@.0.add_spec(rhs@.0), self@.1.add_spec(rhs@.1)] }
    }
}

impl<T: Sub<Output = T> + Copy> Sub for Vec2<T> {
    type Output = Self;

    /// Subtracts the components pairwise.
    fn sub(self, other: Self) -> (r: Self)
        ensures
            T::obeys_sub_spec() ==> r@ == (self@.0.sub_spec(other@.0), self@.1.sub_spec(other@.1)),
    {
        let x = self.inner[0] - other.inner[0];
        let y = self.inner[1] - other.inner[1];
        let r = Self { inner: [x, y] };
        assert(r@ == (x, y));
        r
    }
}

impl<T: Sub<Output = T> + Copy> vstd::std_specs::ops::SubSpecImpl for Vec2<T> {
    open spec fn obeys_sub_spec() -> bool {
        T::obeys_sub_spec()
    }

    open spec fn sub_req(self, rhs: Self) -> bool {
        self@.0.sub_req(rhs@.0) && self@.1.sub_req(rhs@.1)
    }

    closed spec fn sub_spec(self, rhs: Self) -> Self {
        Vec2 { inner: [self@.0.sub_spec(rhs@.0), self@.1.sub_spec(rhs@.1)] }
    }
}

impl<T: Mul<Output = T> + Copy> Mul<T> for Vec2<T> {
    type Output = Self;

    /// Multiplies both components by `rhs`.
    fn mul(self, rhs: T) -> (r: Self)
        ensures
            T::obeys_mul_spec() ==> r@ == (self@.0.mul_spec(rhs), self@.1.mul_spec(rhs)),
    {
        let x = self.inner[0] * rhs;
        let y = self.inner[1] * rhs;
        let r = Self { inner: [x, y] };
        assert(r@ == (x, y));
        r
    }
}

impl<T: Mul<Output = T> + Copy> vstd::std_specs::ops::MulSpecImpl<T> for Vec2<T> {
    open spec fn obeys_mul_spec() -> bool {
        T::obeys_mul_spec()
    }

    open spec fn mul_req(self, rhs: T) -> bool {
        self@.0.mul_req(rhs) && self@.1.mul_req(rhs)
    }

    closed spec fn mul_spec(self, rhs: T) -> Self {
        Vec2 { inner: [self@.0.mul_spec(rhs), self@.1.mul_spec(rhs)] }
    }
}

impl<T: Div<Output = T> + Copy> Div<T> for Vec2<T> {
    type Output = Self;

    /// Divides both components by `rhs`.
    fn div(self, rhs: T) -> (r: Self)
        ensures
            T::obeys_div_spec() ==> r@ == (self@.0.div_spec(rhs), self@.1.div_spec(rhs)),
    {
        let x = self.inner[0] / rhs;
        let y = self.inner[1] / rhs;
        let r = Self { inner: [x, y] };
        assert(r@ == (x, y));
        r
    }
}

impl<T: Div<Output = T> + Copy> vstd::std_specs::ops::DivSpecImpl<T> for Vec2<T> {
    open spec fn obeys_div_spec() -> bool {
        T::obeys_div_spec()
    }

    open spec fn div_req(self, rhs: T) -> bool {
        self@.0.div_req(rhs) && self@.1.div_req(rhs)
    }

    closed spec fn div_spec(self, rhs: T) -> Self {
        Vec2 { inner: [self@.0.div_spec(rhs), self@.1.div_spec(rhs)] }
    }
}

impl<T: Copy> From<[T; 2]> for Vec2<T> {
    fn from(inner: [T; 2]) -> (r: Self)
        ensures
            r@ == (inner@[0], inner@[1]),
    {
        Self { inner }
    }
}

impl<T: Copy> vstd::std_specs::convert::FromSpecImpl<[T; 2]> for Vec2<T> {
    open spec fn obeys_from_spec() -> bool {
        true
    }

    closed spec fn from_spec(v: [T; 2]) -> Vec2<T> {
        Vec2 { inner: v }
    }
}

} // verus!
