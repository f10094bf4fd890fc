use vstd::prelude::*;
use vstd::std_specs::ops::{AddSpecImpl, MulSpecImpl, NegSpecImpl, SubSpecImpl};

verus! {

// The vectors and rectangles are generic over their coordinate type. The
// arithmetic here is for whole-number coordinates (`i32`), such as bitmap
// alignments; lengths and normalization need floating point and are left
// to the caller.

/// Whether an integer fits in 32 signed bits.
pub open spec fn fits_i32(v: int) -> bool {
    i32::MIN <= v <= i32::MAX
}

/// An axis-aligned rectangle from `min` (included) to `max` (excluded).
#[derive(Clone, Copy)]
pub struct Rect<T> {
    pub min: V2<T>,
    pub max: V2<T>,
}

impl<T: Copy> Rect<T> {
    /// The corner with the smallest coordinates.
    pub fn get_min(&self) -> (r: V2<T>)
        ensures
            r == self.min,
    {
        self.min
    }

    /// The corner with the largest coordinates.
    pub fn get_max(&self) -> (r: V2<T>)
        ensures
            r == self.max,
    {
        self.max
    }

    /// The rectangle between two corners.
    pub fn new(min: V2<T>, max: V2<T>) -> (r: Rect<T>)
        ensures
            r.min == min,
            r.max == max,
    {
        Rect::<T> { min, max }
    }
}

impl Rect<i32> {
    /// The rectangle with corner `min` and size `dim`.
    pub fn min_dim(min: V2<i32>, dim: V2<i32>) -> (r: Rect<i32>)
        requires
            fits_i32(min.x + dim.x),
            fits_i32(min.y + dim.y),
        ensures
            r.min == min,
            r.max == (V2 { x: (min.x + dim.x) as i32, y: (min.y + dim.y) as i32 }),
    {
        Rect::<i32> { min, max: min + dim }
    }

    /// Whether a point lies inside: at or past the minimum corner and
    /// before the maximum one.
    pub fn p_inside(&self, p: V2<i32>) -> (r: bool)
        ensures
            r == (p.x >= self.min.x && p.y >= self.min.y && p.x < self.max.x && p.y < self.max.y),
    {
        p.x >= self.min.x && p.y >= self.min.y && p.x < self.max.x && p.y < self.max.y
    }
}

/// A four-dimensional vector.
#[derive(Clone, Copy, Default, PartialEq, Eq, Structural)]
pub struct V4<T> {
    pub x: T,
    pub y: T,
    pub z: T,
    pub w: T,
}

impl<T: Copy> V4<T> {
    /// The first three coordinates.
    pub fn xyz(&self) -> (r: V3<T>)
        ensures
            r == (V3 { x: self.x, y: self.y, z: self.z }),
    {
        V3 { x: self.x, y: self.y, z: self.z }
    }
}

/// The dot product of two four-dimensional vectors.
pub open spec fn dot_4_spec(a: V4<i32>, b: V4<i32>) -> int {
    a.x * b.x + a.y * b.y + a.z * b.z + a.w * b.w
}

/// The dot product of two three-dimensional vectors.
pub open spec fn dot_3_spec(a: V3<i32>, b: V3<i32>) -> int {
    a.x * b.x + a.y * b.y + a.z * b.z
}

/// The dot product of two two-dimensional vectors.
pub open spec fn dot_2_spec(a: V2<i32>, b: V2<i32>) -> int {
    a.x * b.x + a.y * b.y
}

impl V4<i32> {
    /// The squared length.
    pub fn length_sq(&self) -> (r: i32)
        requires
            fits_i32(self.x * self.x),
            fits_i32(self.y * self.y),
            fits_i32(self.z * self.z),
            fits_i32(self.w * self.w),
            fits_i32(self.x * self.x + self.y * self.y),
            fits_i32(self.x * self.x + self.y * self.y + self.z * self.z),
            fits_i32(dot_4_spec(*self, *self)),
        ensures
            r == dot_4_spec(*self, *self),
    {
        dot_4(*self, *self)
    }
}

/// A three-dimensional vector.
#[derive(Clone, Copy, Default, PartialEq, Eq, Structural)]
pub struct V3<T> {
    pub x: T,
    pub y: T,
    pub z: T,
}

impl V3<i32> {
    /// The squared length.
    pub fn length_sq(&self) -> (r: i32)
        requires
            fits_i32(self.x * self.x),
            fits_i32(self.y * self.y),
            fits_i32(self.z * self.z),
            fits_i32(self.x * self.x + self.y * self.y),
            fits_i32(dot_3_spec(*self, *self)),
        ensures
            r == dot_3_spec(*self, *self),
    {
        dot_3(*self, *self)
    }
}

impl std::ops::Mul<i32> for V3<i32> {
    type Output = V3<i32>;

    fn mul(self, other: i32) -> (r: V3<i32>) {
        V3::<i32> { x: self.x * other, y: self.y * other, z: self.z * other }
    }
}

impl MulSpecImpl<i32> for V3<i32> {
    open spec fn obeys_mul_spec() -> bool {
        true
    }

    open spec fn mul_req(self, rhs: i32) -> bool {
        fits_i32(self.x * rhs) && fits_i32(self.y * rhs) && fits_i32(self.z * rhs)
    }

    open spec fn mul_spec(self, rhs: i32) -> V3<i32> {
        V3 { x: (self.x * rhs) as i32, y: (self.y * rhs) as i32, z: (self.z * rhs) as i32 }
    }
}

impl std::ops::Add for V3<i32> {
    type Output = V3<i32>;

    fn add(self, other: V3<i32>) -> (r: V3<i32>) {
        V3::<i32> { x: self.x + other.x, y: self.y + other.y, z: self.z + other.z }
    }
}

impl AddSpecImpl for V3<i32> {
    open spec fn obeys_add_spec() -> bool {
        true
    }

    open spec fn add_req(self, rhs: V3<i32>) -> bool {
        fits_i32(self.x + rhs.x) && fits_i32(self.y + rhs.y) && fits_i32(self.z + rhs.z)
    }

    open spec fn add_spec(self, rhs: V3<i32>) -> V3<i32> {
        V3 { x: (self.x + rhs.x) as i32, y: (self.y + rhs.y) as i32, z: (self.z + rhs.z) as i32 }
    }
}

impl std::ops::Sub for V3<i32> {
    type Output = V3<i32>;

    fn sub(self, other: V3<i32>) -> (r: V3<i32>) {
        V3::<i32> { x: self.x - other.x, y: self.y - other.y, z: self.z - other.z }
    }
}

impl SubSpecImpl for V3<i32> {
    open spec fn obeys_sub_spec() -> bool {
        true
    }

    open spec fn sub_req(self, rhs: V3<i32>) -> bool {
        fits_i32(self.x - rhs.x) && fits_i32(self.y - rhs.y) && fits_i32(self.z - rhs.z)
    }

    open spec fn sub_spec(self, rhs: V3<i32>) -> V3<i32> {
        V3 { x: (self.x - rhs.x) as i32, y: (self.y - rhs.y) as i32, z: (self.z - rhs.z) as i32 }
    }
}

impl std::ops::Neg for V3<i32> {
    type Output = V3<i32>;

    fn neg(self) -> (r: V3<i32>) {
        V3::<i32> { x: -self.x, y: -self.y, z: -self.z }
    }
}

impl NegSpecImpl for V3<i32> {
    open spec fn obeys_neg_spec() -> bool {
        true
    }

    open spec fn neg_req(self) -> bool {
        self.x != i32::MIN && self.y != i32::MIN && self.z != i32::MIN
    }

    open spec fn neg_spec(self) -> V3<i32> {
        V3 { x: -self.x as i32, y: -self.y as i32, z: -self.z as i32 }
    }
}

/// A two-dimensional vector.
#[derive(Clone, Copy, Default, PartialEq, Eq, Structural)]
pub struct V2<T> {
    pub x: T,
    pub y: T,
}

impl V2<i32> {
    /// The squared length.
    pub fn length_sq(&self) -> (r: i32)
        requires
            fits_i32(self.x * self.x),
            fits_i32(self.y * self.y),
            fits_i32(dot_2_spec(*self, *self)),
        ensures
            r == dot_2_spec(*self, *self),
    {
        dot_2(*self, *self)
    }
}

/// The dot product of two four-dimensional vectors.
pub fn dot_4(a: V4<i32>, b: V4<i32>) -> (r: i32)
    requires
        fits_i32(a.x * b.x),
        fits_i32(a.y * b.y),
        fits_i32(a.z * b.z),
        fits_i32(a.w * b.w),
        fits_i32(a.x * b.x + a.y * b.y),
        fits_i32(a.x * b.x + a.y * b.y + a.z * b.z),
        fits_i32(dot_4_spec(a, b)),
    ensures
        r == dot_4_spec(a, b),
{
    a.x * b.x + a.y * b.y + a.z * b.z + a.w * b.w
}

/// The dot product of two three-dimensional vectors.
pub fn dot_3(a: V3<i32>, b: V3<i32>) -> (r: i32)
    requires
        fits_i32(a.x * b.x),
        fits_i32(a.y * b.y),
        fits_i32(a.z * b.z),
        fits_i32(a.x * b.x + a.y * b.y),
        fits_i32(dot_3_spec(a, b)),
    ensures
        r == dot_3_spec(a, b),
{
    a.x * b.x + a.y * b.y + a.z * b.z
}

/// The dot product of two two-dimensional vectors.
pub fn dot_2(a: V2<i32>, b: V2<i32>) -> (r: i32)
    requires
        fits_i32(a.x * b.x),
        fits_i32(a.y * b.y),
        fits_i32(dot_2_spec(a, b)),
    ensures
        r == dot_2_spec(a, b),
{
    a.x * b.x + a.y * b.y
}

impl std::ops::Mul<i32> for V2<i32> {
    type Output = V2<i32>;

    fn mul(self, other: i32) -> (r: V2<i32>) {
        V2::<i32> { x: self.x * other, y: self.y * other }
    }
}

impl MulSpecImpl<i32> for V2<i32> {
    open spec fn obeys_mul_spec() -> bool {
        true
    }

    open spec fn mul_req(self, rhs: i32) -> bool {
        fits_i32(self.x * rhs) && fits_i32(self.y * rhs)
    }

    open spec fn mul_spec(self, rhs: i32) -> V2<i32> {
        V2 { x: (self.x * rhs) as i32, y: (self.y * rhs) as i32 }
    }
}

impl std::ops::Add for V2<i32> {
    type Output = V2<i32>;

    fn add(self, other: V2<i32>) -> (r: V2<i32>) {
        V2::<i32> { x: self.x + other.x, y: self.y + other.y }
    }
}

impl AddSpecImpl for V2<i32> {
    open spec fn obeys_add_spec() -> bool {
        true
    }

    open spec fn add_req(self, rhs: V2<i32>) -> bool {
        v2_sum_fits(self, rhs)
    }

    open spec fn add_spec(self, rhs: V2<i32>) -> V2<i32> {
        v2_sum(self, rhs)
    }
}

impl std::ops::Sub for V2<i32> {
    type Output = V2<i32>;

    fn sub(self, other: V2<i32>) -> (r: V2<i32>) {
        V2::<i32> { x: self.x - other.x, y: self.y - other.y }
    }
}

impl SubSpecImpl for V2<i32> {
    open spec fn obeys_sub_spec() -> bool {
        true
    }

    open spec fn sub_req(self, rhs: V2<i32>) -> bool {
        v2_difference_fits(self, rhs)
    }

    open spec fn sub_spec(self, rhs: V2<i32>) -> V2<i32> {
        v2_difference(self, rhs)
    }
}

impl std::ops::Neg for V2<i32> {
    type Output = V2<i32>;

    fn neg(self) -> (r: V2<i32>) {
        V2::<i32> { x: -self.x, y: -self.y }
    }
}

impl NegSpecImpl for V2<i32> {
    open spec fn obeys_neg_spec() -> bool {
        true
    }

    open spec fn neg_req(self) -> bool {
        self.x != i32::MIN && self.y != i32::MIN
    }

    open spec fn neg_spec(self) -> V2<i32> {
        v2_negation(self)
    }
}

/// Whether the sum of two vectors fits in 32 signed bits.
pub open spec fn v2_sum_fits(a: V2<i32>, b: V2<i32>) -> bool {
    fits_i32(a.x + b.x) && fits_i32(a.y + b.y)
}

/// The sum of two vectors (`+`).
pub open spec fn v2_sum(a: V2<i32>, b: V2<i32>) -> V2<i32> {
    V2 { x: (a.x + b.x) as i32, y: (a.y + b.y) as i32 }
}

/// Whether the difference of two vectors fits in 32 signed bits.
pub open spec fn v2_difference_fits(a: V2<i32>, b: V2<i32>) -> bool {
    fits_i32(a.x - b.x) && fits_i32(a.y - b.y)
}

/// The difference of two vectors (`-`).
pub open spec fn v2_difference(a: V2<i32>, b: V2<i32>) -> V2<i32> {
    V2 { x: (a.x - b.x) as i32, y: (a.y - b.y) as i32 }
}

/// The opposite of a vector (unary `-`).
pub open spec fn v2_negation(a: V2<i32>) -> V2<i32> {
    V2 { x: -a.x as i32, y: -a.y as i32 }
}

/// Adding a vector and then subtracting it gives back the start.
pub proof fn lemma_add_sub_inverse(a: V2<i32>, b: V2<i32>)
    requires
        v2_sum_fits(a, b),
    ensures
        v2_difference_fits(v2_sum(a, b), b),
        v2_difference(v2_sum(a, b), b) == a,
{
}

/// Vector addition does not depend on the order of its operands.
pub proof fn lemma_add_commutative(a: V2<i32>, b: V2<i32>)
    requires
        v2_sum_fits(a, b),
    ensures
        v2_sum_fits(b, a),
        v2_sum(a, b) == v2_sum(b, a),
{
}

/// Negating twice gives back the vector.
pub proof fn lemma_neg_involutive(a: V2<i32>)
    requires
        a.x != i32::MIN && a.y != i32::MIN,
    ensures
        v2_negation(a).x != i32::MIN && v2_negation(a).y != i32::MIN,
        v2_negation(v2_negation(a)) == a,
{
}

} // verus!
