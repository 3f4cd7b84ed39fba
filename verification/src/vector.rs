//! Vectors of binary32 numbers.

use crate::accuracy::{law_product_within, law_root_within, law_sum_follows_sign, law_sum_within};
use crate::accuracy::within;
use crate::order::{law_negation, law_ratio_is_finite, law_zero};
use crate::rounding::{lemma_nearest_exists, magnitude};
use crate::scalar::{lemma_magnitude_sign, Scalar};
use vstd::arithmetic::power2::pow2;
use vstd::prelude::*;

verus! {

/// A point or a direction in space.  `y` points up.
#[derive(Clone, Copy, Debug, PartialEq, Eq, Structural)]
pub struct Vec3 {
    /// The component to the right.
    pub x: Scalar,
    /// The component upwards.
    pub y: Scalar,
    /// The component forwards.
    pub z: Scalar,
}

impl Vec3 {
    /// The vector with the given components.
    pub open spec fn spec_new(x: Scalar, y: Scalar, z: Scalar) -> Vec3 {
        Vec3 { x, y, z }
    }

    /// The sum, component by component.
    pub open spec fn spec_plus(self, other: Vec3) -> Vec3 {
        Vec3 { x: self.x.plus(other.x), y: self.y.plus(other.y), z: self.z.plus(other.z) }
    }

    /// The difference, component by component.
    pub open spec fn spec_minus(self, other: Vec3) -> Vec3 {
        Vec3 { x: self.x.minus(other.x), y: self.y.minus(other.y), z: self.z.minus(other.z) }
    }

    /// The vector stretched by a factor.
    pub open spec fn spec_times(self, factor: Scalar) -> Vec3 {
        Vec3 { x: self.x.times(factor), y: self.y.times(factor), z: self.z.times(factor) }
    }

    /// The vector divided by a number.
    pub open spec fn spec_over(self, divisor: Scalar) -> Vec3 {
        Vec3 { x: self.x.over(divisor), y: self.y.over(divisor), z: self.z.over(divisor) }
    }

    /// The opposite vector.
    pub open spec fn spec_negated(self) -> Vec3 {
        Vec3 { x: self.x.negated(), y: self.y.negated(), z: self.z.negated() }
    }

    /// The inner product.
    pub open spec fn spec_dot(self, other: Vec3) -> Scalar {
        self.x.times(other.x).plus(self.y.times(other.y)).plus(self.z.times(other.z))
    }

    /// The length.
    pub open spec fn spec_length(self) -> Scalar {
        self.spec_dot(self).root()
    }

    /// The vector of length one in the same direction.
    pub open spec fn spec_normalized(self) -> Vec3 {
        self.spec_times(Scalar::ratio(1, 1).over(self.spec_length()))
    }

    /// The vector with the given components.
    #[verifier::when_used_as_spec(spec_new)]
    pub fn new(x: Scalar, y: Scalar, z: Scalar) -> (r: Vec3)
        ensures
            r == Vec3::new(x, y, z),
    {
        Vec3 { x, y, z }
    }

    /// The sum, component by component.
    #[verifier::when_used_as_spec(spec_plus)]
    pub fn plus(self, other: Vec3) -> (r: Vec3)
        ensures
            r == self.plus(other),
    {
        Vec3 { x: self.x.plus(other.x), y: self.y.plus(other.y), z: self.z.plus(other.z) }
    }

    /// The difference, component by component.
    #[verifier::when_used_as_spec(spec_minus)]
    pub fn minus(self, other: Vec3) -> (r: Vec3)
        ensures
            r == self.minus(other),
    {
        Vec3 { x: self.x.minus(other.x), y: self.y.minus(other.y), z: self.z.minus(other.z) }
    }

    /// The vector stretched by a factor.
    #[verifier::when_used_as_spec(spec_times)]
    pub fn times(self, factor: Scalar) -> (r: Vec3)
        ensures
            r == self.times(factor),
    {
        Vec3 { x: self.x.times(factor), y: self.y.times(factor), z: self.z.times(factor) }
    }

    /// The vector divided by a number.
    #[verifier::when_used_as_spec(spec_over)]
    pub fn over(self, divisor: Scalar) -> (r: Vec3)
        ensures
            r == self.over(divisor),
    {
        Vec3 { x: self.x.over(divisor), y: self.y.over(divisor), z: self.z.over(divisor) }
    }

    /// The opposite vector.
    #[verifier::when_used_as_spec(spec_negated)]
    pub fn negated(self) -> (r: Vec3)
        ensures
            r == self.negated(),
    {
        Vec3 { x: self.x.negated(), y: self.y.negated(), z: self.z.negated() }
    }

    /// The inner product.
    #[verifier::when_used_as_spec(spec_dot)]
    pub fn dot(self, other: Vec3) -> (r: Scalar)
        ensures
            r == self.dot(other),
    {
        self.x.times(other.x).plus(self.y.times(other.y)).plus(self.z.times(other.z))
    }

    /// The length.
    #[verifier::when_used_as_spec(spec_length)]
    pub fn length(self) -> (r: Scalar)
        ensures
            r == self.length(),
    {
        self.dot(self).root()
    }

    /// The vector of length one in the same direction.
    #[verifier::when_used_as_spec(spec_normalized)]
    pub fn normalized(self) -> (r: Vec3)
        ensures
            r == self.normalized(),
    {
        self.times(Scalar::ratio(1, 1).over(self.length()))
    }
}

/// The length of a vector in the ground plane.
pub open spec fn spec_planar_length(x: Scalar, z: Scalar) -> Scalar {
    x.times(x).plus(z.times(z)).root()
}

/// The length of a vector in the ground plane.
#[verifier::when_used_as_spec(spec_planar_length)]
pub fn planar_length(x: Scalar, z: Scalar) -> (r: Scalar)
    ensures
        r == planar_length(x, z),
{
    x.times(x).plus(z.times(z)).root()
}

/// The distance of two points, measured along the ground.
pub open spec fn spec_ground_distance(a: Vec3, b: Vec3) -> Scalar {
    planar_length(a.x.minus(b.x), a.z.minus(b.z))
}

/// The distance of two points, measured along the ground.
#[verifier::when_used_as_spec(spec_ground_distance)]
pub fn ground_distance(a: Vec3, b: Vec3) -> (r: Scalar)
    ensures
        r == ground_distance(a, b),
{
    planar_length(a.x.minus(b.x), a.z.minus(b.z))
}

/// Sums, differences, multiples, quotients and opposites of vectors are those of their components.
pub proof fn law_vectors_go_by_component(a: Vec3, b: Vec3, f: Scalar)
    ensures
        a.plus(b).x == a.x.plus(b.x) && a.plus(b).y == a.y.plus(b.y) && a.plus(b).z == a.z.plus(
            b.z,
        ),
        a.minus(b).x == a.x.minus(b.x) && a.minus(b).y == a.y.minus(b.y) && a.minus(b).z
            == a.z.minus(b.z),
        a.times(f).x == a.x.times(f) && a.times(f).y == a.y.times(f) && a.times(f).z == a.z.times(
            f,
        ),
        a.over(f).x == a.x.over(f) && a.over(f).y == a.y.over(f) && a.over(f).z == a.z.over(f),
        a.negated().x == a.x.negated() && a.negated().y == a.y.negated() && a.negated().z
            == a.z.negated(),
        Vec3::new(a.x, b.y, f) == (Vec3 { x: a.x, y: b.y, z: f }),
{
}

/// The inner product takes the products of the components together and does not depend on which
/// vector comes first; the length is the root of a vector's product with itself.
pub proof fn law_inner_product(a: Vec3, b: Vec3)
    ensures
        a.dot(b) == a.x.times(b.x).plus(a.y.times(b.y)).plus(a.z.times(b.z)),
        a.dot(b) == b.dot(a),
        a.length() == a.x.times(a.x).plus(a.y.times(a.y)).plus(a.z.times(a.z)).root(),
        a.normalized().x == a.x.times(Scalar::ratio(1, 1).over(a.length())),
        a.normalized().y == a.y.times(Scalar::ratio(1, 1).over(a.length())),
        a.normalized().z == a.z.times(Scalar::ratio(1, 1).over(a.length())),
{
    crate::order::law_commutes(a.x, b.x);
    crate::order::law_commutes(a.y, b.y);
    crate::order::law_commutes(a.z, b.z);
}

/// Distances along the ground do not depend on heights, and are the roots of the squares of what
/// the points differ by to the right and ahead.
pub proof fn law_ground_distance_is_flat(a: Vec3, b: Vec3, y: Scalar)
    ensures
        ({
            let x = a.x.minus(b.x);
            let z = a.z.minus(b.z);
            ground_distance(a, b) == x.times(x).plus(z.times(z)).root()
        }),
        ground_distance(a, b) == ground_distance(Vec3 { y, ..a }, b),
        ground_distance(a, b) == ground_distance(a, Vec3 { y, ..b }),
        planar_length(a.x, a.z) == a.x.times(a.x).plus(a.z.times(a.z)).root(),
        planar_length(a.x, a.z) == planar_length(a.z, a.x),
{
    crate::order::law_commutes(a.x.times(a.x), a.z.times(a.z));
}

/// A length along the ground is that of the theorem of Pythagoras: with `k` units of rounding in
/// the root and `j` units in the squares and their sum, its square is the sum of the squares.
pub proof fn law_planar_length_is_pythagorean(x: Scalar, z: Scalar, k: nat, j: nat)
    requires
        k >= 1,
        j >= 1,
        x.is_finite(),
        z.is_finite(),
        within(x.times(x), j),
        within(z.times(z), j),
        within(x.times(x).plus(z.times(z)), j),
        within(planar_length(x, z), k),
    ensures
        ({
            let l = planar_length(x, z).units();
            let exact = x.units() * x.units() + z.units() * z.units();
            let u = pow2(149) as int;
            &&& l >= 0
            &&& exact <= (l + k) * (l + k) + 5 * (j * u)
            &&& l >= k ==> (l - k) * (l - k) <= exact + 5 * (j * u)
        }),
{
    let a = x.times(x);
    let b = z.times(z);
    let s = a.plus(b);
    let u = pow2(149) as int;
    law_product_within(x, x, j);
    law_product_within(z, z, j);
    law_sum_within(a, b, j);
    assert(s.units() >= 0) by {
        law_zero();
        lemma_square_is_not_negative(x);
        lemma_square_is_not_negative(z);
        law_ratio_is_finite(0, 1);
        law_sum_follows_sign(a, b);
        reveal(Scalar::spec_le);
    }
    law_root_within(s, k);
    let xx = x.units() * x.units();
    let zz = z.units() * z.units();
    let e = s.units() - (a.units() + b.units());
    assert(s.units() * u == e * u + a.units() * u + b.units() * u) by (nonlinear_arith)
        requires
            e == s.units() - (a.units() + b.units()),
    ;
    assert(-(j * u) <= e * u <= j * u) by (nonlinear_arith)
        requires
            -j <= e <= j,
            u >= 0,
    ;
    assert(2 * j * u == 2 * (j * u)) by (nonlinear_arith);
}

/// The square of a finite number is not negative.
proof fn lemma_square_is_not_negative(x: Scalar)
    requires
        x.is_finite(),
    ensures
        Scalar::ratio(0, 1).le(x.times(x)) || x.times(x).is_nan(),
{
    law_zero();
    law_ratio_is_finite(0, 1);
    law_negation(x, x);
    reveal(Scalar::spec_le);
    reveal(Scalar::spec_times);
    lemma_magnitude_sign(x.times(x).code() as int);
    lemma_magnitude_sign(Scalar::ratio(0, 1).code() as int);
    let num = (magnitude(x.code() as int) * magnitude(x.code() as int)) as nat;
    lemma_nearest_exists(num / pow2(148), num % pow2(148) == 0);
}

} // verus!
