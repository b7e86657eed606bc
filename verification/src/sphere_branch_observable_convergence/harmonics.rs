//! Real spherical harmonics of low degree as homogeneous integer polynomials.
//!
//! A harmonic is a polynomial times a constant whose square is a fraction over pi. On the unit
//! sphere the surface gradient of a homogeneous polynomial `P` of degree `l` is
//! `grad P - l P x`, which the laws below show to be tangent.

use vstd::prelude::*;

verus! {

/// A product of powers of the coordinates with a coefficient.
#[derive(Debug, Clone, Copy, PartialEq, Eq, Structural)]
pub struct Monomial {
    pub coefficient: i64,
    pub x: u32,
    pub y: u32,
    pub z: u32,
}

/// A coordinate direction.
#[derive(Debug, Clone, Copy, PartialEq, Eq, Structural)]
pub enum Axis {
    X,
    Y,
    Z,
}

/// A point with integer coordinates.
pub struct IntegerPoint {
    pub x: int,
    pub y: int,
    pub z: int,
}

/// A power of a number.
pub open spec fn power(base: int, exponent: nat) -> int
    decreases exponent,
{
    if exponent == 0 {
        1
    } else {
        base * power(base, (exponent - 1) as nat)
    }
}

impl Monomial {
    /// The value at a point.
    pub open spec fn at(self, point: IntegerPoint) -> int {
        self.coefficient * (power(point.x, self.x as nat) * (power(point.y, self.y as nat) * power(
            point.z,
            self.z as nat,
        )))
    }

    /// The power of a coordinate.
    pub open spec fn exponent(self, axis: Axis) -> nat {
        match axis {
            Axis::X => self.x as nat,
            Axis::Y => self.y as nat,
            Axis::Z => self.z as nat,
        }
    }

    /// The sum of the powers.
    pub open spec fn degree(self) -> int {
        self.x + self.y + self.z
    }

    /// The derivative along an axis on which it depends.
    pub open spec fn slope(self, axis: Axis) -> Monomial {
        match axis {
            Axis::X => Monomial {
                coefficient: (self.coefficient * self.x) as i64,
                x: (self.x - 1) as u32,
                ..self
            },
            Axis::Y => Monomial {
                coefficient: (self.coefficient * self.y) as i64,
                y: (self.y - 1) as u32,
                ..self
            },
            Axis::Z => Monomial {
                coefficient: (self.coefficient * self.z) as i64,
                z: (self.z - 1) as u32,
                ..self
            },
        }
    }

    /// Whether the coefficient of the derivative is a number of the machine.
    pub open spec fn differentiable(self) -> bool {
        &&& i64::MIN <= self.coefficient * self.x <= i64::MAX
        &&& i64::MIN <= self.coefficient * self.y <= i64::MAX
        &&& i64::MIN <= self.coefficient * self.z <= i64::MAX
    }
}

/// The value of a sum of monomials at a point.
pub open spec fn polynomial_at(terms: Seq<Monomial>, point: IntegerPoint) -> int
    decreases terms.len(),
{
    if terms.len() == 0 {
        0
    } else {
        polynomial_at(terms.drop_last(), point) + terms.last().at(point)
    }
}

/// The derivative of a sum of monomials.
pub open spec fn derivative(terms: Seq<Monomial>, axis: Axis) -> Seq<Monomial>
    decreases terms.len(),
{
    if terms.len() == 0 {
        Seq::empty()
    } else {
        let before = derivative(terms.drop_last(), axis);
        if terms.last().exponent(axis) > 0 {
            before.push(terms.last().slope(axis))
        } else {
            before
        }
    }
}

/// Whether every monomial can be differentiated.
pub open spec fn all_differentiable(terms: Seq<Monomial>) -> bool {
    forall|t: int| 0 <= t < terms.len() ==> (#[trigger] terms[t]).differentiable()
}

/// Whether every monomial has the given degree.
pub open spec fn homogeneous(terms: Seq<Monomial>, degree: int) -> bool {
    forall|t: int| 0 <= t < terms.len() ==> (#[trigger] terms[t]).degree() == degree
}

/// Differentiates a sum of monomials.
pub fn differentiate(terms: &Vec<Monomial>, axis: Axis) -> (slopes: Vec<Monomial>)
    requires
        all_differentiable(terms@),
    ensures
        slopes@ == derivative(terms@, axis),
{
    let mut slopes: Vec<Monomial> = Vec::new();
    let mut index: usize = 0;
    while index < terms.len()
        invariant
            index <= terms.len(),
            all_differentiable(terms@),
            slopes@ == derivative(terms@.take(index as int), axis),
        decreases terms.len() - index,
    {
        let term: Monomial = terms[index];
        proof {
            assert(term.differentiable());
            assert(terms@.take(index + 1).drop_last() =~= terms@.take(index as int));
            assert(terms@.take(index + 1).last() == term);
        }
        match axis {
            Axis::X => {
                if term.x > 0 {
                    let coefficient: i64 = (term.coefficient as i128 * term.x as i128) as i64;
                    slopes.push(Monomial { coefficient, x: term.x - 1, y: term.y, z: term.z });
                }
            },
            Axis::Y => {
                if term.y > 0 {
                    let coefficient: i64 = (term.coefficient as i128 * term.y as i128) as i64;
                    slopes.push(Monomial { coefficient, x: term.x, y: term.y - 1, z: term.z });
                }
            },
            Axis::Z => {
                if term.z > 0 {
                    let coefficient: i64 = (term.coefficient as i128 * term.z as i128) as i64;
                    slopes.push(Monomial { coefficient, x: term.x, y: term.y, z: term.z - 1 });
                }
            },
        }
        index = index + 1;
    }
    assert(terms@.take(index as int) =~= terms@);
    slopes
}

/// Whether there is a harmonic of the degree and order.
pub open spec fn is_harmonic(ell: int, m: int) -> bool {
    1 <= ell <= 3 && -ell <= m <= ell
}

/// A monomial by its coefficient and its powers.
pub open spec fn term(coefficient: int, x: u32, y: u32, z: u32) -> Monomial {
    Monomial { coefficient: coefficient as i64, x, y, z }
}

/// The polynomial of a harmonic.
pub open spec fn harmonic(ell: int, m: int) -> Seq<Monomial> {
    if ell == 1 {
        if m == -1 {
            seq![term(1, 0, 1, 0)]
        } else if m == 0 {
            seq![term(1, 0, 0, 1)]
        } else {
            seq![term(1, 1, 0, 0)]
        }
    } else if ell == 2 {
        if m == -2 {
            seq![term(1, 1, 1, 0)]
        } else if m == -1 {
            seq![term(1, 0, 1, 1)]
        } else if m == 0 {
            seq![term(2, 0, 0, 2), term(-1, 2, 0, 0), term(-1, 0, 2, 0)]
        } else if m == 1 {
            seq![term(1, 1, 0, 1)]
        } else {
            seq![term(1, 2, 0, 0), term(-1, 0, 2, 0)]
        }
    } else {
        if m == -3 {
            seq![term(3, 2, 1, 0), term(-1, 0, 3, 0)]
        } else if m == -2 {
            seq![term(1, 1, 1, 1)]
        } else if m == -1 {
            seq![term(4, 0, 1, 2), term(-1, 2, 1, 0), term(-1, 0, 3, 0)]
        } else if m == 0 {
            seq![term(2, 0, 0, 3), term(-3, 2, 0, 1), term(-3, 0, 2, 1)]
        } else if m == 1 {
            seq![term(4, 1, 0, 2), term(-1, 3, 0, 0), term(-1, 1, 2, 0)]
        } else if m == 2 {
            seq![term(1, 2, 0, 1), term(-1, 0, 2, 1)]
        } else {
            seq![term(1, 3, 0, 0), term(-3, 1, 2, 0)]
        }
    }
}

/// The square of the constant of a harmonic, as a fraction over pi.
pub open spec fn squared_constant(ell: int, m: int) -> (nat, nat) {
    if ell == 1 {
        (3, 4)
    } else if ell == 2 {
        if m == 0 {
            (5, 16)
        } else if m == 2 {
            (15, 16)
        } else {
            (15, 4)
        }
    } else {
        if m == -3 || m == 3 {
            (35, 32)
        } else if m == -2 {
            (105, 4)
        } else if m == -1 || m == 1 {
            (21, 32)
        } else if m == 0 {
            (7, 16)
        } else {
            (105, 16)
        }
    }
}

fn monomial(coefficient: i64, x: u32, y: u32, z: u32) -> (result: Monomial)
    ensures
        result == term(coefficient as int, x, y, z),
{
    Monomial { coefficient, x, y, z }
}

/// Lists the monomials of a harmonic.
pub fn harmonic_polynomial(ell: usize, m: i64) -> (terms: Vec<Monomial>)
    requires
        is_harmonic(ell as int, m as int),
    ensures
        terms@ == harmonic(ell as int, m as int),
{
    let terms: Vec<Monomial> = if ell == 1 {
        if m == -1 {
            vec![monomial(1, 0, 1, 0)]
        } else if m == 0 {
            vec![monomial(1, 0, 0, 1)]
        } else {
            vec![monomial(1, 1, 0, 0)]
        }
    } else if ell == 2 {
        if m == -2 {
            vec![monomial(1, 1, 1, 0)]
        } else if m == -1 {
            vec![monomial(1, 0, 1, 1)]
        } else if m == 0 {
            vec![monomial(2, 0, 0, 2), monomial(-1, 2, 0, 0), monomial(-1, 0, 2, 0)]
        } else if m == 1 {
            vec![monomial(1, 1, 0, 1)]
        } else {
            vec![monomial(1, 2, 0, 0), monomial(-1, 0, 2, 0)]
        }
    } else {
        if m == -3 {
            vec![monomial(3, 2, 1, 0), monomial(-1, 0, 3, 0)]
        } else if m == -2 {
            vec![monomial(1, 1, 1, 1)]
        } else if m == -1 {
            vec![monomial(4, 0, 1, 2), monomial(-1, 2, 1, 0), monomial(-1, 0, 3, 0)]
        } else if m == 0 {
            vec![monomial(2, 0, 0, 3), monomial(-3, 2, 0, 1), monomial(-3, 0, 2, 1)]
        } else if m == 1 {
            vec![monomial(4, 1, 0, 2), monomial(-1, 3, 0, 0), monomial(-1, 1, 2, 0)]
        } else if m == 2 {
            vec![monomial(1, 2, 0, 1), monomial(-1, 0, 2, 1)]
        } else {
            vec![monomial(1, 3, 0, 0), monomial(-3, 1, 2, 0)]
        }
    };
    assert(terms@ =~= harmonic(ell as int, m as int));
    terms
}

/// Gives the square of the constant of a harmonic, as a fraction over pi.
pub fn harmonic_constant(ell: usize, m: i64) -> (fraction: (u64, u64))
    requires
        is_harmonic(ell as int, m as int),
    ensures
        fraction.0 == squared_constant(ell as int, m as int).0,
        fraction.1 == squared_constant(ell as int, m as int).1,
{
    if ell == 1 {
        (3, 4)
    } else if ell == 2 {
        if m == 0 {
            (5, 16)
        } else if m == 2 {
            (15, 16)
        } else {
            (15, 4)
        }
    } else {
        if m == -3 || m == 3 {
            (35, 32)
        } else if m == -2 {
            (105, 4)
        } else if m == -1 || m == 1 {
            (21, 32)
        } else if m == 0 {
            (7, 16)
        } else {
            (105, 16)
        }
    }
}

proof fn lemma_harmonic_terms(ell: int, m: int)
    requires
        is_harmonic(ell, m),
    ensures
        homogeneous(harmonic(ell, m), ell),
        all_differentiable(harmonic(ell, m)),
{
    let terms = harmonic(ell, m);
    assert forall|t: int| 0 <= t < terms.len() implies (#[trigger] terms[t]).differentiable() by {
        let part = terms[t];
        assert(-3 <= part.coefficient <= 4 && part.x <= 3 && part.y <= 3 && part.z <= 3);
        lemma_small_product(part.coefficient as int, part.x as int);
        lemma_small_product(part.coefficient as int, part.y as int);
        lemma_small_product(part.coefficient as int, part.z as int);
    }
}

proof fn lemma_small_product(coefficient: int, exponent: int)
    requires
        -100 <= coefficient <= 100,
        0 <= exponent <= 4,
    ensures
        -400 <= coefficient * exponent <= 400,
{
    assert(-400 <= coefficient * exponent <= 400) by (nonlinear_arith)
        requires
            -100 <= coefficient <= 100,
            0 <= exponent <= 4,
    ;
}

/// The derivatives of a harmonic along the three axes, without its constant.
#[derive(Debug)]
pub struct HarmonicGradient {
    pub x: Vec<Monomial>,
    pub y: Vec<Monomial>,
    pub z: Vec<Monomial>,
}

/// Lists the monomials of the derivatives of a harmonic.
pub fn harmonic_gradient(ell: usize, m: i64) -> (gradient: HarmonicGradient)
    requires
        is_harmonic(ell as int, m as int),
    ensures
        gradient.x@ == derivative(harmonic(ell as int, m as int), Axis::X),
        gradient.y@ == derivative(harmonic(ell as int, m as int), Axis::Y),
        gradient.z@ == derivative(harmonic(ell as int, m as int), Axis::Z),
{
    let terms = harmonic_polynomial(ell, m);
    proof {
        lemma_harmonic_terms(ell as int, m as int);
    }
    HarmonicGradient {
        x: differentiate(&terms, Axis::X),
        y: differentiate(&terms, Axis::Y),
        z: differentiate(&terms, Axis::Z),
    }
}

/// The value of a derivative at a point.
pub open spec fn slope_at(terms: Seq<Monomial>, axis: Axis, point: IntegerPoint) -> int {
    polynomial_at(derivative(terms, axis), point)
}

/// What a derivative contributes along its own axis.
pub open spec fn slope_part(monomial: Monomial, axis: Axis, point: IntegerPoint) -> int {
    if monomial.exponent(axis) > 0 {
        monomial.slope(axis).at(point)
    } else {
        0
    }
}

proof fn lemma_monomial_slope_x(monomial: Monomial, point: IntegerPoint)
    requires
        monomial.differentiable(),
    ensures
        point.x * slope_part(monomial, Axis::X, point) == monomial.x * monomial.at(point),
{
    if monomial.x > 0 {
        let rest = power(point.y, monomial.y as nat) * power(point.z, monomial.z as nat);
        let low = power(point.x, (monomial.x - 1) as nat);
        let c = monomial.coefficient as int;
        let e = monomial.x as int;
        let x = point.x;
        assert(power(x, monomial.x as nat) == x * low);
        assert(x * ((c * e) * (low * rest)) == e * (c * ((x * low) * rest))) by (nonlinear_arith);
        assert(monomial.slope(Axis::X).at(point) == (c * e) * (low * rest));
    } else {
        assert(point.x * 0 == 0);
        assert(0 * monomial.at(point) == 0);
    }
}

proof fn lemma_pull_out(y: int, c: int, e: int, front: int, part: int)
    ensures
        y * ((c * e) * (front * part)) == e * (c * (front * (y * part))),
{
    let product = front * part;
    assert(front * (y * part) == y * product) by (nonlinear_arith)
        requires
            product == front * part,
    ;
    assert(y * ((c * e) * product) == e * (c * (y * product))) by (nonlinear_arith);
}

proof fn lemma_monomial_slope_y(monomial: Monomial, point: IntegerPoint)
    requires
        monomial.differentiable(),
    ensures
        point.y * slope_part(monomial, Axis::Y, point) == monomial.y * monomial.at(point),
{
    if monomial.y > 0 {
        let front = power(point.x, monomial.x as nat);
        let back = power(point.z, monomial.z as nat);
        let low = power(point.y, (monomial.y - 1) as nat);
        let c = monomial.coefficient as int;
        let e = monomial.y as int;
        let y = point.y;
        assert(power(y, monomial.y as nat) == y * low);
        let part = low * back;
        assert((y * low) * back == y * part) by (nonlinear_arith)
            requires
                part == low * back,
        ;
        lemma_pull_out(y, c, e, front, part);
        assert(monomial.slope(Axis::Y).at(point) == (c * e) * (front * (low * back)));
    } else {
        assert(point.y * 0 == 0);
        assert(0 * monomial.at(point) == 0);
    }
}

proof fn lemma_monomial_slope_z(monomial: Monomial, point: IntegerPoint)
    requires
        monomial.differentiable(),
    ensures
        point.z * slope_part(monomial, Axis::Z, point) == monomial.z * monomial.at(point),
{
    if monomial.z > 0 {
        let front = power(point.x, monomial.x as nat);
        let middle = power(point.y, monomial.y as nat);
        let low = power(point.z, (monomial.z - 1) as nat);
        let c = monomial.coefficient as int;
        let e = monomial.z as int;
        let z = point.z;
        assert(power(z, monomial.z as nat) == z * low);
        let part = middle * low;
        assert(middle * (z * low) == z * part) by (nonlinear_arith)
            requires
                part == middle * low,
        ;
        lemma_pull_out(z, c, e, front, part);
        assert(monomial.slope(Axis::Z).at(point) == (c * e) * (front * (middle * low)));
    } else {
        assert(point.z * 0 == 0);
        assert(0 * monomial.at(point) == 0);
    }
}

proof fn lemma_slope_step(terms: Seq<Monomial>, axis: Axis, point: IntegerPoint)
    requires
        terms.len() > 0,
    ensures
        slope_at(terms, axis, point) == slope_at(terms.drop_last(), axis, point) + slope_part(
            terms.last(),
            axis,
            point,
        ),
{
    let before = derivative(terms.drop_last(), axis);
    if terms.last().exponent(axis) > 0 {
        let after = before.push(terms.last().slope(axis));
        assert(after.drop_last() =~= before);
        assert(after.last() == terms.last().slope(axis));
    }
}

/// Euler's identity: at every point, the coordinates times the derivatives of a homogeneous
/// polynomial add up to its degree times its value.
pub proof fn lemma_euler(terms: Seq<Monomial>, degree: int, point: IntegerPoint)
    requires
        homogeneous(terms, degree),
        all_differentiable(terms),
    ensures
        point.x * slope_at(terms, Axis::X, point) + point.y * slope_at(terms, Axis::Y, point)
            + point.z * slope_at(terms, Axis::Z, point) == degree * polynomial_at(terms, point),
    decreases terms.len(),
{
    if terms.len() > 0 {
        let before = terms.drop_last();
        let last = terms.last();
        assert forall|t: int| 0 <= t < before.len() implies (#[trigger] before[t]).degree()
            == degree && before[t].differentiable() by {
            assert(before[t] == terms[t]);
        }
        assert(terms[terms.len() - 1].degree() == degree);
        lemma_euler(before, degree, point);
        lemma_slope_step(terms, Axis::X, point);
        lemma_slope_step(terms, Axis::Y, point);
        lemma_slope_step(terms, Axis::Z, point);
        lemma_monomial_slope_x(last, point);
        lemma_monomial_slope_y(last, point);
        lemma_monomial_slope_z(last, point);
        let (x, y, z) = (point.x, point.y, point.z);
        let (a, b, c) = (
            slope_at(before, Axis::X, point),
            slope_at(before, Axis::Y, point),
            slope_at(before, Axis::Z, point),
        );
        let (p, q, r) = (
            slope_part(last, Axis::X, point),
            slope_part(last, Axis::Y, point),
            slope_part(last, Axis::Z, point),
        );
        let (value, part) = (polynomial_at(before, point), last.at(point));
        assert(x * (a + p) + y * (b + q) + z * (c + r) == (x * a + y * b + z * c) + (x * p + y * q
            + z * r)) by (nonlinear_arith);
        assert(last.x * part + last.y * part + last.z * part == degree * part) by (nonlinear_arith)
            requires
                last.x + last.y + last.z == degree,
        ;
        assert(degree * value + degree * part == degree * (value + part)) by (nonlinear_arith);
    } else {
        assert(point.x * 0 + point.y * 0 + point.z * 0 == degree * 0);
    }
}

/// The point on the other side of the origin.
pub open spec fn opposite(point: IntegerPoint) -> IntegerPoint {
    IntegerPoint { x: -point.x, y: -point.y, z: -point.z }
}

proof fn lemma_power_of_opposite(base: int, exponent: nat)
    ensures
        power(-base, exponent) == power(-1, exponent) * power(base, exponent),
    decreases exponent,
{
    if exponent > 0 {
        let rest = (exponent - 1) as nat;
        lemma_power_of_opposite(base, rest);
        let (sign, part) = (power(-1, rest), power(base, rest));
        assert(-base * (sign * part) == (-1 * sign) * (base * part)) by (nonlinear_arith);
    }
}

proof fn lemma_signs_join(left: nat, right: nat)
    ensures
        power(-1, left + right) == power(-1, left) * power(-1, right),
    decreases left,
{
    if left > 0 {
        lemma_signs_join((left - 1) as nat, right);
        let (front, back) = (power(-1, (left - 1) as nat), power(-1, right));
        assert(-1 * (front * back) == (-1 * front) * back) by (nonlinear_arith);
    } else {
        assert(power(-1, 0) == 1);
    }
}

proof fn lemma_monomial_reflection(monomial: Monomial, point: IntegerPoint)
    ensures
        monomial.at(opposite(point)) == power(-1, monomial.degree() as nat) * monomial.at(point),
{
    let (x, y, z) = (monomial.x as nat, monomial.y as nat, monomial.z as nat);
    lemma_power_of_opposite(point.x, x);
    lemma_power_of_opposite(point.y, y);
    lemma_power_of_opposite(point.z, z);
    lemma_signs_join(x, y);
    lemma_signs_join(x + y, z);
    let (r, s, t) = (power(-1, x), power(-1, y), power(-1, z));
    let (a, b, c) = (power(point.x, x), power(point.y, y), power(point.z, z));
    let k = monomial.coefficient as int;
    assert((s * b) * (t * c) == (s * t) * (b * c)) by (nonlinear_arith);
    assert((r * a) * ((s * t) * (b * c)) == ((r * s) * t) * (a * (b * c))) by (nonlinear_arith);
    assert(k * (((r * s) * t) * (a * (b * c))) == ((r * s) * t) * (k * (a * (b * c))))
        by (nonlinear_arith);
}

/// At the opposite point a homogeneous polynomial has the same value where its degree is even, and
/// the opposite value where it is odd.
pub proof fn lemma_reflection(terms: Seq<Monomial>, degree: nat, point: IntegerPoint)
    requires
        homogeneous(terms, degree as int),
    ensures
        polynomial_at(terms, opposite(point)) == power(-1, degree) * polynomial_at(terms, point),
    decreases terms.len(),
{
    if terms.len() > 0 {
        let before = terms.drop_last();
        assert forall|t: int| 0 <= t < before.len() implies (#[trigger] before[t]).degree()
            == degree by {
            assert(before[t] == terms[t]);
        }
        lemma_reflection(before, degree, point);
        assert(terms[terms.len() - 1].degree() == degree);
        lemma_monomial_reflection(terms.last(), point);
        let (value, part) = (polynomial_at(before, point), terms.last().at(point));
        let sign = power(-1, degree);
        assert(sign * value + sign * part == sign * (value + part)) by (nonlinear_arith);
    } else {
        assert(power(-1, degree) * 0 == 0);
    }
}

proof fn lemma_derivative_homogeneous(terms: Seq<Monomial>, degree: int, axis: Axis)
    requires
        homogeneous(terms, degree),
    ensures
        homogeneous(derivative(terms, axis), degree - 1),
    decreases terms.len(),
{
    if terms.len() > 0 {
        let before = terms.drop_last();
        assert forall|t: int| 0 <= t < before.len() implies (#[trigger] before[t]).degree()
            == degree by {
            assert(before[t] == terms[t]);
        }
        lemma_derivative_homogeneous(before, degree, axis);
        assert(terms[terms.len() - 1].degree() == degree);
        let slopes = derivative(terms, axis);
        assert forall|t: int| 0 <= t < slopes.len() implies (#[trigger] slopes[t]).degree()
            == degree - 1 by {
            if t < derivative(before, axis).len() {
                assert(slopes[t] == derivative(before, axis)[t]);
            }
        }
    }
}

/// At the opposite point a harmonic has the same value where its degree is even, and the opposite
/// value where it is odd; for the slopes of the harmonic it is the other way round.
pub proof fn lemma_harmonic_reflection(ell: int, m: int, axis: Axis, point: IntegerPoint)
    requires
        is_harmonic(ell, m),
    ensures
        polynomial_at(harmonic(ell, m), opposite(point)) == power(-1, ell as nat) * polynomial_at(
            harmonic(ell, m),
            point,
        ),
        slope_at(harmonic(ell, m), axis, opposite(point)) == power(-1, (ell - 1) as nat) * slope_at(
            harmonic(ell, m),
            axis,
            point,
        ),
{
    lemma_harmonic_terms(ell, m);
    lemma_reflection(harmonic(ell, m), ell as nat, point);
    lemma_derivative_homogeneous(harmonic(ell, m), ell, axis);
    lemma_reflection(derivative(harmonic(ell, m), axis), (ell - 1) as nat, point);
}

/// The squared distance of a point from the origin.
pub open spec fn squared_radius(point: IntegerPoint) -> int {
    point.x * point.x + point.y * point.y + point.z * point.z
}

/// The surface gradient of a harmonic at a point, times the squared radius and without its
/// constant.
pub open spec fn surface_gradient(ell: int, m: int, axis: Axis, point: IntegerPoint) -> int {
    let terms = harmonic(ell, m);
    let coordinate = match axis {
        Axis::X => point.x,
        Axis::Y => point.y,
        Axis::Z => point.z,
    };
    squared_radius(point) * slope_at(terms, axis, point) - ell * (polynomial_at(terms, point)
        * coordinate)
}

proof fn lemma_split_product(x: int, radius: int, a: int, ell: int, value: int)
    ensures
        x * (radius * a - ell * (value * x)) == radius * (x * a) - (ell * value) * (x * x),
{
    assert(x * (radius * a) == radius * (x * a)) by (nonlinear_arith);
    assert(x * (ell * (value * x)) == (ell * value) * (x * x)) by (nonlinear_arith);
    assert(x * (radius * a - ell * (value * x)) == x * (radius * a) - x * (ell * (value * x)))
        by (nonlinear_arith);
}

/// The exact field of a harmonic is tangent to the sphere, and so is the coexact field, which is
/// the exact one turned by a right angle: at every point, the products with the point vanish.
pub proof fn lemma_fields_are_tangent(ell: int, m: int, point: IntegerPoint)
    requires
        is_harmonic(ell, m),
    ensures
        point.x * surface_gradient(ell, m, Axis::X, point) + point.y * surface_gradient(
            ell,
            m,
            Axis::Y,
            point,
        ) + point.z * surface_gradient(ell, m, Axis::Z, point) == 0,
        point.x * (point.y * surface_gradient(ell, m, Axis::Z, point) - point.z
            * surface_gradient(ell, m, Axis::Y, point)) + point.y * (point.z * surface_gradient(
            ell,
            m,
            Axis::X,
            point,
        ) - point.x * surface_gradient(ell, m, Axis::Z, point)) + point.z * (point.x
            * surface_gradient(ell, m, Axis::Y, point) - point.y * surface_gradient(
            ell,
            m,
            Axis::X,
            point,
        )) == 0,
{
    let terms = harmonic(ell, m);
    lemma_harmonic_terms(ell, m);
    lemma_euler(terms, ell, point);
    let (x, y, z) = (point.x, point.y, point.z);
    let (a, b, c) = (
        slope_at(terms, Axis::X, point),
        slope_at(terms, Axis::Y, point),
        slope_at(terms, Axis::Z, point),
    );
    let value = polynomial_at(terms, point);
    let radius = x * x + y * y + z * z;
    lemma_split_product(x, radius, a, ell, value);
    lemma_split_product(y, radius, b, ell, value);
    lemma_split_product(z, radius, c, ell, value);
    assert(radius * (x * a) + radius * (y * b) + radius * (z * c) == radius * (x * a + y * b + z
        * c)) by (nonlinear_arith);
    assert((ell * value) * (x * x) + (ell * value) * (y * y) + (ell * value) * (z * z) == radius * (
    ell * value)) by (nonlinear_arith)
        requires
            radius == x * x + y * y + z * z,
    ;
    let (u, v, w) = (
        surface_gradient(ell, m, Axis::X, point),
        surface_gradient(ell, m, Axis::Y, point),
        surface_gradient(ell, m, Axis::Z, point),
    );
    assert(x * (y * w - z * v) + y * (z * u - x * w) + z * (x * v - y * u) == 0)
        by (nonlinear_arith);
}

/// The value of the second derivative of a monomial.
pub open spec fn bend_part(monomial: Monomial, axis: Axis, point: IntegerPoint) -> int {
    if monomial.exponent(axis) > 1 {
        monomial.slope(axis).slope(axis).at(point)
    } else {
        0
    }
}

/// The value of the second derivative of a sum of monomials.
pub open spec fn bend_at(terms: Seq<Monomial>, axis: Axis, point: IntegerPoint) -> int {
    slope_at(derivative(terms, axis), axis, point)
}

proof fn lemma_bend_step(terms: Seq<Monomial>, axis: Axis, point: IntegerPoint)
    requires
        terms.len() > 0,
    ensures
        bend_at(terms, axis, point) == bend_at(terms.drop_last(), axis, point) + bend_part(
            terms.last(),
            axis,
            point,
        ),
{
    let before = derivative(terms.drop_last(), axis);
    let last = terms.last();
    if last.exponent(axis) > 0 {
        let after = before.push(last.slope(axis));
        assert(after.drop_last() =~= before);
        lemma_slope_step(after, axis, point);
        assert(last.slope(axis).exponent(axis) == last.exponent(axis) - 1);
    }
}

/// The coefficient of the second derivative of a power.
pub open spec fn bend_factor(exponent: int) -> int {
    if exponent == 2 {
        2
    } else if exponent == 3 {
        6
    } else {
        0
    }
}

/// What is left of a power in its second derivative.
pub open spec fn bend_power(base: int, exponent: int) -> int {
    if exponent == 3 {
        base
    } else {
        1
    }
}

proof fn lemma_bend_coefficient(coefficient: int, exponent: int)
    requires
        -4 <= coefficient <= 4,
        2 <= exponent <= 3,
    ensures
        (((coefficient * exponent) as i64) * (exponent - 1)) as i64 == bend_factor(exponent)
            * coefficient,
{
    if exponent == 2 {
        assert(coefficient * exponent == 2 * coefficient) by (nonlinear_arith)
            requires
                exponent == 2,
        ;
        assert((2 * coefficient) * (exponent - 1) == 2 * coefficient) by (nonlinear_arith)
            requires
                exponent == 2,
        ;
    } else {
        assert(coefficient * exponent == 3 * coefficient) by (nonlinear_arith)
            requires
                exponent == 3,
        ;
        assert((3 * coefficient) * (exponent - 1) == 6 * coefficient) by (nonlinear_arith)
            requires
                exponent == 3,
        ;
    }
}

proof fn lemma_low_powers(base: int)
    ensures
        power(base, 0) == 1,
        power(base, 1) == base,
{
    reveal_with_fuel(power, 2);
    assert(base * 1 == base);
}

proof fn lemma_term_bends(coefficient: int, x: u32, y: u32, z: u32, point: IntegerPoint)
    requires
        -4 <= coefficient <= 4,
        x <= 3,
        y <= 3,
        z <= 3,
    ensures
        bend_part(term(coefficient, x, y, z), Axis::X, point) == (bend_factor(x as int)
            * coefficient) * (bend_power(point.x, x as int) * (power(point.y, y as nat) * power(
            point.z,
            z as nat,
        ))),
        bend_part(term(coefficient, x, y, z), Axis::Y, point) == (bend_factor(y as int)
            * coefficient) * (power(point.x, x as nat) * (bend_power(point.y, y as int) * power(
            point.z,
            z as nat,
        ))),
        bend_part(term(coefficient, x, y, z), Axis::Z, point) == (bend_factor(z as int)
            * coefficient) * (power(point.x, x as nat) * (power(point.y, y as nat) * bend_power(
            point.z,
            z as int,
        ))),
{
    broadcast use vstd::arithmetic::mul::group_mul_basics;

    lemma_low_powers(point.x);
    lemma_low_powers(point.y);
    lemma_low_powers(point.z);
    if x > 1 {
        lemma_bend_coefficient(coefficient, x as int);
    }
    if y > 1 {
        lemma_bend_coefficient(coefficient, y as int);
    }
    if z > 1 {
        lemma_bend_coefficient(coefficient, z as int);
    }
}

proof fn lemma_scaled_bends(
    coefficient: int,
    x: u32,
    y: u32,
    z: u32,
    factors: (int, int, int),
    point: IntegerPoint,
)
    requires
        -4 <= coefficient <= 4,
        x <= 3,
        y <= 3,
        z <= 3,
        factors.0 == bend_factor(x as int) * coefficient,
        factors.1 == bend_factor(y as int) * coefficient,
        factors.2 == bend_factor(z as int) * coefficient,
    ensures
        bend_part(term(coefficient, x, y, z), Axis::X, point) == factors.0 * (bend_power(
            point.x,
            x as int,
        ) * (power(point.y, y as nat) * power(point.z, z as nat))),
        bend_part(term(coefficient, x, y, z), Axis::Y, point) == factors.1 * (power(
            point.x,
            x as nat,
        ) * (bend_power(point.y, y as int) * power(point.z, z as nat))),
        bend_part(term(coefficient, x, y, z), Axis::Z, point) == factors.2 * (power(
            point.x,
            x as nat,
        ) * (power(point.y, y as nat) * bend_power(point.z, z as int))),
{
    lemma_term_bends(coefficient, x, y, z, point);
}

proof fn lemma_one_term(a: Monomial, axis: Axis, point: IntegerPoint)
    ensures
        bend_at(seq![a], axis, point) == bend_part(a, axis, point),
{
    let terms = seq![a];
    lemma_bend_step(terms, axis, point);
    assert(terms.drop_last() =~= Seq::empty());
}

proof fn lemma_two_terms(a: Monomial, b: Monomial, axis: Axis, point: IntegerPoint)
    ensures
        bend_at(seq![a, b], axis, point) == bend_part(a, axis, point) + bend_part(b, axis, point),
{
    let terms = seq![a, b];
    lemma_bend_step(terms, axis, point);
    assert(terms.drop_last() =~= seq![a]);
    lemma_one_term(a, axis, point);
}

proof fn lemma_three_terms(
    a: Monomial,
    b: Monomial,
    c: Monomial,
    axis: Axis,
    point: IntegerPoint,
)
    ensures
        bend_at(seq![a, b, c], axis, point) == bend_part(a, axis, point) + bend_part(
            b,
            axis,
            point,
        ) + bend_part(c, axis, point),
{
    let terms = seq![a, b, c];
    lemma_bend_step(terms, axis, point);
    assert(terms.drop_last() =~= seq![a, b]);
    lemma_two_terms(a, b, axis, point);
}

/// The value of the Laplacian of a sum of monomials.
pub open spec fn laplacian_at(terms: Seq<Monomial>, point: IntegerPoint) -> int {
    bend_at(terms, Axis::X, point) + bend_at(terms, Axis::Y, point) + bend_at(
        terms,
        Axis::Z,
        point,
    )
}

proof fn lemma_laplace_1(m: int, point: IntegerPoint)
    requires
        is_harmonic(1, m),
    ensures
        laplacian_at(harmonic(1, m), point) == 0,
{
    broadcast use vstd::arithmetic::mul::group_mul_basics;

    lemma_low_powers(point.x);
    lemma_low_powers(point.y);
    lemma_low_powers(point.z);
    if m == -1 {
        lemma_scaled_bends(1, 0, 1, 0, (0, 0, 0), point);
        lemma_one_term(term(1, 0, 1, 0), Axis::X, point);
        lemma_one_term(term(1, 0, 1, 0), Axis::Y, point);
        lemma_one_term(term(1, 0, 1, 0), Axis::Z, point);
    } else if m == 0 {
        lemma_scaled_bends(1, 0, 0, 1, (0, 0, 0), point);
        lemma_one_term(term(1, 0, 0, 1), Axis::X, point);
        lemma_one_term(term(1, 0, 0, 1), Axis::Y, point);
        lemma_one_term(term(1, 0, 0, 1), Axis::Z, point);
    } else {
        lemma_scaled_bends(1, 1, 0, 0, (0, 0, 0), point);
        lemma_one_term(term(1, 1, 0, 0), Axis::X, point);
        lemma_one_term(term(1, 1, 0, 0), Axis::Y, point);
        lemma_one_term(term(1, 1, 0, 0), Axis::Z, point);
    }
}

proof fn lemma_laplace_2(m: int, point: IntegerPoint)
    requires
        is_harmonic(2, m),
    ensures
        laplacian_at(harmonic(2, m), point) == 0,
{
    broadcast use vstd::arithmetic::mul::group_mul_basics;

    lemma_low_powers(point.x);
    lemma_low_powers(point.y);
    lemma_low_powers(point.z);
    if m == -2 {
        lemma_scaled_bends(1, 1, 1, 0, (0, 0, 0), point);
        lemma_one_term(term(1, 1, 1, 0), Axis::X, point);
        lemma_one_term(term(1, 1, 1, 0), Axis::Y, point);
        lemma_one_term(term(1, 1, 1, 0), Axis::Z, point);
    } else if m == -1 {
        lemma_scaled_bends(1, 0, 1, 1, (0, 0, 0), point);
        lemma_one_term(term(1, 0, 1, 1), Axis::X, point);
        lemma_one_term(term(1, 0, 1, 1), Axis::Y, point);
        lemma_one_term(term(1, 0, 1, 1), Axis::Z, point);
    } else if m == 0 {
        lemma_scaled_bends(2, 0, 0, 2, (0, 0, 4), point);
        lemma_scaled_bends(-1, 2, 0, 0, (-2, 0, 0), point);
        lemma_scaled_bends(-1, 0, 2, 0, (0, -2, 0), point);
        lemma_three_terms(term(2, 0, 0, 2), term(-1, 2, 0, 0), term(-1, 0, 2, 0), Axis::X, point);
        lemma_three_terms(term(2, 0, 0, 2), term(-1, 2, 0, 0), term(-1, 0, 2, 0), Axis::Y, point);
        lemma_three_terms(term(2, 0, 0, 2), term(-1, 2, 0, 0), term(-1, 0, 2, 0), Axis::Z, point);
    } else if m == 1 {
        lemma_scaled_bends(1, 1, 0, 1, (0, 0, 0), point);
        lemma_one_term(term(1, 1, 0, 1), Axis::X, point);
        lemma_one_term(term(1, 1, 0, 1), Axis::Y, point);
        lemma_one_term(term(1, 1, 0, 1), Axis::Z, point);
    } else {
        lemma_scaled_bends(1, 2, 0, 0, (2, 0, 0), point);
        lemma_scaled_bends(-1, 0, 2, 0, (0, -2, 0), point);
        lemma_two_terms(term(1, 2, 0, 0), term(-1, 0, 2, 0), Axis::X, point);
        lemma_two_terms(term(1, 2, 0, 0), term(-1, 0, 2, 0), Axis::Y, point);
        lemma_two_terms(term(1, 2, 0, 0), term(-1, 0, 2, 0), Axis::Z, point);
    }
}

proof fn lemma_laplace_3(m: int, point: IntegerPoint)
    requires
        is_harmonic(3, m),
    ensures
        laplacian_at(harmonic(3, m), point) == 0,
{
    broadcast use vstd::arithmetic::mul::group_mul_basics;

    lemma_low_powers(point.x);
    lemma_low_powers(point.y);
    lemma_low_powers(point.z);
    if m == -3 {
        lemma_scaled_bends(3, 2, 1, 0, (6, 0, 0), point);
        lemma_scaled_bends(-1, 0, 3, 0, (0, -6, 0), point);
        lemma_two_terms(term(3, 2, 1, 0), term(-1, 0, 3, 0), Axis::X, point);
        lemma_two_terms(term(3, 2, 1, 0), term(-1, 0, 3, 0), Axis::Y, point);
        lemma_two_terms(term(3, 2, 1, 0), term(-1, 0, 3, 0), Axis::Z, point);
    } else if m == -2 {
        lemma_scaled_bends(1, 1, 1, 1, (0, 0, 0), point);
        lemma_one_term(term(1, 1, 1, 1), Axis::X, point);
        lemma_one_term(term(1, 1, 1, 1), Axis::Y, point);
        lemma_one_term(term(1, 1, 1, 1), Axis::Z, point);
    } else if m == -1 {
        lemma_scaled_bends(4, 0, 1, 2, (0, 0, 8), point);
        lemma_scaled_bends(-1, 2, 1, 0, (-2, 0, 0), point);
        lemma_scaled_bends(-1, 0, 3, 0, (0, -6, 0), point);
        lemma_three_terms(term(4, 0, 1, 2), term(-1, 2, 1, 0), term(-1, 0, 3, 0), Axis::X, point);
        lemma_three_terms(term(4, 0, 1, 2), term(-1, 2, 1, 0), term(-1, 0, 3, 0), Axis::Y, point);
        lemma_three_terms(term(4, 0, 1, 2), term(-1, 2, 1, 0), term(-1, 0, 3, 0), Axis::Z, point);
    } else if m == 0 {
        lemma_scaled_bends(2, 0, 0, 3, (0, 0, 12), point);
        lemma_scaled_bends(-3, 2, 0, 1, (-6, 0, 0), point);
        lemma_scaled_bends(-3, 0, 2, 1, (0, -6, 0), point);
        lemma_three_terms(term(2, 0, 0, 3), term(-3, 2, 0, 1), term(-3, 0, 2, 1), Axis::X, point);
        lemma_three_terms(term(2, 0, 0, 3), term(-3, 2, 0, 1), term(-3, 0, 2, 1), Axis::Y, point);
        lemma_three_terms(term(2, 0, 0, 3), term(-3, 2, 0, 1), term(-3, 0, 2, 1), Axis::Z, point);
    } else if m == 1 {
        lemma_scaled_bends(4, 1, 0, 2, (0, 0, 8), point);
        lemma_scaled_bends(-1, 3, 0, 0, (-6, 0, 0), point);
        lemma_scaled_bends(-1, 1, 2, 0, (0, -2, 0), point);
        lemma_three_terms(term(4, 1, 0, 2), term(-1, 3, 0, 0), term(-1, 1, 2, 0), Axis::X, point);
        lemma_three_terms(term(4, 1, 0, 2), term(-1, 3, 0, 0), term(-1, 1, 2, 0), Axis::Y, point);
        lemma_three_terms(term(4, 1, 0, 2), term(-1, 3, 0, 0), term(-1, 1, 2, 0), Axis::Z, point);
    } else if m == 2 {
        lemma_scaled_bends(1, 2, 0, 1, (2, 0, 0), point);
        lemma_scaled_bends(-1, 0, 2, 1, (0, -2, 0), point);
        lemma_two_terms(term(1, 2, 0, 1), term(-1, 0, 2, 1), Axis::X, point);
        lemma_two_terms(term(1, 2, 0, 1), term(-1, 0, 2, 1), Axis::Y, point);
        lemma_two_terms(term(1, 2, 0, 1), term(-1, 0, 2, 1), Axis::Z, point);
    } else {
        lemma_scaled_bends(1, 3, 0, 0, (6, 0, 0), point);
        lemma_scaled_bends(-3, 1, 2, 0, (0, -6, 0), point);
        lemma_two_terms(term(1, 3, 0, 0), term(-3, 1, 2, 0), Axis::X, point);
        lemma_two_terms(term(1, 3, 0, 0), term(-3, 1, 2, 0), Axis::Y, point);
        lemma_two_terms(term(1, 3, 0, 0), term(-3, 1, 2, 0), Axis::Z, point);
    }
}

/// A harmonic solves the Laplace equation: its second derivatives add up to zero at every point.
pub proof fn lemma_harmonic_solves_laplace(ell: int, m: int, point: IntegerPoint)
    requires
        is_harmonic(ell, m),
    ensures
        laplacian_at(harmonic(ell, m), point) == 0,
{
    if ell == 1 {
        lemma_laplace_1(m, point);
    } else if ell == 2 {
        lemma_laplace_2(m, point);
    } else {
        lemma_laplace_3(m, point);
    }
}

} // verus!
