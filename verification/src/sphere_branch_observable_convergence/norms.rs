//! The norms of the fields of spherical harmonics.
//!
//! Over the unit sphere the mean of the product of two monomials is the product of the moments of
//! their joint powers, divided by an odd double factorial of their joint degree.

use super::harmonics::{derivative, harmonic, is_harmonic, squared_constant, term, Axis, Monomial};
use vstd::prelude::*;

verus! {

/// The product of the odd numbers below an even power, and zero for an odd power.
pub open spec fn moment(exponent: nat) -> int
    decreases exponent,
{
    if exponent == 0 {
        1
    } else if exponent == 1 {
        0
    } else {
        (exponent - 1) * moment((exponent - 2) as nat)
    }
}

/// The moment of the product of two monomials.
pub open spec fn overlap(left: Monomial, right: Monomial) -> int {
    (left.coefficient * right.coefficient) * (moment((left.x + right.x) as nat) * (moment(
        (left.y + right.y) as nat,
    ) * moment((left.z + right.z) as nat)))
}

/// The moment of the product of a monomial and a sum.
pub open spec fn overlap_with(left: Monomial, right: Seq<Monomial>) -> int
    decreases right.len(),
{
    if right.len() == 0 {
        0
    } else {
        overlap_with(left, right.drop_last()) + overlap(left, right.last())
    }
}

/// The moment of the product of two sums.
pub open spec fn overlap_sum(left: Seq<Monomial>, right: Seq<Monomial>) -> int
    decreases left.len(),
{
    if left.len() == 0 {
        0
    } else {
        overlap_sum(left.drop_last(), right) + overlap_with(left.last(), right)
    }
}

/// The moment of the square of a sum.
pub open spec fn squared_moment(terms: Seq<Monomial>) -> int {
    overlap_sum(terms, terms)
}

/// The moment of the squared length of the gradient of a harmonic.
pub open spec fn gradient_moment(ell: int, m: int) -> int {
    squared_moment(derivative(harmonic(ell, m), Axis::X)) + squared_moment(
        derivative(harmonic(ell, m), Axis::Y),
    ) + squared_moment(derivative(harmonic(ell, m), Axis::Z))
}

/// The product of the odd numbers up to `2 ell + 1`.
pub open spec fn odd_product(ell: nat) -> int
    decreases ell,
{
    if ell == 0 {
        1
    } else {
        (2 * ell + 1) * odd_product((ell - 1) as nat)
    }
}

pub(crate) proof fn lemma_moments()
    ensures
        moment(0) == 1,
        moment(1) == 0,
        moment(2) == 1,
        moment(3) == 0,
        moment(4) == 3,
        moment(5) == 0,
        moment(6) == 15,
{
    reveal_with_fuel(moment, 5);
    assert(moment(2) == 1 * moment(0));
    assert(moment(3) == 2 * moment(1));
    assert(moment(4) == 3 * moment(2));
    assert(moment(5) == 4 * moment(3));
    assert(moment(6) == 5 * moment(4));
}

proof fn lemma_odd_products()
    ensures
        odd_product(1) == 3,
        odd_product(2) == 15,
        odd_product(3) == 105,
{
    reveal_with_fuel(odd_product, 4);
    assert(odd_product(1) == 3 * odd_product(0));
    assert(odd_product(2) == 5 * odd_product(1));
    assert(odd_product(3) == 7 * odd_product(2));
}

/// The product of a number and a small one, by the multiples of the number.
pub open spec fn small_product(left: int, right: int) -> int {
    if right == 0 {
        0
    } else if right == 1 {
        left
    } else if right == 2 {
        2 * left
    } else if right == 3 {
        3 * left
    } else if right == 4 {
        4 * left
    } else if right == 6 {
        6 * left
    } else if right == 8 {
        8 * left
    } else if right == -1 {
        -left
    } else if right == -2 {
        -2 * left
    } else if right == -3 {
        -3 * left
    } else if right == -6 {
        -6 * left
    } else {
        left * right
    }
}

proof fn lemma_small_product(left: int, right: int)
    ensures
        small_product(left, right) == left * right,
{
    assert(small_product(left, right) == left * right) by (nonlinear_arith);
}

pub(crate) proof fn lemma_overlap(
    left: (int, u32, u32, u32),
    right: (int, u32, u32, u32),
    coefficient: int,
    product: int,
)
    requires
        -20 <= left.0 <= 20,
        -20 <= right.0 <= 20,
        left.1 <= 3 && left.2 <= 3 && left.3 <= 3,
        right.1 <= 3 && right.2 <= 3 && right.3 <= 3,
        coefficient == small_product(left.0, right.0),
        product == moment((left.1 + right.1) as nat) * (moment((left.2 + right.2) as nat) * moment(
            (left.3 + right.3) as nat,
        )),
    ensures
        overlap(
            term(left.0, left.1, left.2, left.3),
            term(right.0, right.1, right.2, right.3),
        ) == coefficient * product,
{
    lemma_small_product(left.0, right.0);
}

proof fn lemma_slope(coefficient: int, x: u32, y: u32, z: u32, factors: (int, int, int))
    requires
        -4 <= coefficient <= 4,
        x <= 3,
        y <= 3,
        z <= 3,
        factors.0 == small_product(coefficient, x as int),
        factors.1 == small_product(coefficient, y as int),
        factors.2 == small_product(coefficient, z as int),
    ensures
        x > 0 ==> term(coefficient, x, y, z).slope(Axis::X) == term(
            factors.0,
            (x - 1) as u32,
            y,
            z,
        ),
        y > 0 ==> term(coefficient, x, y, z).slope(Axis::Y) == term(
            factors.1,
            x,
            (y - 1) as u32,
            z,
        ),
        z > 0 ==> term(coefficient, x, y, z).slope(Axis::Z) == term(
            factors.2,
            x,
            y,
            (z - 1) as u32,
        ),
{
    lemma_small_product(coefficient, x as int);
    lemma_small_product(coefficient, y as int);
    lemma_small_product(coefficient, z as int);
}

pub(crate) proof fn lemma_with_1(left: Monomial, a: Monomial)
    ensures
        overlap_with(left, seq![a]) == overlap(left, a),
{
    reveal_with_fuel(overlap_with, 2);
    assert(seq![a].drop_last() =~= Seq::empty());
}

pub(crate) proof fn lemma_with_2(left: Monomial, a: Monomial, b: Monomial)
    ensures
        overlap_with(left, seq![a, b]) == overlap(left, a) + overlap(left, b),
{
    assert(seq![a, b].drop_last() =~= seq![a]);
    lemma_with_1(left, a);
}

pub(crate) proof fn lemma_with_3(left: Monomial, a: Monomial, b: Monomial, c: Monomial)
    ensures
        overlap_with(left, seq![a, b, c]) == overlap(left, a) + overlap(left, b) + overlap(left, c),
{
    assert(seq![a, b, c].drop_last() =~= seq![a, b]);
    lemma_with_2(left, a, b);
}

proof fn lemma_squared_1(a: Monomial)
    ensures
        squared_moment(seq![a]) == overlap(a, a),
{
    let terms = seq![a];
    reveal_with_fuel(overlap_sum, 2);
    assert(terms.drop_last() =~= Seq::empty());
    lemma_with_1(a, a);
}

proof fn lemma_squared_2(a: Monomial, b: Monomial)
    ensures
        squared_moment(seq![a, b]) == overlap(a, a) + overlap(a, b) + overlap(b, a) + overlap(b, b),
{
    let terms = seq![a, b];
    reveal_with_fuel(overlap_sum, 3);
    assert(terms.drop_last() =~= seq![a]);
    assert(seq![a].drop_last() =~= Seq::empty());
    assert(overlap_sum(seq![a], terms) == overlap_with(a, terms));
    lemma_with_2(a, a, b);
    lemma_with_2(b, a, b);
}

proof fn lemma_squared_3(a: Monomial, b: Monomial, c: Monomial)
    ensures
        squared_moment(seq![a, b, c]) == overlap(a, a) + overlap(a, b) + overlap(a, c) + overlap(
            b,
            a,
        ) + overlap(b, b) + overlap(b, c) + overlap(c, a) + overlap(c, b) + overlap(c, c),
{
    let terms = seq![a, b, c];
    reveal_with_fuel(overlap_sum, 4);
    assert(terms.drop_last() =~= seq![a, b]);
    assert(seq![a, b].drop_last() =~= seq![a]);
    assert(seq![a].drop_last() =~= Seq::empty());
    assert(overlap_sum(seq![a], terms) == overlap_with(a, terms));
    assert(overlap_sum(seq![a, b], terms) == overlap_with(a, terms) + overlap_with(b, terms));
    lemma_with_3(a, a, b, c);
    lemma_with_3(b, a, b, c);
    lemma_with_3(c, a, b, c);
}

proof fn lemma_derivative_of_1(a: Monomial, axis: Axis)
    ensures
        derivative(seq![a], axis) == slopes_of(a, axis),
{
    reveal_with_fuel(derivative, 2);
    assert(seq![a].drop_last() =~= Seq::empty());
    assert(derivative(seq![a], axis) =~= slopes_of(a, axis));
}

proof fn lemma_derivative_of_2(a: Monomial, b: Monomial, axis: Axis)
    ensures
        derivative(seq![a, b], axis) == slopes_of(a, axis) + slopes_of(b, axis),
{
    assert(seq![a, b].drop_last() =~= seq![a]);
    lemma_derivative_of_1(a, axis);
    assert(derivative(seq![a, b], axis) =~= slopes_of(a, axis) + slopes_of(b, axis));
}

proof fn lemma_derivative_of_3(a: Monomial, b: Monomial, c: Monomial, axis: Axis)
    ensures
        derivative(seq![a, b, c], axis) == slopes_of(a, axis) + slopes_of(b, axis) + slopes_of(
            c,
            axis,
        ),
{
    assert(seq![a, b, c].drop_last() =~= seq![a, b]);
    lemma_derivative_of_2(a, b, axis);
    assert(derivative(seq![a, b, c], axis) =~= slopes_of(a, axis) + slopes_of(b, axis)
        + slopes_of(c, axis));
}

/// The derivative of one monomial, as a sum of at most one.
pub open spec fn slopes_of(monomial: Monomial, axis: Axis) -> Seq<Monomial> {
    if monomial.exponent(axis) > 0 {
        seq![monomial.slope(axis)]
    } else {
        Seq::empty()
    }
}

proof fn lemma_moments_1_minus_1()
    ensures
        squared_moment(harmonic(1, -1)) == 1,
        gradient_moment(1, -1) == 1,
{
    broadcast use vstd::arithmetic::mul::group_mul_basics;

    lemma_moments();
    lemma_overlap((1, 0, 1, 0), (1, 0, 1, 0), 1, 1);
    lemma_squared_1(term(1, 0, 1, 0));
    lemma_slope(1, 0, 1, 0, (0, 1, 0));
    lemma_derivative_of_1(term(1, 0, 1, 0), Axis::X);
    assert(derivative(harmonic(1, -1), Axis::X) =~= Seq::empty());
    lemma_derivative_of_1(term(1, 0, 1, 0), Axis::Y);
    assert(derivative(harmonic(1, -1), Axis::Y) =~= seq![term(1, 0, 0, 0)]);
    lemma_overlap((1, 0, 0, 0), (1, 0, 0, 0), 1, 1);
    lemma_squared_1(term(1, 0, 0, 0));
    lemma_derivative_of_1(term(1, 0, 1, 0), Axis::Z);
    assert(derivative(harmonic(1, -1), Axis::Z) =~= Seq::empty());
}

proof fn lemma_moments_1_0()
    ensures
        squared_moment(harmonic(1, 0)) == 1,
        gradient_moment(1, 0) == 1,
{
    broadcast use vstd::arithmetic::mul::group_mul_basics;

    lemma_moments();
    lemma_overlap((1, 0, 0, 1), (1, 0, 0, 1), 1, 1);
    lemma_squared_1(term(1, 0, 0, 1));
    lemma_slope(1, 0, 0, 1, (0, 0, 1));
    lemma_derivative_of_1(term(1, 0, 0, 1), Axis::X);
    assert(derivative(harmonic(1, 0), Axis::X) =~= Seq::empty());
    lemma_derivative_of_1(term(1, 0, 0, 1), Axis::Y);
    assert(derivative(harmonic(1, 0), Axis::Y) =~= Seq::empty());
    lemma_derivative_of_1(term(1, 0, 0, 1), Axis::Z);
    assert(derivative(harmonic(1, 0), Axis::Z) =~= seq![term(1, 0, 0, 0)]);
    lemma_overlap((1, 0, 0, 0), (1, 0, 0, 0), 1, 1);
    lemma_squared_1(term(1, 0, 0, 0));
}

proof fn lemma_moments_1_1()
    ensures
        squared_moment(harmonic(1, 1)) == 1,
        gradient_moment(1, 1) == 1,
{
    broadcast use vstd::arithmetic::mul::group_mul_basics;

    lemma_moments();
    lemma_overlap((1, 1, 0, 0), (1, 1, 0, 0), 1, 1);
    lemma_squared_1(term(1, 1, 0, 0));
    lemma_slope(1, 1, 0, 0, (1, 0, 0));
    lemma_derivative_of_1(term(1, 1, 0, 0), Axis::X);
    assert(derivative(harmonic(1, 1), Axis::X) =~= seq![term(1, 0, 0, 0)]);
    lemma_overlap((1, 0, 0, 0), (1, 0, 0, 0), 1, 1);
    lemma_squared_1(term(1, 0, 0, 0));
    lemma_derivative_of_1(term(1, 1, 0, 0), Axis::Y);
    assert(derivative(harmonic(1, 1), Axis::Y) =~= Seq::empty());
    lemma_derivative_of_1(term(1, 1, 0, 0), Axis::Z);
    assert(derivative(harmonic(1, 1), Axis::Z) =~= Seq::empty());
}

proof fn lemma_moments_2_minus_2()
    ensures
        squared_moment(harmonic(2, -2)) == 1,
        gradient_moment(2, -2) == 2,
{
    broadcast use vstd::arithmetic::mul::group_mul_basics;

    lemma_moments();
    lemma_overlap((1, 1, 1, 0), (1, 1, 1, 0), 1, 1);
    lemma_squared_1(term(1, 1, 1, 0));
    lemma_slope(1, 1, 1, 0, (1, 1, 0));
    lemma_derivative_of_1(term(1, 1, 1, 0), Axis::X);
    assert(derivative(harmonic(2, -2), Axis::X) =~= seq![term(1, 0, 1, 0)]);
    lemma_overlap((1, 0, 1, 0), (1, 0, 1, 0), 1, 1);
    lemma_squared_1(term(1, 0, 1, 0));
    lemma_derivative_of_1(term(1, 1, 1, 0), Axis::Y);
    assert(derivative(harmonic(2, -2), Axis::Y) =~= seq![term(1, 1, 0, 0)]);
    lemma_overlap((1, 1, 0, 0), (1, 1, 0, 0), 1, 1);
    lemma_squared_1(term(1, 1, 0, 0));
    lemma_derivative_of_1(term(1, 1, 1, 0), Axis::Z);
    assert(derivative(harmonic(2, -2), Axis::Z) =~= Seq::empty());
}

proof fn lemma_moments_2_minus_1()
    ensures
        squared_moment(harmonic(2, -1)) == 1,
        gradient_moment(2, -1) == 2,
{
    broadcast use vstd::arithmetic::mul::group_mul_basics;

    lemma_moments();
    lemma_overlap((1, 0, 1, 1), (1, 0, 1, 1), 1, 1);
    lemma_squared_1(term(1, 0, 1, 1));
    lemma_slope(1, 0, 1, 1, (0, 1, 1));
    lemma_derivative_of_1(term(1, 0, 1, 1), Axis::X);
    assert(derivative(harmonic(2, -1), Axis::X) =~= Seq::empty());
    lemma_derivative_of_1(term(1, 0, 1, 1), Axis::Y);
    assert(derivative(harmonic(2, -1), Axis::Y) =~= seq![term(1, 0, 0, 1)]);
    lemma_overlap((1, 0, 0, 1), (1, 0, 0, 1), 1, 1);
    lemma_squared_1(term(1, 0, 0, 1));
    lemma_derivative_of_1(term(1, 0, 1, 1), Axis::Z);
    assert(derivative(harmonic(2, -1), Axis::Z) =~= seq![term(1, 0, 1, 0)]);
    lemma_overlap((1, 0, 1, 0), (1, 0, 1, 0), 1, 1);
    lemma_squared_1(term(1, 0, 1, 0));
}

proof fn lemma_moments_2_0()
    ensures
        squared_moment(harmonic(2, 0)) == 12,
        gradient_moment(2, 0) == 24,
{
    broadcast use vstd::arithmetic::mul::group_mul_basics;

    lemma_moments();
    lemma_overlap((2, 0, 0, 2), (2, 0, 0, 2), 4, 3);
    lemma_overlap((2, 0, 0, 2), (-1, 2, 0, 0), -2, 1);
    lemma_overlap((2, 0, 0, 2), (-1, 0, 2, 0), -2, 1);
    lemma_overlap((-1, 2, 0, 0), (2, 0, 0, 2), -2, 1);
    lemma_overlap((-1, 2, 0, 0), (-1, 2, 0, 0), 1, 3);
    lemma_overlap((-1, 2, 0, 0), (-1, 0, 2, 0), 1, 1);
    lemma_overlap((-1, 0, 2, 0), (2, 0, 0, 2), -2, 1);
    lemma_overlap((-1, 0, 2, 0), (-1, 2, 0, 0), 1, 1);
    lemma_overlap((-1, 0, 2, 0), (-1, 0, 2, 0), 1, 3);
    lemma_squared_3(term(2, 0, 0, 2), term(-1, 2, 0, 0), term(-1, 0, 2, 0));
    lemma_slope(2, 0, 0, 2, (0, 0, 4));
    lemma_slope(-1, 2, 0, 0, (-2, 0, 0));
    lemma_slope(-1, 0, 2, 0, (0, -2, 0));
    lemma_derivative_of_3(term(2, 0, 0, 2), term(-1, 2, 0, 0), term(-1, 0, 2, 0), Axis::X);
    assert(derivative(harmonic(2, 0), Axis::X) =~= seq![term(-2, 1, 0, 0)]);
    lemma_overlap((-2, 1, 0, 0), (-2, 1, 0, 0), 4, 1);
    lemma_squared_1(term(-2, 1, 0, 0));
    lemma_derivative_of_3(term(2, 0, 0, 2), term(-1, 2, 0, 0), term(-1, 0, 2, 0), Axis::Y);
    assert(derivative(harmonic(2, 0), Axis::Y) =~= seq![term(-2, 0, 1, 0)]);
    lemma_overlap((-2, 0, 1, 0), (-2, 0, 1, 0), 4, 1);
    lemma_squared_1(term(-2, 0, 1, 0));
    lemma_derivative_of_3(term(2, 0, 0, 2), term(-1, 2, 0, 0), term(-1, 0, 2, 0), Axis::Z);
    assert(derivative(harmonic(2, 0), Axis::Z) =~= seq![term(4, 0, 0, 1)]);
    lemma_overlap((4, 0, 0, 1), (4, 0, 0, 1), 16, 1);
    lemma_squared_1(term(4, 0, 0, 1));
}

proof fn lemma_moments_2_1()
    ensures
        squared_moment(harmonic(2, 1)) == 1,
        gradient_moment(2, 1) == 2,
{
    broadcast use vstd::arithmetic::mul::group_mul_basics;

    lemma_moments();
    lemma_overlap((1, 1, 0, 1), (1, 1, 0, 1), 1, 1);
    lemma_squared_1(term(1, 1, 0, 1));
    lemma_slope(1, 1, 0, 1, (1, 0, 1));
    lemma_derivative_of_1(term(1, 1, 0, 1), Axis::X);
    assert(derivative(harmonic(2, 1), Axis::X) =~= seq![term(1, 0, 0, 1)]);
    lemma_overlap((1, 0, 0, 1), (1, 0, 0, 1), 1, 1);
    lemma_squared_1(term(1, 0, 0, 1));
    lemma_derivative_of_1(term(1, 1, 0, 1), Axis::Y);
    assert(derivative(harmonic(2, 1), Axis::Y) =~= Seq::empty());
    lemma_derivative_of_1(term(1, 1, 0, 1), Axis::Z);
    assert(derivative(harmonic(2, 1), Axis::Z) =~= seq![term(1, 1, 0, 0)]);
    lemma_overlap((1, 1, 0, 0), (1, 1, 0, 0), 1, 1);
    lemma_squared_1(term(1, 1, 0, 0));
}

proof fn lemma_moments_2_2()
    ensures
        squared_moment(harmonic(2, 2)) == 4,
        gradient_moment(2, 2) == 8,
{
    broadcast use vstd::arithmetic::mul::group_mul_basics;

    lemma_moments();
    lemma_overlap((1, 2, 0, 0), (1, 2, 0, 0), 1, 3);
    lemma_overlap((1, 2, 0, 0), (-1, 0, 2, 0), -1, 1);
    lemma_overlap((-1, 0, 2, 0), (1, 2, 0, 0), -1, 1);
    lemma_overlap((-1, 0, 2, 0), (-1, 0, 2, 0), 1, 3);
    lemma_squared_2(term(1, 2, 0, 0), term(-1, 0, 2, 0));
    lemma_slope(1, 2, 0, 0, (2, 0, 0));
    lemma_slope(-1, 0, 2, 0, (0, -2, 0));
    lemma_derivative_of_2(term(1, 2, 0, 0), term(-1, 0, 2, 0), Axis::X);
    assert(derivative(harmonic(2, 2), Axis::X) =~= seq![term(2, 1, 0, 0)]);
    lemma_overlap((2, 1, 0, 0), (2, 1, 0, 0), 4, 1);
    lemma_squared_1(term(2, 1, 0, 0));
    lemma_derivative_of_2(term(1, 2, 0, 0), term(-1, 0, 2, 0), Axis::Y);
    assert(derivative(harmonic(2, 2), Axis::Y) =~= seq![term(-2, 0, 1, 0)]);
    lemma_overlap((-2, 0, 1, 0), (-2, 0, 1, 0), 4, 1);
    lemma_squared_1(term(-2, 0, 1, 0));
    lemma_derivative_of_2(term(1, 2, 0, 0), term(-1, 0, 2, 0), Axis::Z);
    assert(derivative(harmonic(2, 2), Axis::Z) =~= Seq::empty());
}

proof fn lemma_moments_3_minus_3()
    ensures
        squared_moment(harmonic(3, -3)) == 24,
        gradient_moment(3, -3) == 72,
{
    broadcast use vstd::arithmetic::mul::group_mul_basics;

    lemma_moments();
    lemma_overlap((3, 2, 1, 0), (3, 2, 1, 0), 9, 3);
    lemma_overlap((3, 2, 1, 0), (-1, 0, 3, 0), -3, 3);
    lemma_overlap((-1, 0, 3, 0), (3, 2, 1, 0), -3, 3);
    lemma_overlap((-1, 0, 3, 0), (-1, 0, 3, 0), 1, 15);
    lemma_squared_2(term(3, 2, 1, 0), term(-1, 0, 3, 0));
    lemma_slope(3, 2, 1, 0, (6, 3, 0));
    lemma_slope(-1, 0, 3, 0, (0, -3, 0));
    lemma_derivative_of_2(term(3, 2, 1, 0), term(-1, 0, 3, 0), Axis::X);
    assert(derivative(harmonic(3, -3), Axis::X) =~= seq![term(6, 1, 1, 0)]);
    lemma_overlap((6, 1, 1, 0), (6, 1, 1, 0), 36, 1);
    lemma_squared_1(term(6, 1, 1, 0));
    lemma_derivative_of_2(term(3, 2, 1, 0), term(-1, 0, 3, 0), Axis::Y);
    assert(derivative(harmonic(3, -3), Axis::Y) =~= seq![term(3, 2, 0, 0), term(-3, 0, 2, 0)]);
    lemma_overlap((3, 2, 0, 0), (3, 2, 0, 0), 9, 3);
    lemma_overlap((3, 2, 0, 0), (-3, 0, 2, 0), -9, 1);
    lemma_overlap((-3, 0, 2, 0), (3, 2, 0, 0), -9, 1);
    lemma_overlap((-3, 0, 2, 0), (-3, 0, 2, 0), 9, 3);
    lemma_squared_2(term(3, 2, 0, 0), term(-3, 0, 2, 0));
    lemma_derivative_of_2(term(3, 2, 1, 0), term(-1, 0, 3, 0), Axis::Z);
    assert(derivative(harmonic(3, -3), Axis::Z) =~= Seq::empty());
}

proof fn lemma_moments_3_minus_2()
    ensures
        squared_moment(harmonic(3, -2)) == 1,
        gradient_moment(3, -2) == 3,
{
    broadcast use vstd::arithmetic::mul::group_mul_basics;

    lemma_moments();
    lemma_overlap((1, 1, 1, 1), (1, 1, 1, 1), 1, 1);
    lemma_squared_1(term(1, 1, 1, 1));
    lemma_slope(1, 1, 1, 1, (1, 1, 1));
    lemma_derivative_of_1(term(1, 1, 1, 1), Axis::X);
    assert(derivative(harmonic(3, -2), Axis::X) =~= seq![term(1, 0, 1, 1)]);
    lemma_overlap((1, 0, 1, 1), (1, 0, 1, 1), 1, 1);
    lemma_squared_1(term(1, 0, 1, 1));
    lemma_derivative_of_1(term(1, 1, 1, 1), Axis::Y);
    assert(derivative(harmonic(3, -2), Axis::Y) =~= seq![term(1, 1, 0, 1)]);
    lemma_overlap((1, 1, 0, 1), (1, 1, 0, 1), 1, 1);
    lemma_squared_1(term(1, 1, 0, 1));
    lemma_derivative_of_1(term(1, 1, 1, 1), Axis::Z);
    assert(derivative(harmonic(3, -2), Axis::Z) =~= seq![term(1, 1, 1, 0)]);
    lemma_overlap((1, 1, 1, 0), (1, 1, 1, 0), 1, 1);
    lemma_squared_1(term(1, 1, 1, 0));
}

proof fn lemma_moments_3_minus_1()
    ensures
        squared_moment(harmonic(3, -1)) == 40,
        gradient_moment(3, -1) == 120,
{
    broadcast use vstd::arithmetic::mul::group_mul_basics;

    lemma_moments();
    lemma_overlap((4, 0, 1, 2), (4, 0, 1, 2), 16, 3);
    lemma_overlap((4, 0, 1, 2), (-1, 2, 1, 0), -4, 1);
    lemma_overlap((4, 0, 1, 2), (-1, 0, 3, 0), -4, 3);
    lemma_overlap((-1, 2, 1, 0), (4, 0, 1, 2), -4, 1);
    lemma_overlap((-1, 2, 1, 0), (-1, 2, 1, 0), 1, 3);
    lemma_overlap((-1, 2, 1, 0), (-1, 0, 3, 0), 1, 3);
    lemma_overlap((-1, 0, 3, 0), (4, 0, 1, 2), -4, 3);
    lemma_overlap((-1, 0, 3, 0), (-1, 2, 1, 0), 1, 3);
    lemma_overlap((-1, 0, 3, 0), (-1, 0, 3, 0), 1, 15);
    lemma_squared_3(term(4, 0, 1, 2), term(-1, 2, 1, 0), term(-1, 0, 3, 0));
    lemma_slope(4, 0, 1, 2, (0, 4, 8));
    lemma_slope(-1, 2, 1, 0, (-2, -1, 0));
    lemma_slope(-1, 0, 3, 0, (0, -3, 0));
    lemma_derivative_of_3(term(4, 0, 1, 2), term(-1, 2, 1, 0), term(-1, 0, 3, 0), Axis::X);
    assert(derivative(harmonic(3, -1), Axis::X) =~= seq![term(-2, 1, 1, 0)]);
    lemma_overlap((-2, 1, 1, 0), (-2, 1, 1, 0), 4, 1);
    lemma_squared_1(term(-2, 1, 1, 0));
    lemma_derivative_of_3(term(4, 0, 1, 2), term(-1, 2, 1, 0), term(-1, 0, 3, 0), Axis::Y);
    assert(derivative(harmonic(3, -1), Axis::Y) =~= seq![
        term(4, 0, 0, 2),
        term(-1, 2, 0, 0),
        term(-3, 0, 2, 0),
    ]);
    lemma_overlap((4, 0, 0, 2), (4, 0, 0, 2), 16, 3);
    lemma_overlap((4, 0, 0, 2), (-1, 2, 0, 0), -4, 1);
    lemma_overlap((4, 0, 0, 2), (-3, 0, 2, 0), -12, 1);
    lemma_overlap((-1, 2, 0, 0), (4, 0, 0, 2), -4, 1);
    lemma_overlap((-1, 2, 0, 0), (-1, 2, 0, 0), 1, 3);
    lemma_overlap((-1, 2, 0, 0), (-3, 0, 2, 0), 3, 1);
    lemma_overlap((-3, 0, 2, 0), (4, 0, 0, 2), -12, 1);
    lemma_overlap((-3, 0, 2, 0), (-1, 2, 0, 0), 3, 1);
    lemma_overlap((-3, 0, 2, 0), (-3, 0, 2, 0), 9, 3);
    lemma_squared_3(term(4, 0, 0, 2), term(-1, 2, 0, 0), term(-3, 0, 2, 0));
    lemma_derivative_of_3(term(4, 0, 1, 2), term(-1, 2, 1, 0), term(-1, 0, 3, 0), Axis::Z);
    assert(derivative(harmonic(3, -1), Axis::Z) =~= seq![term(8, 0, 1, 1)]);
    lemma_overlap((8, 0, 1, 1), (8, 0, 1, 1), 64, 1);
    lemma_squared_1(term(8, 0, 1, 1));
}

proof fn lemma_moments_3_0()
    ensures
        squared_moment(harmonic(3, 0)) == 60,
        gradient_moment(3, 0) == 180,
{
    broadcast use vstd::arithmetic::mul::group_mul_basics;

    lemma_moments();
    lemma_overlap((2, 0, 0, 3), (2, 0, 0, 3), 4, 15);
    lemma_overlap((2, 0, 0, 3), (-3, 2, 0, 1), -6, 3);
    lemma_overlap((2, 0, 0, 3), (-3, 0, 2, 1), -6, 3);
    lemma_overlap((-3, 2, 0, 1), (2, 0, 0, 3), -6, 3);
    lemma_overlap((-3, 2, 0, 1), (-3, 2, 0, 1), 9, 3);
    lemma_overlap((-3, 2, 0, 1), (-3, 0, 2, 1), 9, 1);
    lemma_overlap((-3, 0, 2, 1), (2, 0, 0, 3), -6, 3);
    lemma_overlap((-3, 0, 2, 1), (-3, 2, 0, 1), 9, 1);
    lemma_overlap((-3, 0, 2, 1), (-3, 0, 2, 1), 9, 3);
    lemma_squared_3(term(2, 0, 0, 3), term(-3, 2, 0, 1), term(-3, 0, 2, 1));
    lemma_slope(2, 0, 0, 3, (0, 0, 6));
    lemma_slope(-3, 2, 0, 1, (-6, 0, -3));
    lemma_slope(-3, 0, 2, 1, (0, -6, -3));
    lemma_derivative_of_3(term(2, 0, 0, 3), term(-3, 2, 0, 1), term(-3, 0, 2, 1), Axis::X);
    assert(derivative(harmonic(3, 0), Axis::X) =~= seq![term(-6, 1, 0, 1)]);
    lemma_overlap((-6, 1, 0, 1), (-6, 1, 0, 1), 36, 1);
    lemma_squared_1(term(-6, 1, 0, 1));
    lemma_derivative_of_3(term(2, 0, 0, 3), term(-3, 2, 0, 1), term(-3, 0, 2, 1), Axis::Y);
    assert(derivative(harmonic(3, 0), Axis::Y) =~= seq![term(-6, 0, 1, 1)]);
    lemma_overlap((-6, 0, 1, 1), (-6, 0, 1, 1), 36, 1);
    lemma_squared_1(term(-6, 0, 1, 1));
    lemma_derivative_of_3(term(2, 0, 0, 3), term(-3, 2, 0, 1), term(-3, 0, 2, 1), Axis::Z);
    assert(derivative(harmonic(3, 0), Axis::Z) =~= seq![
        term(6, 0, 0, 2),
        term(-3, 2, 0, 0),
        term(-3, 0, 2, 0),
    ]);
    lemma_overlap((6, 0, 0, 2), (6, 0, 0, 2), 36, 3);
    lemma_overlap((6, 0, 0, 2), (-3, 2, 0, 0), -18, 1);
    lemma_overlap((6, 0, 0, 2), (-3, 0, 2, 0), -18, 1);
    lemma_overlap((-3, 2, 0, 0), (6, 0, 0, 2), -18, 1);
    lemma_overlap((-3, 2, 0, 0), (-3, 2, 0, 0), 9, 3);
    lemma_overlap((-3, 2, 0, 0), (-3, 0, 2, 0), 9, 1);
    lemma_overlap((-3, 0, 2, 0), (6, 0, 0, 2), -18, 1);
    lemma_overlap((-3, 0, 2, 0), (-3, 2, 0, 0), 9, 1);
    lemma_overlap((-3, 0, 2, 0), (-3, 0, 2, 0), 9, 3);
    lemma_squared_3(term(6, 0, 0, 2), term(-3, 2, 0, 0), term(-3, 0, 2, 0));
}

proof fn lemma_moments_3_1()
    ensures
        squared_moment(harmonic(3, 1)) == 40,
        gradient_moment(3, 1) == 120,
{
    broadcast use vstd::arithmetic::mul::group_mul_basics;

    lemma_moments();
    lemma_overlap((4, 1, 0, 2), (4, 1, 0, 2), 16, 3);
    lemma_overlap((4, 1, 0, 2), (-1, 3, 0, 0), -4, 3);
    lemma_overlap((4, 1, 0, 2), (-1, 1, 2, 0), -4, 1);
    lemma_overlap((-1, 3, 0, 0), (4, 1, 0, 2), -4, 3);
    lemma_overlap((-1, 3, 0, 0), (-1, 3, 0, 0), 1, 15);
    lemma_overlap((-1, 3, 0, 0), (-1, 1, 2, 0), 1, 3);
    lemma_overlap((-1, 1, 2, 0), (4, 1, 0, 2), -4, 1);
    lemma_overlap((-1, 1, 2, 0), (-1, 3, 0, 0), 1, 3);
    lemma_overlap((-1, 1, 2, 0), (-1, 1, 2, 0), 1, 3);
    lemma_squared_3(term(4, 1, 0, 2), term(-1, 3, 0, 0), term(-1, 1, 2, 0));
    lemma_slope(4, 1, 0, 2, (4, 0, 8));
    lemma_slope(-1, 3, 0, 0, (-3, 0, 0));
    lemma_slope(-1, 1, 2, 0, (-1, -2, 0));
    lemma_derivative_of_3(term(4, 1, 0, 2), term(-1, 3, 0, 0), term(-1, 1, 2, 0), Axis::X);
    assert(derivative(harmonic(3, 1), Axis::X) =~= seq![
        term(4, 0, 0, 2),
        term(-3, 2, 0, 0),
        term(-1, 0, 2, 0),
    ]);
    lemma_overlap((4, 0, 0, 2), (4, 0, 0, 2), 16, 3);
    lemma_overlap((4, 0, 0, 2), (-3, 2, 0, 0), -12, 1);
    lemma_overlap((4, 0, 0, 2), (-1, 0, 2, 0), -4, 1);
    lemma_overlap((-3, 2, 0, 0), (4, 0, 0, 2), -12, 1);
    lemma_overlap((-3, 2, 0, 0), (-3, 2, 0, 0), 9, 3);
    lemma_overlap((-3, 2, 0, 0), (-1, 0, 2, 0), 3, 1);
    lemma_overlap((-1, 0, 2, 0), (4, 0, 0, 2), -4, 1);
    lemma_overlap((-1, 0, 2, 0), (-3, 2, 0, 0), 3, 1);
    lemma_overlap((-1, 0, 2, 0), (-1, 0, 2, 0), 1, 3);
    lemma_squared_3(term(4, 0, 0, 2), term(-3, 2, 0, 0), term(-1, 0, 2, 0));
    lemma_derivative_of_3(term(4, 1, 0, 2), term(-1, 3, 0, 0), term(-1, 1, 2, 0), Axis::Y);
    assert(derivative(harmonic(3, 1), Axis::Y) =~= seq![term(-2, 1, 1, 0)]);
    lemma_overlap((-2, 1, 1, 0), (-2, 1, 1, 0), 4, 1);
    lemma_squared_1(term(-2, 1, 1, 0));
    lemma_derivative_of_3(term(4, 1, 0, 2), term(-1, 3, 0, 0), term(-1, 1, 2, 0), Axis::Z);
    assert(derivative(harmonic(3, 1), Axis::Z) =~= seq![term(8, 1, 0, 1)]);
    lemma_overlap((8, 1, 0, 1), (8, 1, 0, 1), 64, 1);
    lemma_squared_1(term(8, 1, 0, 1));
}

proof fn lemma_moments_3_2()
    ensures
        squared_moment(harmonic(3, 2)) == 4,
        gradient_moment(3, 2) == 12,
{
    broadcast use vstd::arithmetic::mul::group_mul_basics;

    lemma_moments();
    lemma_overlap((1, 2, 0, 1), (1, 2, 0, 1), 1, 3);
    lemma_overlap((1, 2, 0, 1), (-1, 0, 2, 1), -1, 1);
    lemma_overlap((-1, 0, 2, 1), (1, 2, 0, 1), -1, 1);
    lemma_overlap((-1, 0, 2, 1), (-1, 0, 2, 1), 1, 3);
    lemma_squared_2(term(1, 2, 0, 1), term(-1, 0, 2, 1));
    lemma_slope(1, 2, 0, 1, (2, 0, 1));
    lemma_slope(-1, 0, 2, 1, (0, -2, -1));
    lemma_derivative_of_2(term(1, 2, 0, 1), term(-1, 0, 2, 1), Axis::X);
    assert(derivative(harmonic(3, 2), Axis::X) =~= seq![term(2, 1, 0, 1)]);
    lemma_overlap((2, 1, 0, 1), (2, 1, 0, 1), 4, 1);
    lemma_squared_1(term(2, 1, 0, 1));
    lemma_derivative_of_2(term(1, 2, 0, 1), term(-1, 0, 2, 1), Axis::Y);
    assert(derivative(harmonic(3, 2), Axis::Y) =~= seq![term(-2, 0, 1, 1)]);
    lemma_overlap((-2, 0, 1, 1), (-2, 0, 1, 1), 4, 1);
    lemma_squared_1(term(-2, 0, 1, 1));
    lemma_derivative_of_2(term(1, 2, 0, 1), term(-1, 0, 2, 1), Axis::Z);
    assert(derivative(harmonic(3, 2), Axis::Z) =~= seq![term(1, 2, 0, 0), term(-1, 0, 2, 0)]);
    lemma_overlap((1, 2, 0, 0), (1, 2, 0, 0), 1, 3);
    lemma_overlap((1, 2, 0, 0), (-1, 0, 2, 0), -1, 1);
    lemma_overlap((-1, 0, 2, 0), (1, 2, 0, 0), -1, 1);
    lemma_overlap((-1, 0, 2, 0), (-1, 0, 2, 0), 1, 3);
    lemma_squared_2(term(1, 2, 0, 0), term(-1, 0, 2, 0));
}

proof fn lemma_moments_3_3()
    ensures
        squared_moment(harmonic(3, 3)) == 24,
        gradient_moment(3, 3) == 72,
{
    broadcast use vstd::arithmetic::mul::group_mul_basics;

    lemma_moments();
    lemma_overlap((1, 3, 0, 0), (1, 3, 0, 0), 1, 15);
    lemma_overlap((1, 3, 0, 0), (-3, 1, 2, 0), -3, 3);
    lemma_overlap((-3, 1, 2, 0), (1, 3, 0, 0), -3, 3);
    lemma_overlap((-3, 1, 2, 0), (-3, 1, 2, 0), 9, 3);
    lemma_squared_2(term(1, 3, 0, 0), term(-3, 1, 2, 0));
    lemma_slope(1, 3, 0, 0, (3, 0, 0));
    lemma_slope(-3, 1, 2, 0, (-3, -6, 0));
    lemma_derivative_of_2(term(1, 3, 0, 0), term(-3, 1, 2, 0), Axis::X);
    assert(derivative(harmonic(3, 3), Axis::X) =~= seq![term(3, 2, 0, 0), term(-3, 0, 2, 0)]);
    lemma_overlap((3, 2, 0, 0), (3, 2, 0, 0), 9, 3);
    lemma_overlap((3, 2, 0, 0), (-3, 0, 2, 0), -9, 1);
    lemma_overlap((-3, 0, 2, 0), (3, 2, 0, 0), -9, 1);
    lemma_overlap((-3, 0, 2, 0), (-3, 0, 2, 0), 9, 3);
    lemma_squared_2(term(3, 2, 0, 0), term(-3, 0, 2, 0));
    lemma_derivative_of_2(term(1, 3, 0, 0), term(-3, 1, 2, 0), Axis::Y);
    assert(derivative(harmonic(3, 3), Axis::Y) =~= seq![term(-6, 1, 1, 0)]);
    lemma_overlap((-6, 1, 1, 0), (-6, 1, 1, 0), 36, 1);
    lemma_squared_1(term(-6, 1, 1, 0));
    lemma_derivative_of_2(term(1, 3, 0, 0), term(-3, 1, 2, 0), Axis::Z);
    assert(derivative(harmonic(3, 3), Axis::Z) =~= Seq::empty());
}

/// The field of every harmonic has unit norm: the integral over the unit sphere of the squared
/// length of its surface gradient is `ell (ell + 1)`. The squared length is that of the gradient
/// less the square of `ell` times the value, and the integral is the mean times the area; the
/// equation is multiplied by the denominators, and pi cancels.
pub proof fn lemma_unit_norm(ell: int, m: int)
    requires
        is_harmonic(ell, m),
    ensures
        4 * squared_constant(ell, m).0 * ((2 * ell + 1) * gradient_moment(ell, m) - ell * ell
            * squared_moment(harmonic(ell, m))) == ell * (ell + 1) * squared_constant(ell, m).1
            * odd_product(ell as nat),
{
    lemma_odd_products();
    let (a, b) = squared_constant(ell, m);
    let (g, s) = (gradient_moment(ell, m), squared_moment(harmonic(ell, m)));
    let o = odd_product(ell as nat);
    if ell == 1 && m == -1 {
        lemma_moments_1_minus_1();
        assert(4 * a * ((2 * ell + 1) * g - ell * ell * s) == ell * (ell + 1) * b * o)
            by (nonlinear_arith)
            requires
                ell == 1 && a == 3 && b == 4 && g == 1 && s == 1 && o == 3,
        ;
    } else if ell == 1 && m == 0 {
        lemma_moments_1_0();
        assert(4 * a * ((2 * ell + 1) * g - ell * ell * s) == ell * (ell + 1) * b * o)
            by (nonlinear_arith)
            requires
                ell == 1 && a == 3 && b == 4 && g == 1 && s == 1 && o == 3,
        ;
    } else if ell == 1 && m == 1 {
        lemma_moments_1_1();
        assert(4 * a * ((2 * ell + 1) * g - ell * ell * s) == ell * (ell + 1) * b * o)
            by (nonlinear_arith)
            requires
                ell == 1 && a == 3 && b == 4 && g == 1 && s == 1 && o == 3,
        ;
    } else if ell == 2 && m == -2 {
        lemma_moments_2_minus_2();
        assert(4 * a * ((2 * ell + 1) * g - ell * ell * s) == ell * (ell + 1) * b * o)
            by (nonlinear_arith)
            requires
                ell == 2 && a == 15 && b == 4 && g == 2 && s == 1 && o == 15,
        ;
    } else if ell == 2 && m == -1 {
        lemma_moments_2_minus_1();
        assert(4 * a * ((2 * ell + 1) * g - ell * ell * s) == ell * (ell + 1) * b * o)
            by (nonlinear_arith)
            requires
                ell == 2 && a == 15 && b == 4 && g == 2 && s == 1 && o == 15,
        ;
    } else if ell == 2 && m == 0 {
        lemma_moments_2_0();
        assert(4 * a * ((2 * ell + 1) * g - ell * ell * s) == ell * (ell + 1) * b * o)
            by (nonlinear_arith)
            requires
                ell == 2 && a == 5 && b == 16 && g == 24 && s == 12 && o == 15,
        ;
    } else if ell == 2 && m == 1 {
        lemma_moments_2_1();
        assert(4 * a * ((2 * ell + 1) * g - ell * ell * s) == ell * (ell + 1) * b * o)
            by (nonlinear_arith)
            requires
                ell == 2 && a == 15 && b == 4 && g == 2 && s == 1 && o == 15,
        ;
    } else if ell == 2 && m == 2 {
        lemma_moments_2_2();
        assert(4 * a * ((2 * ell + 1) * g - ell * ell * s) == ell * (ell + 1) * b * o)
            by (nonlinear_arith)
            requires
                ell == 2 && a == 15 && b == 16 && g == 8 && s == 4 && o == 15,
        ;
    } else if ell == 3 && m == -3 {
        lemma_moments_3_minus_3();
        assert(4 * a * ((2 * ell + 1) * g - ell * ell * s) == ell * (ell + 1) * b * o)
            by (nonlinear_arith)
            requires
                ell == 3 && a == 35 && b == 32 && g == 72 && s == 24 && o == 105,
        ;
    } else if ell == 3 && m == -2 {
        lemma_moments_3_minus_2();
        assert(4 * a * ((2 * ell + 1) * g - ell * ell * s) == ell * (ell + 1) * b * o)
            by (nonlinear_arith)
            requires
                ell == 3 && a == 105 && b == 4 && g == 3 && s == 1 && o == 105,
        ;
    } else if ell == 3 && m == -1 {
        lemma_moments_3_minus_1();
        assert(4 * a * ((2 * ell + 1) * g - ell * ell * s) == ell * (ell + 1) * b * o)
            by (nonlinear_arith)
            requires
                ell == 3 && a == 21 && b == 32 && g == 120 && s == 40 && o == 105,
        ;
    } else if ell == 3 && m == 0 {
        lemma_moments_3_0();
        assert(4 * a * ((2 * ell + 1) * g - ell * ell * s) == ell * (ell + 1) * b * o)
            by (nonlinear_arith)
            requires
                ell == 3 && a == 7 && b == 16 && g == 180 && s == 60 && o == 105,
        ;
    } else if ell == 3 && m == 1 {
        lemma_moments_3_1();
        assert(4 * a * ((2 * ell + 1) * g - ell * ell * s) == ell * (ell + 1) * b * o)
            by (nonlinear_arith)
            requires
                ell == 3 && a == 21 && b == 32 && g == 120 && s == 40 && o == 105,
        ;
    } else if ell == 3 && m == 2 {
        lemma_moments_3_2();
        assert(4 * a * ((2 * ell + 1) * g - ell * ell * s) == ell * (ell + 1) * b * o)
            by (nonlinear_arith)
            requires
                ell == 3 && a == 105 && b == 16 && g == 12 && s == 4 && o == 105,
        ;
    } else {
        lemma_moments_3_3();
        assert(4 * a * ((2 * ell + 1) * g - ell * ell * s) == ell * (ell + 1) * b * o)
            by (nonlinear_arith)
            requires
                ell == 3 && a == 35 && b == 32 && g == 72 && s == 24 && o == 105,
        ;
    }
}

} // verus!
