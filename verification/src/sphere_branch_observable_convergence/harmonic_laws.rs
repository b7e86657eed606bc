//! What makes the polynomials of the harmonics the spherical harmonics of their degree and order:
//! they are orthogonal, they turn about the axis with their order, they keep or change their sign
//! in the mirror, and their gradients are their derivatives.

use super::harmonics::{
    derivative, harmonic, is_harmonic, polynomial_at, power, slope_at, slope_part, term, Axis,
    IntegerPoint, Monomial,
};
use super::norms::{
    lemma_moments, lemma_overlap, lemma_with_2, lemma_with_3, moment, overlap, overlap_sum,
    overlap_with,
};
use vstd::prelude::*;

verus! {

/// Whether the powers of every monomial are odd exactly along the given axes.
spec fn has_parity(terms: Seq<Monomial>, x: nat, y: nat, z: nat) -> bool {
    forall|t: int|
        0 <= t < terms.len() ==> (#[trigger] terms[t]).x % 2 == x && terms[t].y % 2 == y
            && terms[t].z % 2 == z
}

/// Along which axes the powers of a harmonic are odd.
spec fn parity(ell: int, m: int) -> (nat, nat, nat) {
    let odd = m == -3 || m == -1 || m == 1 || m == 3;
    if m < 0 {
        if odd {
            (0, 1, ((ell - 1) % 2) as nat)
        } else {
            (1, 1, (ell % 2) as nat)
        }
    } else if odd {
        (1, 0, ((ell - 1) % 2) as nat)
    } else {
        (0, 0, (ell % 2) as nat)
    }
}

proof fn lemma_parity(ell: int, m: int)
    requires
        is_harmonic(ell, m),
    ensures
        has_parity(harmonic(ell, m), parity(ell, m).0, parity(ell, m).1, parity(ell, m).2),
{
}

proof fn lemma_odd_moment(exponent: nat)
    requires
        exponent % 2 == 1,
    ensures
        moment(exponent) == 0,
    decreases exponent,
{
    if exponent > 1 {
        lemma_odd_moment((exponent - 2) as nat);
        assert((exponent - 1) * 0 == 0);
    }
}

proof fn lemma_odd_overlap(left: Monomial, right: Monomial)
    requires
        (left.x + right.x) % 2 == 1 || (left.y + right.y) % 2 == 1 || (left.z + right.z) % 2 == 1,
    ensures
        overlap(left, right) == 0,
{
    let (a, b, c) = (
        moment((left.x + right.x) as nat),
        moment((left.y + right.y) as nat),
        moment((left.z + right.z) as nat),
    );
    if (left.x + right.x) % 2 == 1 {
        lemma_odd_moment((left.x + right.x) as nat);
    } else if (left.y + right.y) % 2 == 1 {
        lemma_odd_moment((left.y + right.y) as nat);
    } else {
        lemma_odd_moment((left.z + right.z) as nat);
    }
    assert(a * (b * c) == 0) by (nonlinear_arith)
        requires
            a == 0 || b == 0 || c == 0,
    ;
    assert((left.coefficient * right.coefficient) * 0 == 0);
}

proof fn lemma_odd_with(left: Monomial, right: Seq<Monomial>)
    requires
        forall|t: int|
            0 <= t < right.len() ==> (left.x + (#[trigger] right[t]).x) % 2 == 1 || (left.y
                + right[t].y) % 2 == 1 || (left.z + right[t].z) % 2 == 1,
    ensures
        overlap_with(left, right) == 0,
    decreases right.len(),
{
    if right.len() > 0 {
        assert forall|t: int| 0 <= t < right.drop_last().len() implies (left.x + (
        #[trigger] right.drop_last()[t]).x) % 2 == 1 || (left.y + right.drop_last()[t].y) % 2 == 1
            || (left.z + right.drop_last()[t].z) % 2 == 1 by {
            assert(right.drop_last()[t] == right[t]);
        }
        lemma_odd_with(left, right.drop_last());
        assert(right[right.len() - 1] == right.last());
        lemma_odd_overlap(left, right.last());
    }
}

proof fn lemma_odd_sum(
    left: Seq<Monomial>,
    right: Seq<Monomial>,
    a: (nat, nat, nat),
    b: (nat, nat, nat),
)
    requires
        has_parity(left, a.0, a.1, a.2),
        has_parity(right, b.0, b.1, b.2),
        a != b,
    ensures
        overlap_sum(left, right) == 0,
    decreases left.len(),
{
    if left.len() > 0 {
        assert forall|t: int| 0 <= t < left.drop_last().len() implies (
        #[trigger] left.drop_last()[t]).x % 2 == a.0 && left.drop_last()[t].y % 2 == a.1
            && left.drop_last()[t].z % 2 == a.2 by {
            assert(left.drop_last()[t] == left[t]);
        }
        lemma_odd_sum(left.drop_last(), right, a, b);
        let last = left.last();
        assert(left[left.len() - 1] == last);
        assert forall|t: int| 0 <= t < right.len() implies (last.x + (#[trigger] right[t]).x) % 2
            == 1 || (last.y + right[t].y) % 2 == 1 || (last.z + right[t].z) % 2 == 1 by {
            assert(last.x % 2 == a.0 && right[t].x % 2 == b.0);
            assert(last.y % 2 == a.1 && right[t].y % 2 == b.1);
            assert(last.z % 2 == a.2 && right[t].z % 2 == b.2);
        }
        lemma_odd_with(last, right);
    }
}

proof fn lemma_overlap_swaps(left: Monomial, right: Monomial)
    ensures
        overlap(left, right) == overlap(right, left),
{
    assert(left.coefficient * right.coefficient == right.coefficient * left.coefficient)
        by (nonlinear_arith);
}

proof fn lemma_sum_by_columns(left: Seq<Monomial>, right: Seq<Monomial>)
    requires
        right.len() > 0,
    ensures
        overlap_sum(left, right) == overlap_sum(left, right.drop_last()) + overlap_with(
            right.last(),
            left,
        ),
    decreases left.len(),
{
    if left.len() > 0 {
        lemma_sum_by_columns(left.drop_last(), right);
        lemma_overlap_swaps(left.last(), right.last());
    }
}

proof fn lemma_sum_swaps(left: Seq<Monomial>, right: Seq<Monomial>)
    ensures
        overlap_sum(left, right) == overlap_sum(right, left),
    decreases right.len(),
{
    if right.len() > 0 {
        lemma_sum_by_columns(left, right);
        lemma_sum_swaps(left, right.drop_last());
    } else {
        lemma_sum_with_nothing(left, right);
    }
}

proof fn lemma_sum_with_nothing(left: Seq<Monomial>, right: Seq<Monomial>)
    requires
        right.len() == 0,
    ensures
        overlap_sum(left, right) == 0,
    decreases left.len(),
{
    if left.len() > 0 {
        lemma_sum_with_nothing(left.drop_last(), right);
    }
}

proof fn lemma_sum_1(a: Monomial, right: Seq<Monomial>)
    ensures
        overlap_sum(seq![a], right) == overlap_with(a, right),
{
    reveal_with_fuel(overlap_sum, 2);
    assert(seq![a].drop_last() =~= Seq::empty());
}

proof fn lemma_sum_2(a: Monomial, b: Monomial, right: Seq<Monomial>)
    ensures
        overlap_sum(seq![a, b], right) == overlap_with(a, right) + overlap_with(b, right),
{
    assert(seq![a, b].drop_last() =~= seq![a]);
    lemma_sum_1(a, right);
}

proof fn lemma_sum_3(a: Monomial, b: Monomial, c: Monomial, right: Seq<Monomial>)
    ensures
        overlap_sum(seq![a, b, c], right) == overlap_with(a, right) + overlap_with(b, right)
            + overlap_with(c, right),
{
    assert(seq![a, b, c].drop_last() =~= seq![a, b]);
    lemma_sum_2(a, b, right);
}

proof fn lemma_orthogonal_degree_2()
    ensures
        overlap_sum(harmonic(2, 2), harmonic(2, 0)) == 0,
{
    broadcast use vstd::arithmetic::mul::group_mul_basics;

    lemma_moments();
    let (a, b, c) = (term(2, 0, 0, 2), term(-1, 2, 0, 0), term(-1, 0, 2, 0));
    lemma_overlap((1, 2, 0, 0), (2, 0, 0, 2), 2, 1);
    lemma_overlap((1, 2, 0, 0), (-1, 2, 0, 0), -1, 3);
    lemma_overlap((1, 2, 0, 0), (-1, 0, 2, 0), -1, 1);
    lemma_overlap((-1, 0, 2, 0), (2, 0, 0, 2), -2, 1);
    lemma_overlap((-1, 0, 2, 0), (-1, 2, 0, 0), 1, 1);
    lemma_overlap((-1, 0, 2, 0), (-1, 0, 2, 0), 1, 3);
    lemma_with_3(term(1, 2, 0, 0), a, b, c);
    lemma_with_3(term(-1, 0, 2, 0), a, b, c);
    lemma_sum_2(term(1, 2, 0, 0), term(-1, 0, 2, 0), harmonic(2, 0));
}

proof fn lemma_orthogonal_along_x()
    ensures
        overlap_sum(harmonic(1, 1), harmonic(3, 1)) == 0,
        overlap_sum(harmonic(1, 1), harmonic(3, 3)) == 0,
        overlap_sum(harmonic(3, 3), harmonic(3, 1)) == 0,
{
    broadcast use vstd::arithmetic::mul::group_mul_basics;

    lemma_moments();
    let (a, b, c) = (term(4, 1, 0, 2), term(-1, 3, 0, 0), term(-1, 1, 2, 0));
    lemma_overlap((1, 1, 0, 0), (4, 1, 0, 2), 4, 1);
    lemma_overlap((1, 1, 0, 0), (-1, 3, 0, 0), -1, 3);
    lemma_overlap((1, 1, 0, 0), (-1, 1, 2, 0), -1, 1);
    lemma_with_3(term(1, 1, 0, 0), a, b, c);
    lemma_sum_1(term(1, 1, 0, 0), harmonic(3, 1));
    lemma_overlap((1, 1, 0, 0), (1, 3, 0, 0), 1, 3);
    lemma_overlap((1, 1, 0, 0), (-3, 1, 2, 0), -3, 1);
    lemma_with_2(term(1, 1, 0, 0), term(1, 3, 0, 0), term(-3, 1, 2, 0));
    lemma_sum_1(term(1, 1, 0, 0), harmonic(3, 3));
    lemma_overlap((1, 3, 0, 0), (4, 1, 0, 2), 4, 3);
    lemma_overlap((1, 3, 0, 0), (-1, 3, 0, 0), -1, 15);
    lemma_overlap((1, 3, 0, 0), (-1, 1, 2, 0), -1, 3);
    lemma_overlap((-3, 1, 2, 0), (4, 1, 0, 2), -12, 1);
    lemma_overlap((-3, 1, 2, 0), (-1, 3, 0, 0), 3, 3);
    lemma_overlap((-3, 1, 2, 0), (-1, 1, 2, 0), 3, 3);
    lemma_with_3(term(1, 3, 0, 0), a, b, c);
    lemma_with_3(term(-3, 1, 2, 0), a, b, c);
    lemma_sum_2(term(1, 3, 0, 0), term(-3, 1, 2, 0), harmonic(3, 1));
}

proof fn lemma_orthogonal_along_y()
    ensures
        overlap_sum(harmonic(1, -1), harmonic(3, -1)) == 0,
        overlap_sum(harmonic(1, -1), harmonic(3, -3)) == 0,
        overlap_sum(harmonic(3, -3), harmonic(3, -1)) == 0,
{
    broadcast use vstd::arithmetic::mul::group_mul_basics;

    lemma_moments();
    let (a, b, c) = (term(4, 0, 1, 2), term(-1, 2, 1, 0), term(-1, 0, 3, 0));
    lemma_overlap((1, 0, 1, 0), (4, 0, 1, 2), 4, 1);
    lemma_overlap((1, 0, 1, 0), (-1, 2, 1, 0), -1, 1);
    lemma_overlap((1, 0, 1, 0), (-1, 0, 3, 0), -1, 3);
    lemma_with_3(term(1, 0, 1, 0), a, b, c);
    lemma_sum_1(term(1, 0, 1, 0), harmonic(3, -1));
    lemma_overlap((1, 0, 1, 0), (3, 2, 1, 0), 3, 1);
    lemma_overlap((1, 0, 1, 0), (-1, 0, 3, 0), -1, 3);
    lemma_with_2(term(1, 0, 1, 0), term(3, 2, 1, 0), term(-1, 0, 3, 0));
    lemma_sum_1(term(1, 0, 1, 0), harmonic(3, -3));
    lemma_overlap((3, 2, 1, 0), (4, 0, 1, 2), 12, 1);
    lemma_overlap((3, 2, 1, 0), (-1, 2, 1, 0), -3, 3);
    lemma_overlap((3, 2, 1, 0), (-1, 0, 3, 0), -3, 3);
    lemma_overlap((-1, 0, 3, 0), (4, 0, 1, 2), -4, 3);
    lemma_overlap((-1, 0, 3, 0), (-1, 2, 1, 0), 1, 3);
    lemma_overlap((-1, 0, 3, 0), (-1, 0, 3, 0), 1, 15);
    lemma_with_3(term(3, 2, 1, 0), a, b, c);
    lemma_with_3(term(-1, 0, 3, 0), a, b, c);
    lemma_sum_2(term(3, 2, 1, 0), term(-1, 0, 3, 0), harmonic(3, -1));
}

proof fn lemma_orthogonal_along_z()
    ensures
        overlap_sum(harmonic(1, 0), harmonic(3, 0)) == 0,
        overlap_sum(harmonic(1, 0), harmonic(3, 2)) == 0,
        overlap_sum(harmonic(3, 2), harmonic(3, 0)) == 0,
{
    broadcast use vstd::arithmetic::mul::group_mul_basics;

    lemma_moments();
    let (a, b, c) = (term(2, 0, 0, 3), term(-3, 2, 0, 1), term(-3, 0, 2, 1));
    lemma_overlap((1, 0, 0, 1), (2, 0, 0, 3), 2, 3);
    lemma_overlap((1, 0, 0, 1), (-3, 2, 0, 1), -3, 1);
    lemma_overlap((1, 0, 0, 1), (-3, 0, 2, 1), -3, 1);
    lemma_with_3(term(1, 0, 0, 1), a, b, c);
    lemma_sum_1(term(1, 0, 0, 1), harmonic(3, 0));
    lemma_overlap((1, 0, 0, 1), (1, 2, 0, 1), 1, 1);
    lemma_overlap((1, 0, 0, 1), (-1, 0, 2, 1), -1, 1);
    lemma_with_2(term(1, 0, 0, 1), term(1, 2, 0, 1), term(-1, 0, 2, 1));
    lemma_sum_1(term(1, 0, 0, 1), harmonic(3, 2));
    lemma_overlap((1, 2, 0, 1), (2, 0, 0, 3), 2, 3);
    lemma_overlap((1, 2, 0, 1), (-3, 2, 0, 1), -3, 3);
    lemma_overlap((1, 2, 0, 1), (-3, 0, 2, 1), -3, 1);
    lemma_overlap((-1, 0, 2, 1), (2, 0, 0, 3), -2, 3);
    lemma_overlap((-1, 0, 2, 1), (-3, 2, 0, 1), 3, 1);
    lemma_overlap((-1, 0, 2, 1), (-3, 0, 2, 1), 3, 3);
    lemma_with_3(term(1, 2, 0, 1), a, b, c);
    lemma_with_3(term(-1, 0, 2, 1), a, b, c);
    lemma_sum_2(term(1, 2, 0, 1), term(-1, 0, 2, 1), harmonic(3, 0));
}

/// Any two different harmonics, of one degree or of two, are orthogonal: the mean of their product
/// over the sphere is zero.
pub proof fn lemma_harmonics_are_orthogonal(ell: int, m: int, k: int, n: int)
    requires
        is_harmonic(ell, m),
        is_harmonic(k, n),
        ell != k || m != n,
    ensures
        overlap_sum(harmonic(ell, m), harmonic(k, n)) == 0,
{
    lemma_parity(ell, m);
    lemma_parity(k, n);
    if parity(ell, m) != parity(k, n) {
        lemma_odd_sum(harmonic(ell, m), harmonic(k, n), parity(ell, m), parity(k, n));
    } else {
        lemma_sum_swaps(harmonic(ell, m), harmonic(k, n));
        lemma_orthogonal_degree_2();
        lemma_orthogonal_along_x();
        lemma_orthogonal_along_y();
        lemma_orthogonal_along_z();
    }
}

/// A harmonic by its value.
spec fn value_of(ell: int, m: int, x: int, y: int, z: int) -> int {
    if ell == 1 {
        if m == -1 {
            y
        } else if m == 0 {
            z
        } else {
            x
        }
    } else if ell == 2 {
        if m == -2 {
            x * y
        } else if m == -1 {
            y * z
        } else if m == 0 {
            2 * (z * z) - x * x - y * y
        } else if m == 1 {
            x * z
        } else {
            x * x - y * y
        }
    } else {
        if m == -3 {
            3 * ((x * x) * y) - y * (y * y)
        } else if m == -2 {
            x * (y * z)
        } else if m == -1 {
            4 * (y * (z * z)) - (x * x) * y - y * (y * y)
        } else if m == 0 {
            2 * (z * (z * z)) - 3 * ((x * x) * z) - 3 * ((y * y) * z)
        } else if m == 1 {
            4 * (x * (z * z)) - x * (x * x) - x * (y * y)
        } else if m == 2 {
            (x * x) * z - (y * y) * z
        } else {
            x * (x * x) - 3 * (x * (y * y))
        }
    }
}

proof fn lemma_powers(base: int)
    ensures
        power(base, 0) == 1,
        power(base, 1) == base,
        power(base, 2) == base * base,
        power(base, 3) == base * (base * base),
{
    reveal_with_fuel(power, 4);
    assert(base * 1 == base);
}

proof fn lemma_at_1(a: Monomial, point: IntegerPoint)
    ensures
        polynomial_at(seq![a], point) == a.at(point),
{
    reveal_with_fuel(polynomial_at, 2);
    assert(seq![a].drop_last() =~= Seq::empty());
}

proof fn lemma_at_2(a: Monomial, b: Monomial, point: IntegerPoint)
    ensures
        polynomial_at(seq![a, b], point) == a.at(point) + b.at(point),
{
    assert(seq![a, b].drop_last() =~= seq![a]);
    lemma_at_1(a, point);
}

proof fn lemma_at_3(a: Monomial, b: Monomial, c: Monomial, point: IntegerPoint)
    ensures
        polynomial_at(seq![a, b, c], point) == a.at(point) + b.at(point) + c.at(point),
{
    assert(seq![a, b, c].drop_last() =~= seq![a, b]);
    lemma_at_2(a, b, point);
}

proof fn lemma_term_at(coefficient: int, x: u32, y: u32, z: u32, point: IntegerPoint)
    requires
        -4 <= coefficient <= 4,
    ensures
        term(coefficient, x, y, z).at(point) == coefficient * (power(point.x, x as nat) * (power(
            point.y,
            y as nat,
        ) * power(point.z, z as nat))),
{
}

proof fn lemma_value_1(m: int, point: IntegerPoint)
    requires
        is_harmonic(1, m),
    ensures
        polynomial_at(harmonic(1, m), point) == value_of(1, m, point.x, point.y, point.z),
{
    broadcast use vstd::arithmetic::mul::group_mul_basics;

    lemma_powers(point.x);
    lemma_powers(point.y);
    lemma_powers(point.z);
    if m == -1 {
        lemma_term_at(1, 0, 1, 0, point);
        lemma_at_1(term(1, 0, 1, 0), point);
    } else if m == 0 {
        lemma_term_at(1, 0, 0, 1, point);
        lemma_at_1(term(1, 0, 0, 1), point);
    } else {
        lemma_term_at(1, 1, 0, 0, point);
        lemma_at_1(term(1, 1, 0, 0), point);
    }
}

proof fn lemma_value_2(m: int, point: IntegerPoint)
    requires
        is_harmonic(2, m),
    ensures
        polynomial_at(harmonic(2, m), point) == value_of(2, m, point.x, point.y, point.z),
{
    broadcast use vstd::arithmetic::mul::group_mul_basics;

    lemma_powers(point.x);
    lemma_powers(point.y);
    lemma_powers(point.z);
    if m == -2 {
        lemma_term_at(1, 1, 1, 0, point);
        lemma_at_1(term(1, 1, 1, 0), point);
    } else if m == -1 {
        lemma_term_at(1, 0, 1, 1, point);
        lemma_at_1(term(1, 0, 1, 1), point);
    } else if m == 0 {
        lemma_term_at(2, 0, 0, 2, point);
        lemma_term_at(-1, 2, 0, 0, point);
        lemma_term_at(-1, 0, 2, 0, point);
        lemma_at_3(term(2, 0, 0, 2), term(-1, 2, 0, 0), term(-1, 0, 2, 0), point);
    } else if m == 1 {
        lemma_term_at(1, 1, 0, 1, point);
        lemma_at_1(term(1, 1, 0, 1), point);
    } else {
        lemma_term_at(1, 2, 0, 0, point);
        lemma_term_at(-1, 0, 2, 0, point);
        lemma_at_2(term(1, 2, 0, 0), term(-1, 0, 2, 0), point);
    }
}

proof fn lemma_value_3(m: int, point: IntegerPoint)
    requires
        is_harmonic(3, m),
    ensures
        polynomial_at(harmonic(3, m), point) == value_of(3, m, point.x, point.y, point.z),
{
    broadcast use vstd::arithmetic::mul::group_mul_basics;

    lemma_powers(point.x);
    lemma_powers(point.y);
    lemma_powers(point.z);
    if m == -3 {
        lemma_term_at(3, 2, 1, 0, point);
        lemma_term_at(-1, 0, 3, 0, point);
        lemma_at_2(term(3, 2, 1, 0), term(-1, 0, 3, 0), point);
    } else if m == -2 {
        lemma_term_at(1, 1, 1, 1, point);
        lemma_at_1(term(1, 1, 1, 1), point);
    } else if m == -1 {
        lemma_term_at(4, 0, 1, 2, point);
        lemma_term_at(-1, 2, 1, 0, point);
        lemma_term_at(-1, 0, 3, 0, point);
        lemma_at_3(term(4, 0, 1, 2), term(-1, 2, 1, 0), term(-1, 0, 3, 0), point);
    } else if m == 0 {
        lemma_term_at(2, 0, 0, 3, point);
        lemma_term_at(-3, 2, 0, 1, point);
        lemma_term_at(-3, 0, 2, 1, point);
        lemma_at_3(term(2, 0, 0, 3), term(-3, 2, 0, 1), term(-3, 0, 2, 1), point);
    } else if m == 1 {
        lemma_term_at(4, 1, 0, 2, point);
        lemma_term_at(-1, 3, 0, 0, point);
        lemma_term_at(-1, 1, 2, 0, point);
        lemma_at_3(term(4, 1, 0, 2), term(-1, 3, 0, 0), term(-1, 1, 2, 0), point);
    } else if m == 2 {
        lemma_term_at(1, 2, 0, 1, point);
        lemma_term_at(-1, 0, 2, 1, point);
        lemma_at_2(term(1, 2, 0, 1), term(-1, 0, 2, 1), point);
    } else {
        lemma_term_at(1, 3, 0, 0, point);
        lemma_term_at(-3, 1, 2, 0, point);
        lemma_at_2(term(1, 3, 0, 0), term(-3, 1, 2, 0), point);
    }
}

proof fn lemma_value(ell: int, m: int, point: IntegerPoint)
    requires
        is_harmonic(ell, m),
    ensures
        polynomial_at(harmonic(ell, m), point) == value_of(ell, m, point.x, point.y, point.z),
{
    if ell == 1 {
        lemma_value_1(m, point);
    } else if ell == 2 {
        lemma_value_2(m, point);
    } else {
        lemma_value_3(m, point);
    }
}

/// The point on the other side of the plane through the axis in which the angle is zero.
pub open spec fn mirrored(point: IntegerPoint) -> IntegerPoint {
    IntegerPoint { x: point.x, y: -point.y, z: point.z }
}

/// In the mirror that turns the angle around, a harmonic of negative order changes its sign, and
/// any other stays as it is.
pub proof fn lemma_harmonic_in_mirror(ell: int, m: int, point: IntegerPoint)
    requires
        is_harmonic(ell, m),
    ensures
        m < 0 ==> polynomial_at(harmonic(ell, m), mirrored(point)) == -polynomial_at(
            harmonic(ell, m),
            point,
        ),
        m >= 0 ==> polynomial_at(harmonic(ell, m), mirrored(point)) == polynomial_at(
            harmonic(ell, m),
            point,
        ),
{
    lemma_value(ell, m, point);
    lemma_value(ell, m, mirrored(point));
    let (x, y, z) = (point.x, point.y, point.z);
    assert((-y) * (-y) == y * y) by (nonlinear_arith);
    let q = y * y;
    assert((-y) * q == -(y * q)) by (nonlinear_arith);
    assert(x * (-y) == -(x * y) && (-y) * z == -(y * z)) by (nonlinear_arith);
    assert((x * x) * (-y) == -((x * x) * y)) by (nonlinear_arith);
    assert((-y) * (z * z) == -(y * (z * z))) by (nonlinear_arith);
    assert(x * -(y * z) == -(x * (y * z))) by (nonlinear_arith);
}

/// A point turned about the axis by the angle whose cosine is 3/5 and whose sine is 4/5, and five
/// times as far away.
pub open spec fn turned(point: IntegerPoint) -> IntegerPoint {
    IntegerPoint {
        x: 3 * point.x - 4 * point.y,
        y: 4 * point.x + 3 * point.y,
        z: 5 * point.z,
    }
}

/// A point turned back by the same angle, and five times as far away.
pub open spec fn turned_back(point: IntegerPoint) -> IntegerPoint {
    IntegerPoint {
        x: 3 * point.x + 4 * point.y,
        y: -4 * point.x + 3 * point.y,
        z: 5 * point.z,
    }
}

/// The cosine of a multiple of the angle whose cosine is 3/5, times the same power of five.
pub open spec fn cosine_of_multiple(count: nat) -> int
    decreases count,
{
    if count == 0 {
        1
    } else if count == 1 {
        3
    } else {
        6 * cosine_of_multiple((count - 1) as nat) - 25 * cosine_of_multiple((count - 2) as nat)
    }
}

proof fn lemma_cosines()
    ensures
        cosine_of_multiple(0) == 1,
        cosine_of_multiple(1) == 3,
        cosine_of_multiple(2) == -7,
        cosine_of_multiple(3) == -117,
        power(5, 0) == 1,
        power(5, 1) == 5,
        power(5, 2) == 25,
        power(5, 3) == 125,
{
    reveal_with_fuel(cosine_of_multiple, 4);
    reveal_with_fuel(power, 4);
}

/// A harmonic of order `m` turns about the axis as the cosine and the sine of `m` times the angle
/// do: its values at a point that is turned forth and turned back add up to twice its value at the
/// point times the cosine of `m` times the angle.
pub proof fn lemma_harmonic_turns(ell: int, m: int, point: IntegerPoint)
    requires
        is_harmonic(ell, m),
    ensures
        ({
            let order = (if m < 0 {
                -m
            } else {
                m
            }) as nat;
            polynomial_at(harmonic(ell, m), turned(point)) + polynomial_at(
                harmonic(ell, m),
                turned_back(point),
            ) == 2 * cosine_of_multiple(order) * power(5, (ell - order) as nat) * polynomial_at(
                harmonic(ell, m),
                point,
            )
        }),
{
    lemma_cosines();
    lemma_value(ell, m, point);
    lemma_value(ell, m, turned(point));
    lemma_value(ell, m, turned_back(point));
    let (x, y, z) = (point.x, point.y, point.z);
    let (a, b) = (3 * x - 4 * y, 4 * x + 3 * y);
    let (c, d) = (3 * x + 4 * y, -4 * x + 3 * y);
    let w = 5 * z;
    lemma_turned_squares(x, y, z);
    if ell == 2 {
        if m == -1 {
            assert(b * w + d * w == 30 * (y * z)) by (nonlinear_arith)
                requires
                    b == 4 * x + 3 * y,
                    d == -4 * x + 3 * y,
                    w == 5 * z,
            ;
        } else if m == 1 {
            assert(a * w + c * w == 30 * (x * z)) by (nonlinear_arith)
                requires
                    a == 3 * x - 4 * y,
                    c == 3 * x + 4 * y,
                    w == 5 * z,
            ;
        }
    } else if ell == 3 {
        lemma_turned_cubes(m, x, y, z);
    }
    let order = (if m < 0 {
        -m
    } else {
        m
    }) as nat;
    let (cosine, scale) = (cosine_of_multiple(order), power(5, (ell - order) as nat));
    let value = value_of(ell, m, x, y, z);
    let factor: int = if ell == 1 {
        if order == 0 {
            10
        } else {
            6
        }
    } else if ell == 2 {
        if order == 0 {
            50
        } else if order == 1 {
            30
        } else {
            -14
        }
    } else if order == 0 {
        250
    } else if order == 1 {
        150
    } else if order == 2 {
        -70
    } else {
        -234
    };
    lemma_scaled(cosine, scale, factor, value);
}

proof fn lemma_scaled(cosine: int, scale: int, factor: int, value: int)
    requires
        factor == 2 * cosine * scale,
    ensures
        2 * cosine * scale * value == factor * value,
{
}

proof fn lemma_turned_squares(x: int, y: int, z: int)
    ensures
        (3 * x - 4 * y) * (3 * x - 4 * y) == 9 * (x * x) - 24 * (x * y) + 16 * (y * y),
        (4 * x + 3 * y) * (4 * x + 3 * y) == 16 * (x * x) + 24 * (x * y) + 9 * (y * y),
        (3 * x + 4 * y) * (3 * x + 4 * y) == 9 * (x * x) + 24 * (x * y) + 16 * (y * y),
        (-4 * x + 3 * y) * (-4 * x + 3 * y) == 16 * (x * x) - 24 * (x * y) + 9 * (y * y),
        (3 * x - 4 * y) * (4 * x + 3 * y) == 12 * (x * x) - 7 * (x * y) - 12 * (y * y),
        (3 * x + 4 * y) * (-4 * x + 3 * y) == -12 * (x * x) - 7 * (x * y) + 12 * (y * y),
        (5 * z) * (5 * z) == 25 * (z * z),
{
    assert((3 * x - 4 * y) * (3 * x - 4 * y) == 9 * (x * x) - 24 * (x * y) + 16 * (y * y))
        by (nonlinear_arith);
    assert((4 * x + 3 * y) * (4 * x + 3 * y) == 16 * (x * x) + 24 * (x * y) + 9 * (y * y))
        by (nonlinear_arith);
    assert((3 * x + 4 * y) * (3 * x + 4 * y) == 9 * (x * x) + 24 * (x * y) + 16 * (y * y))
        by (nonlinear_arith);
    assert((-4 * x + 3 * y) * (-4 * x + 3 * y) == 16 * (x * x) - 24 * (x * y) + 9 * (y * y))
        by (nonlinear_arith);
    assert((3 * x - 4 * y) * (4 * x + 3 * y) == 12 * (x * x) - 7 * (x * y) - 12 * (y * y))
        by (nonlinear_arith);
    assert((3 * x + 4 * y) * (-4 * x + 3 * y) == -12 * (x * x) - 7 * (x * y) + 12 * (y * y))
        by (nonlinear_arith);
    assert((5 * z) * (5 * z) == 25 * (z * z)) by (nonlinear_arith);
}

proof fn lemma_spread(a: int, p: int, q: int, r: int)
    ensures
        a * (9 * p - 24 * q + 16 * r) == 9 * (a * p) - 24 * (a * q) + 16 * (a * r),
        a * (16 * p + 24 * q + 9 * r) == 16 * (a * p) + 24 * (a * q) + 9 * (a * r),
        a * (9 * p + 24 * q + 16 * r) == 9 * (a * p) + 24 * (a * q) + 16 * (a * r),
        a * (16 * p - 24 * q + 9 * r) == 16 * (a * p) - 24 * (a * q) + 9 * (a * r),
{
    assert(a * (9 * p - 24 * q + 16 * r) == 9 * (a * p) - 24 * (a * q) + 16 * (a * r))
        by (nonlinear_arith);
    assert(a * (16 * p + 24 * q + 9 * r) == 16 * (a * p) + 24 * (a * q) + 9 * (a * r))
        by (nonlinear_arith);
    assert(a * (9 * p + 24 * q + 16 * r) == 9 * (a * p) + 24 * (a * q) + 16 * (a * r))
        by (nonlinear_arith);
    assert(a * (16 * p - 24 * q + 9 * r) == 16 * (a * p) - 24 * (a * q) + 9 * (a * r))
        by (nonlinear_arith);
}

proof fn lemma_swap(a: int, b: int)
    ensures
        a * b == b * a,
{
    assert(a * b == b * a) by (nonlinear_arith);
}

/// The coordinates of a turned point times another number.
proof fn lemma_turned_times(x: int, y: int, t: int)
    ensures
        (3 * x - 4 * y) * t == 3 * (x * t) - 4 * (y * t),
        (4 * x + 3 * y) * t == 4 * (x * t) + 3 * (y * t),
        (3 * x + 4 * y) * t == 3 * (x * t) + 4 * (y * t),
        (-4 * x + 3 * y) * t == -4 * (x * t) + 3 * (y * t),
        x * (25 * t) == 25 * (x * t),
        y * (25 * t) == 25 * (y * t),
{
    assert((3 * x - 4 * y) * t == 3 * (x * t) - 4 * (y * t)) by (nonlinear_arith);
    assert((4 * x + 3 * y) * t == 4 * (x * t) + 3 * (y * t)) by (nonlinear_arith);
    assert((3 * x + 4 * y) * t == 3 * (x * t) + 4 * (y * t)) by (nonlinear_arith);
    assert((-4 * x + 3 * y) * t == -4 * (x * t) + 3 * (y * t)) by (nonlinear_arith);
    assert(x * (25 * t) == 25 * (x * t)) by (nonlinear_arith);
    assert(y * (25 * t) == 25 * (y * t)) by (nonlinear_arith);
}

proof fn lemma_turned_cubes(m: int, x: int, y: int, z: int)
    requires
        -3 <= m <= 3,
    ensures
        ({
            let forth = value_of(3, m, 3 * x - 4 * y, 4 * x + 3 * y, 5 * z);
            let back = value_of(3, m, 3 * x + 4 * y, -4 * x + 3 * y, 5 * z);
            let value = value_of(3, m, x, y, z);
            &&& m == 3 || m == -3 ==> forth + back == -234 * value
            &&& m == 2 || m == -2 ==> forth + back == -70 * value
            &&& m == 1 || m == -1 ==> forth + back == 150 * value
            &&& m == 0 ==> forth + back == 250 * value
        }),
{
    let (a, b) = (3 * x - 4 * y, 4 * x + 3 * y);
    let (c, d) = (3 * x + 4 * y, -4 * x + 3 * y);
    let w = 5 * z;
    lemma_turned_squares(x, y, z);
    let (p, q, r, s) = (x * x, x * y, y * y, z * z);
    // The squares of the coordinates of the two turned points.
    let (aa, bb) = (9 * p - 24 * q + 16 * r, 16 * p + 24 * q + 9 * r);
    let (cc, dd) = (9 * p + 24 * q + 16 * r, 16 * p - 24 * q + 9 * r);
    lemma_turned_times(x, y, p);
    lemma_turned_times(x, y, q);
    lemma_turned_times(x, y, r);
    lemma_turned_times(x, y, s);
    assert(x * q == y * p) by (nonlinear_arith)
        requires
            p == x * x,
            q == x * y,
    ;
    assert(y * q == x * r) by (nonlinear_arith)
        requires
            r == y * y,
            q == x * y,
    ;
    lemma_swap(p, y);
    if m == -3 || m == -1 {
        lemma_spread(b, p, q, r);
        lemma_spread(d, p, q, r);
        lemma_swap(aa, b);
        lemma_swap(cc, d);
        assert(b * (25 * s) == 25 * (b * s) && d * (25 * s) == 25 * (d * s)) by (nonlinear_arith);
    } else if m == 3 || m == 1 {
        lemma_spread(a, p, q, r);
        lemma_spread(c, p, q, r);
        assert(a * (25 * s) == 25 * (a * s) && c * (25 * s) == 25 * (c * s)) by (nonlinear_arith);
    } else if m == -2 {
        assert(a * (b * w) == 5 * ((a * b) * z)) by (nonlinear_arith)
            requires
                w == 5 * z,
        ;
        assert(c * (d * w) == 5 * ((c * d) * z)) by (nonlinear_arith)
            requires
                w == 5 * z,
        ;
        assert((12 * p - 7 * q - 12 * r) * z + (-12 * p - 7 * q + 12 * r) * z == -14 * (q * z))
            by (nonlinear_arith);
        assert(x * (y * z) == q * z) by (nonlinear_arith)
            requires
                q == x * y,
        ;
    } else {
        lemma_spread(w, p, q, r);
        lemma_swap(aa, w);
        lemma_swap(bb, w);
        lemma_swap(cc, w);
        lemma_swap(dd, w);
        assert(w * p == 5 * (p * z) && w * r == 5 * (r * z) && w * (25 * s) == 125 * (z * s))
            by (nonlinear_arith)
            requires
                w == 5 * z,
        ;
    }
}

/// The signs are those of cosines and sines: next to the axis, where the angle is zero, a harmonic
/// of order zero or more is positive, and one of negative order is positive where the angle grows
/// from there.
pub proof fn lemma_harmonic_signs(ell: int, m: int, point: IntegerPoint)
    requires
        is_harmonic(ell, m),
        0 < point.x,
        3 * point.x <= point.z,
        0 <= point.y <= point.x,
    ensures
        m >= 0 && point.y == 0 ==> polynomial_at(harmonic(ell, m), point) > 0,
        m < 0 && point.y > 0 ==> polynomial_at(harmonic(ell, m), point) > 0,
{
    lemma_value(ell, m, point);
    let (x, y, z) = (point.x, point.y, point.z);
    if m >= 0 && y == 0 {
        assert(x * x > 0 && z * z >= 9 * (x * x)) by (nonlinear_arith)
            requires
                0 < x,
                3 * x <= z,
        ;
        let (p, s) = (x * x, z * z);
        assert(x * z > 0 && x * p > 0 && p * z > 0) by (nonlinear_arith)
            requires
                0 < x,
                0 < z,
                0 < p,
        ;
        assert(x * s >= 9 * (x * p)) by (nonlinear_arith)
            requires
                0 < x,
                s >= 9 * p,
        ;
        assert(z * s >= 9 * (p * z)) by (nonlinear_arith)
            requires
                0 < z,
                s >= 9 * p,
        ;
        assert(y * y == 0 && x * (y * y) == 0 && (y * y) * z == 0) by (nonlinear_arith)
            requires
                y == 0,
        ;
    }
    if m < 0 && y > 0 {
        let (p, r, s) = (x * x, y * y, z * z);
        assert(r <= p && p > 0 && s >= 9 * p) by (nonlinear_arith)
            requires
                0 < y <= x,
                3 * x <= z,
                p == x * x,
                r == y * y,
                s == z * z,
        ;
        assert(x * y > 0 && y * z > 0) by (nonlinear_arith)
            requires
                0 < x,
                0 < y,
                0 < z,
        ;
        assert(y * r <= p * y && p * y > 0 && y * s >= 9 * (p * y)) by (nonlinear_arith)
            requires
                0 < y,
                r <= p,
                0 < p,
                s >= 9 * p,
        ;
        assert(x * (y * z) > 0) by (nonlinear_arith)
            requires
                0 < x,
                0 < y * z,
        ;
    }
}

/// A point moved along an axis.
pub open spec fn moved(point: IntegerPoint, axis: Axis, by: int) -> IntegerPoint {
    match axis {
        Axis::X => IntegerPoint { x: point.x + by, ..point },
        Axis::Y => IntegerPoint { y: point.y + by, ..point },
        Axis::Z => IntegerPoint { z: point.z + by, ..point },
    }
}

/// What is left of a moved power beyond its first two terms, divided by the squared distance.
spec fn power_rest(base: int, by: int, exponent: nat) -> int
    decreases exponent,
{
    if exponent <= 1 {
        0
    } else {
        let less = (exponent - 1) as nat;
        less * power(base, (exponent - 2) as nat) + (base + by) * power_rest(base, by, less)
    }
}

proof fn lemma_moved_power(base: int, by: int, exponent: nat)
    ensures
        exponent > 0 ==> power(base + by, exponent) == power(base, exponent) + by * (exponent
            * power(base, (exponent - 1) as nat)) + (by * by) * power_rest(base, by, exponent),
        exponent == 0 ==> power(base + by, exponent) == power(base, exponent),
    decreases exponent,
{
    if exponent == 1 {
        lemma_powers(base);
        lemma_powers(base + by);
        assert(by * (1 * 1) == by && (by * by) * 0 == 0);
    } else if exponent > 1 {
        let less = (exponent - 1) as nat;
        lemma_moved_power(base, by, less);
        let low = power(base, (exponent - 2) as nat);
        let rest = power_rest(base, by, less);
        let e = less as int;
        assert(power(base, less) == base * low);
        let (own, t, square) = (base * low, e * low, by * by);
        let whole = base + by;
        assert(whole * (own + by * t + square * rest) == whole * own + whole * (by * t) + whole * (
        square * rest)) by (nonlinear_arith);
        assert(whole * own == base * own + by * own) by (nonlinear_arith)
            requires
                whole == base + by,
        ;
        assert(whole * (by * t) == by * (base * t) + (by * by) * t) by (nonlinear_arith)
            requires
                whole == base + by,
        ;
        assert(base * (e * low) == e * (base * low)) by (nonlinear_arith);
        assert(by * ((e + 1) * own) == by * (e * own) + by * own) by (nonlinear_arith);
        let further = whole * rest;
        assert(whole * (square * rest) == square * (whole * rest)) by (nonlinear_arith);
        assert(square * (t + further) == square * t + square * further) by (nonlinear_arith);
    }
}

proof fn lemma_moved_monomial(monomial: Monomial, axis: Axis, point: IntegerPoint, by: int) -> (rest:
    int)
    requires
        monomial.differentiable(),
    ensures
        monomial.at(moved(point, axis, by)) == monomial.at(point) + by * slope_part(
            monomial,
            axis,
            point,
        ) + (by * by) * rest,
{
    let c = monomial.coefficient as int;
    let (px, py, pz) = (
        power(point.x, monomial.x as nat),
        power(point.y, monomial.y as nat),
        power(point.z, monomial.z as nat),
    );
    let (base, e) = match axis {
        Axis::X => (point.x, monomial.x as nat),
        Axis::Y => (point.y, monomial.y as nat),
        Axis::Z => (point.z, monomial.z as nat),
    };
    lemma_moved_power(base, by, e);
    let n = e as int;
    if e == 0 {
        assert(by * 0 == 0 && (by * by) * 0 == 0);
        0
    } else {
        let low = power(base, (e - 1) as nat);
        let tail = power_rest(base, by, e);
        let square = by * by;
        match axis {
            Axis::X => {
                let others = py * pz;
                lemma_affine(others, px, by, n * low, square, tail);
                lemma_swap(px + by * (n * low) + square * tail, others);
                lemma_swap(px, others);
                lemma_swap(tail, others);
                lemma_pull(others, n, low);
                lemma_swap(low, others);
                let (own, further) = (px * others, tail * others);
                lemma_affine(c, own, by, n * (low * others), square, further);
                lemma_join(c, n, low * others);
                c * further
            },
            Axis::Y => {
                lemma_affine(pz, py, by, n * low, square, tail);
                lemma_swap(py + by * (n * low) + square * tail, pz);
                lemma_swap(py, pz);
                lemma_swap(tail, pz);
                lemma_pull(pz, n, low);
                lemma_swap(low, pz);
                let (own, lower, further) = (py * pz, low * pz, tail * pz);
                lemma_affine(px, own, by, n * lower, square, further);
                lemma_pull(px, n, lower);
                lemma_affine(c, px * own, by, n * (px * lower), square, px * further);
                lemma_join(c, n, px * lower);
                c * (px * further)
            },
            Axis::Z => {
                lemma_affine(py, pz, by, n * low, square, tail);
                lemma_pull(py, n, low);
                let (own, lower, further) = (py * pz, py * low, py * tail);
                lemma_affine(px, own, by, n * lower, square, further);
                lemma_pull(px, n, lower);
                lemma_affine(c, px * own, by, n * (px * lower), square, px * further);
                lemma_join(c, n, px * lower);
                c * (px * further)
            },
        }
    }
}

proof fn lemma_affine(k: int, own: int, by: int, part: int, square: int, further: int)
    ensures
        k * (own + by * part + square * further) == k * own + by * (k * part) + square * (k
            * further),
{
    let (u, v) = (by * part, square * further);
    assert(k * (own + u + v) == k * own + k * u + k * v) by (nonlinear_arith);
    assert(k * (by * part) == by * (k * part)) by (nonlinear_arith);
    assert(k * (square * further) == square * (k * further)) by (nonlinear_arith);
}

proof fn lemma_pull(k: int, n: int, part: int)
    ensures
        k * (n * part) == n * (k * part),
{
    assert(k * (n * part) == n * (k * part)) by (nonlinear_arith);
}

proof fn lemma_join(k: int, n: int, part: int)
    ensures
        k * (n * part) == (k * n) * part,
{
    assert(k * (n * part) == (k * n) * part) by (nonlinear_arith);
}

proof fn lemma_slopes_add(terms: Seq<Monomial>, axis: Axis, point: IntegerPoint)
    requires
        terms.len() > 0,
    ensures
        slope_at(terms, axis, point) == slope_at(terms.drop_last(), axis, point) + slope_part(
            terms.last(),
            axis,
            point,
        ),
{
    let before = derivative(terms.drop_last(), axis);
    if terms.last().exponent(axis) > 0 {
        let after = before.push(terms.last().slope(axis));
        assert(after.drop_last() =~= before);
        assert(after.last() == terms.last().slope(axis));
    }
}

/// The derivative of a polynomial is how it changes along an axis: its value at a moved point is
/// its value at the point, and the distance times the derivative, up to a multiple of the square
/// of the distance. Only one number at a point has this property for all distances.
pub proof fn lemma_derivative_is_rate_of_change(
    terms: Seq<Monomial>,
    axis: Axis,
    point: IntegerPoint,
    by: int,
) -> (rest: int)
    requires
        forall|t: int| 0 <= t < terms.len() ==> (#[trigger] terms[t]).differentiable(),
    ensures
        polynomial_at(terms, moved(point, axis, by)) == polynomial_at(terms, point) + by * slope_at(
            terms,
            axis,
            point,
        ) + (by * by) * rest,
    decreases terms.len(),
{
    if terms.len() == 0 {
        assert(by * 0 == 0 && (by * by) * 0 == 0);
        0
    } else {
        let before = terms.drop_last();
        assert forall|t: int| 0 <= t < before.len() implies (#[trigger] before[t]).differentiable() by {
            assert(before[t] == terms[t]);
        }
        assert(terms[terms.len() - 1].differentiable());
        let first = lemma_derivative_is_rate_of_change(before, axis, point, by);
        let second = lemma_moved_monomial(terms.last(), axis, point, by);
        lemma_slopes_add(terms, axis, point);
        let (a, b) = (
            slope_at(before, axis, point),
            slope_part(terms.last(), axis, point),
        );
        assert(by * a + by * b == by * (a + b)) by (nonlinear_arith);
        assert((by * by) * first + (by * by) * second == (by * by) * (first + second))
            by (nonlinear_arith);
        first + second
    }
}

} // verus!
