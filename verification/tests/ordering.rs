use feg_case_studies::grouping::{group_by_key, order_by_level, order_by_width, ordered_groups};
use feg_case_studies::order::{
    extreme_value, finite_scalars, least_place, middle_values, percentile_95, sorted_scalars,
};
use feg_case_studies::scalar::Scalar;
use feg_case_studies::text::{count_text, decimal_text, join_lines, list_text, signed_text, three_digit_text};

fn scalar(value: f64) -> Scalar {
    Scalar::from_bits(value.to_bits())
}

fn scalars(values: &[f64]) -> Vec<Scalar> {
    values.iter().map(|&v| scalar(v)).collect()
}

fn floats(values: &[Scalar]) -> Vec<f64> {
    values.iter().map(|v| f64::from_bits(v.bits)).collect()
}

#[test]
fn scalars_compare_as_numbers() {
    let samples = [
        f64::NEG_INFINITY,
        -1.5,
        -1e-300,
        -0.0,
        0.0,
        5e-324,
        0.25,
        1.0,
        f64::MAX,
        f64::INFINITY,
        f64::NAN,
        -f64::NAN,
    ];
    for a in samples {
        assert_eq!(scalar(a).is_nan(), a.is_nan());
        assert_eq!(scalar(a).is_finite(), a.is_finite());
        assert_eq!(scalar(a).is_positive(), a.is_finite() && a > 0.0);
        assert_eq!(scalar(a).is_nonnegative(), a.is_finite() && a >= 0.0);
        assert_eq!(scalar(a).is_zero(), a == 0.0);
        for b in samples {
            assert_eq!(scalar(a).less_than(scalar(b)), a < b);
            assert_eq!(scalar(a).at_most(scalar(b)), a <= b);
        }
    }
}

#[test]
fn values_are_sorted_and_summed_up() {
    let values = scalars(&[3.0, -1.0, 2.0, -1.0]);
    assert_eq!(floats(&sorted_scalars(&values)), vec![-1.0, -1.0, 2.0, 3.0]);
    let (low, high) = middle_values(&values).unwrap();
    assert_eq!(floats(&[low, high]), vec![-1.0, 2.0]);
    let (low, high) = middle_values(&scalars(&[5.0, 1.0, 4.0])).unwrap();
    assert_eq!(floats(&[low, high]), vec![4.0, 4.0]);
    assert!(middle_values(&Vec::new()).is_none());
    assert_eq!(
        floats(&finite_scalars(&scalars(&[1.0, f64::NAN, f64::INFINITY, 2.0]))),
        vec![1.0, 2.0]
    );
    let hundred: Vec<Scalar> = (0..101).rev().map(|i| scalar(i as f64)).collect();
    assert_eq!(percentile_95(&hundred), Some(scalar(95.0)));
    assert_eq!(percentile_95(&scalars(&[f64::NAN])), None);
    assert_eq!(least_place(&values), Some(1));
    assert_eq!(extreme_value(&scalars(&[f64::NAN, 2.0, 7.0]), false), Some(scalar(7.0)));
    assert_eq!(extreme_value(&scalars(&[f64::NAN, 2.0, 7.0]), true), Some(scalar(2.0)));
    assert_eq!(extreme_value(&Vec::new(), true), None);
}

#[test]
fn keys_are_grouped_in_order() {
    let keys = vec![(2, 1), (1, 9), (2, 0), (2, 1)];
    let groups = group_by_key(&keys);
    let found: Vec<((usize, usize), Vec<usize>)> =
        groups.into_iter().map(|g| (g.key, g.members)).collect();
    assert_eq!(
        found,
        vec![((1, 9), vec![1]), ((2, 0), vec![2]), ((2, 1), vec![0, 3])]
    );
    assert_eq!(order_by_level(&vec![3, 1, 2, 1], &vec![0, 1, 2, 3]), vec![1, 3, 2, 0]);
    assert_eq!(
        order_by_width(&scalars(&[0.25, 1.0, 0.5]), &vec![0, 1, 2]),
        vec![0, 2, 1]
    );
    let ordered = ordered_groups(&keys, &scalars(&[0.2, 1.0, 1.0, 0.1]));
    assert_eq!(ordered.len(), 1);
    assert_eq!(ordered[0].members, vec![3, 0]);
}

#[test]
fn numbers_are_written() {
    assert_eq!(decimal_text(0), "0");
    assert_eq!(decimal_text(u64::MAX), "18446744073709551615");
    assert_eq!(count_text(907), "907");
    assert_eq!(signed_text(-30), "-30");
    assert_eq!(signed_text(i64::MIN), "-9223372036854775808");
    assert_eq!(three_digit_text(7), "007");
    assert_eq!(three_digit_text(1234), "1234");
    assert_eq!(list_text(&vec![4, 8, 12]), "[4, 8, 12]");
    assert_eq!(list_text(&Vec::new()), "[]");
    assert_eq!(join_lines(&vec![String::from("a"), String::new()]), "a\n\n");
    for index in 0..999usize {
        assert!(three_digit_text(index) < three_digit_text(index + 1));
    }
}
