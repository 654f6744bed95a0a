use tuner_tools::order::{
    descending, find_greatest, find_least, first_least, keep_finite, last_greatest, median, places,
    ranks, sort, stable_order, upper_median, Middle,
};
use tuner_tools::reading::Reading;

fn r(x: f64) -> Reading {
    Reading { bits: x.to_bits() }
}

fn samples() -> Vec<f64> {
    vec![
        0.0,
        -0.0,
        1.0,
        -1.0,
        1.5,
        f64::MIN_POSITIVE,
        -f64::MIN_POSITIVE,
        5e-324,
        f64::MAX,
        f64::MIN,
        f64::INFINITY,
        f64::NEG_INFINITY,
        f64::NAN,
        -f64::NAN,
        0.1 + 0.2,
        0.3,
    ]
}

#[test]
fn readings_compare_as_doubles_do() {
    for &a in &samples() {
        for &b in &samples() {
            assert_eq!(r(a).lt(&r(b)), a < b, "{a} < {b}");
            assert_eq!(r(a).le(&r(b)), a <= b, "{a} <= {b}");
            let total = a.total_cmp(&b);
            assert_eq!(r(a).key().cmp(&r(b).key()), total, "{a} against {b}");
        }
    }
}

#[test]
fn readings_are_of_the_kind_that_doubles_are() {
    for &a in &samples() {
        assert_eq!(r(a).is_nan(), a.is_nan());
        assert_eq!(r(a).is_finite(), a.is_finite());
        assert_eq!(r(a).abs().bits, a.abs().to_bits());
    }
}

#[test]
fn the_rank_of_the_two_zeros_is_one() {
    assert_eq!(r(0.0).standing(), r(-0.0).standing());
    assert!(r(0.0).key() != r(-0.0).key());
}

#[test]
fn sorting_is_the_total_order() {
    let mut expected = samples();
    expected.sort_by(f64::total_cmp);
    let got: Vec<u64> = sort(&samples().into_iter().map(r).collect()).iter().map(|x| x.bits).collect();
    let want: Vec<u64> = expected.iter().map(|x| x.to_bits()).collect();
    assert_eq!(got, want);
}

#[test]
fn a_stable_order_keeps_equals_in_order() {
    assert_eq!(stable_order(&vec![3, 1, 2, 1, 3]), vec![1, 3, 2, 0, 4]);
    assert_eq!(stable_order(&Vec::new()), Vec::<usize>::new());
}

#[test]
fn the_first_of_the_least_and_the_last_of_the_greatest() {
    assert_eq!(first_least(&vec![2, 1, 1, 3]), Some(1));
    assert_eq!(last_greatest(&vec![3, 1, 3, 2]), Some(2));
    assert_eq!(first_least(&Vec::new()), None);
}

#[test]
fn medians_of_odd_and_even_numbers() {
    let v = |xs: &[f64]| xs.iter().map(|&x| r(x)).collect::<Vec<_>>();
    assert_eq!(median(&v(&[3.0, f64::NAN, 1.0, 2.0])), Middle::One(r(2.0)));
    assert_eq!(median(&v(&[4.0, 1.0, 3.0, 2.0])), Middle::Two(r(2.0), r(3.0)));
    assert_eq!(median(&v(&[f64::INFINITY])), Middle::Nothing);
    assert_eq!(upper_median(&v(&[4.0, 1.0, 3.0, 2.0])), Some(r(3.0)));
    assert_eq!(upper_median(&v(&[f64::INFINITY, 1.0, 3.0])), Some(r(3.0)));
    assert_eq!(upper_median(&v(&[f64::INFINITY, 1.0])), Some(r(f64::INFINITY)));
    assert_eq!(upper_median(&v(&[f64::NEG_INFINITY, -1.0, 5.0])), Some(r(-1.0)));
    assert_eq!(upper_median(&Vec::new()), None);
    assert_eq!(keep_finite(&v(&[f64::NAN, 1.0])), v(&[1.0]));
}

#[test]
fn the_first_least_below_a_bar() {
    let v = |xs: &[f64]| xs.iter().map(|&x| r(x)).collect::<Vec<_>>();
    assert_eq!(find_least(&v(&[3.0, 1.0, f64::NAN, 1.0]), r(f64::INFINITY)), Some(1));
    assert_eq!(find_least(&v(&[3.0, 4.0]), r(2.0)), None);
    assert_eq!(find_least(&v(&[f64::NAN, f64::INFINITY]), r(f64::INFINITY)), None);
    assert_eq!(find_greatest(&v(&[0.0, 2.0, 2.0, -3.0]), r(0.0)), Some(1));
    assert_eq!(find_greatest(&v(&[0.0, -0.0]), r(0.0)), None);
}

#[test]
fn from_the_greatest_down() {
    let v: Vec<Reading> = [1.0, 3.0, 2.0, 3.0].iter().map(|&x| r(x)).collect();
    assert_eq!(descending(&v), vec![1, 3, 2, 0]);
    assert_eq!(ranks(&v).len(), 4);
    assert_eq!(places(&v).len(), 4);
}
