use linefit::{Dataset, DatasetError};

fn frame(x: Vec<f64>, y: Vec<f64>) -> Dataset<f64> {
    match Dataset::new(x, y, false) {
        Ok(d) => d,
        Err(e) => panic!("fixture refused: {:?}", e),
    }
}

fn squared_error(d: &Dataset<f64>, f: &dyn Fn(f64) -> f64) -> f64 {
    d.fold_pairs(0.0, |error: f64, x: f64, y: f64| {
        let delta = y - f(x);
        error + delta * delta
    })
}

#[test]
fn new_rejects_different_lengths() {
    let r = Dataset::new(vec![1.0, 2.0], vec![1.0], false);
    assert_eq!(r.err(), Some(DatasetError::LengthMismatch));
}

#[test]
fn new_rejects_one_empty_side_as_mismatch() {
    let r = Dataset::<f64>::new(vec![], vec![1.0], true);
    assert_eq!(r.err(), Some(DatasetError::LengthMismatch));
}

#[test]
fn new_rejects_empty() {
    let r = Dataset::<f64>::new(vec![], vec![], false);
    assert_eq!(r.err(), Some(DatasetError::Empty));
}

#[test]
fn new_keeps_samples_and_flag() {
    let d = Dataset::new(vec![1u64, 2, 3], vec![4u64, 5, 6], true).unwrap();
    assert_eq!(d.len(), 3);
    assert_eq!(d.x(), &vec![1u64, 2, 3]);
    assert_eq!(d.y(), &vec![4u64, 5, 6]);
    assert!(d.verbose());
}

#[test]
fn set_x_and_set_y_replace_one_sample() {
    let mut d = Dataset::new(vec![1i64, 2, 3], vec![4i64, 5, 6], false).unwrap();
    d.set_x(0, 8);
    d.set_y(2, 9);
    assert_eq!(d.x(), &vec![8i64, 2, 3]);
    assert_eq!(d.y(), &vec![4i64, 5, 9]);
    assert_eq!(d.len(), 3);
    assert!(!d.verbose());
}

#[test]
fn fold_pairs_visits_pairs_in_order() {
    let d = Dataset::new(vec![3u32, 1, 2], vec![30u32, 10, 20], false).unwrap();
    let seen = d.fold_pairs(Vec::new(), |mut acc: Vec<(u32, u32)>, x: u32, y: u32| {
        acc.push((x, y));
        acc
    });
    assert_eq!(seen, vec![(3, 30), (1, 10), (2, 20)]);
}

#[test]
fn fold_pairs_exact_integer_sum() {
    let d = Dataset::new(vec![1i64, 2, 3], vec![4i64, 5, 6], false).unwrap();
    let dot = d.fold_pairs(0i64, |acc: i64, x: i64, y: i64| acc + x * y);
    assert_eq!(dot, 32);
    let start = d.fold_pairs(7i64, |acc: i64, _x: i64, _y: i64| acc);
    assert_eq!(start, 7);
}

#[test]
fn squared_error_test() {
    let mut d = frame(vec![1.0, 2.0, 3.0, 4.0, 5.0], vec![1.0, 2.0, 4.0, 4.0, 5.0]);

    assert_eq!(squared_error(&d, &|x| x), 1.0);

    d.set_x(0, 8.0);
    d.set_x(2, 2.0);

    assert_eq!(squared_error(&d, &|x| x), 53.0);
}

#[test]
fn mean_squared_error_test() {
    let mut d = frame(vec![1.0, 2.0, 3.0, 4.0, 5.0], vec![1.0, 2.0, 4.0, 4.0, 5.0]);

    assert_eq!(squared_error(&d, &|x| x) / d.len() as f64, 0.2);

    d.set_x(0, 8.0);
    d.set_x(2, 2.0);

    assert_eq!(squared_error(&d, &|x| x) / d.len() as f64, 10.6);
}

#[test]
fn squared_error_zero_for_exact_predictor() {
    let d = frame(vec![1.0, 2.0, 3.0], vec![3.0, 5.0, 7.0]);
    assert_eq!(squared_error(&d, &|x| 2.0 * x + 1.0), 0.0);
    assert!(squared_error(&d, &|x| 2.0 * x) > 0.0);
}

#[test]
fn squared_error_repeats_bit_for_bit() {
    let d = frame(vec![3.0, 2.0, 1.0, 4.3, 3.4], vec![13.0, 10.0, 7.0, 16.9, 14.2]);
    let f = |x: f64| 2.9 * x + 4.1;
    let first = squared_error(&d, &f);
    let second = squared_error(&d, &f);
    assert_eq!(first.to_bits(), second.to_bits());
    assert_eq!(d.x(), &vec![3.0, 2.0, 1.0, 4.3, 3.4]);
}
