use intention_field::potential::positions_along;

#[test]
fn sample_positions_one_per_coordinate() {
    let base = vec![5.0, 5.0];
    let coords: Vec<f64> = (0..11).map(|i| i as f64).collect();
    let points = positions_along(&base, 0, &coords);
    assert_eq!(points.len(), 11);
    for (i, p) in points.iter().enumerate() {
        assert_eq!(p, &vec![i as f64, 5.0]);
    }
}

#[test]
fn sample_positions_vary_only_chosen_dimension() {
    let base = vec![1u32, 2, 3];
    let points = positions_along(&base, 2, &vec![7, 8]);
    assert_eq!(points, vec![vec![1, 2, 7], vec![1, 2, 8]]);
}

#[test]
fn sample_positions_outside_dimensions_repeat_base() {
    let base = vec![1u32, 2];
    let points = positions_along(&base, 5, &vec![9, 9, 9]);
    assert_eq!(points, vec![vec![1, 2], vec![1, 2], vec![1, 2]]);
}

#[test]
fn sample_positions_without_coordinates_is_empty() {
    let base = vec![1u32, 2];
    let points = positions_along(&base, 0, &Vec::new());
    assert!(points.is_empty());
}

#[test]
fn test_sample_1d() {
    let base = vec![5.0, 5.0];
    let (lo, hi, n_points) = (0.0, 10.0, 11usize);
    let step = (hi - lo) / (n_points - 1).max(1) as f64;
    let coords: Vec<f64> = (0..n_points).map(|i| lo + i as f64 * step).collect();
    let samples = positions_along(&base, 0, &coords);
    assert_eq!(samples.len(), 11);
}
