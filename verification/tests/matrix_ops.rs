use nural::matrix::Matrix;
use nural::rng::WeightRng;

fn mat(cols: usize, vals: &[f64]) -> Matrix {
    Matrix {
        cols,
        data: vals.iter().map(|v| v.to_bits()).collect(),
    }
}

fn vals(m: &Matrix) -> Vec<f64> {
    m.data.iter().map(|b| f64::from_bits(*b)).collect()
}

#[test]
fn transpose_swaps_rows_and_columns() {
    let m = mat(3, &[1.0, 2.0, 3.0, 4.0, 5.0, 6.0]);
    let t = m.transpose();
    assert_eq!(t.cols, 2);
    assert_eq!(vals(&t), vec![1.0, 4.0, 2.0, 5.0, 3.0, 6.0]);
}

#[test]
fn transpose_twice_gives_back_the_matrix() {
    let m = mat(3, &[1.5, -2.25, 3.0, 0.0, -0.5, 6.125]);
    let tt = m.transpose().transpose();
    assert_eq!(tt.cols, m.cols);
    assert_eq!(tt.data, m.data);
}

#[test]
fn mul_has_the_product_shape() {
    // (2 x 3) . (3 x 2) -> (2 x 2)
    let a = mat(3, &[1.0, 2.0, 3.0, 4.0, 5.0, 6.0]);
    let b = mat(2, &[7.0, 8.0, 9.0, 10.0, 11.0, 12.0]);
    let c = a.mul(&b);
    assert_eq!(c.cols, 2);
    assert_eq!(c.data.len(), 4);
    // row-by-column dot products accumulated left to right from zero
    let expect = vec![
        0.0 + 1.0 * 7.0 + 2.0 * 9.0 + 3.0 * 11.0,
        0.0 + 1.0 * 8.0 + 2.0 * 10.0 + 3.0 * 12.0,
        0.0 + 4.0 * 7.0 + 5.0 * 9.0 + 6.0 * 11.0,
        0.0 + 4.0 * 8.0 + 5.0 * 10.0 + 6.0 * 12.0,
    ];
    assert_eq!(vals(&c), expect);
}

#[test]
fn elementwise_operations_match_plain_arithmetic() {
    let a = mat(2, &[1.0, 2.5, -3.0, 4.0]);
    let b = mat(2, &[0.5, -1.5, 2.0, 8.0]);
    assert_eq!(vals(&a.add(&b)), vec![1.5, 1.0, -1.0, 12.0]);
    assert_eq!(vals(&a.sub(&b)), vec![0.5, 4.0, -5.0, -4.0]);
    assert_eq!(vals(&a.dot_mul(&b)), vec![0.5, -3.75, -6.0, 32.0]);
    assert_eq!(vals(&a.scale(2.0f64.to_bits())), vec![2.0, 5.0, -6.0, 8.0]);
}

#[test]
fn new_is_all_zero() {
    let m = Matrix::new(2, 3);
    assert_eq!(m.cols, 3);
    assert_eq!(vals(&m), vec![0.0; 6]);
}

#[test]
fn from_wraps_a_vector_as_one_row() {
    let v: Vec<u64> = [1.0f64, 2.0, 3.0].iter().map(|x| x.to_bits()).collect();
    let m = Matrix::from(&v);
    assert_eq!(m.cols, 3);
    assert_eq!(m.rows(), 1);
    assert_eq!(m.data, v);
}

#[test]
fn rnd_is_reproducible_from_the_seed() {
    let mut r1 = WeightRng::new(42);
    let mut r2 = WeightRng::new(42);
    let a = Matrix::rnd(3, 4, &mut r1);
    let b = Matrix::rnd(3, 4, &mut r2);
    assert_eq!(a.data, b.data);
    assert_eq!(a.cols, 4);
    assert_eq!(a.data.len(), 12);
    let mut r3 = WeightRng::new(43);
    let c = Matrix::rnd(3, 4, &mut r3);
    assert_ne!(a.data, c.data);
    for w in vals(&a) {
        assert!((-1.0..1.0).contains(&w));
    }
}
