use butter::math::matrix::Matrix;

#[test]
fn matrix_addition() {
    let m1 = Matrix::new([
        [1, 2],
        [3, 4],
    ]);

    let m2 = Matrix::new([
        [5, 6],
        [7, 8],
    ]);

    let m3 = Matrix::new([
        [6, 8],
        [10, 12],
    ]);

    assert_eq!(m1 + m2, m3)
}

#[test]
fn matrix_sub() {
    let m1 = Matrix::new([
        [4, 2],
        [1, 6],
    ]);

    let m2 = Matrix::new([
        [2, 4],
        [0, 1],
    ]);

    let m3 = Matrix::new([
        [2, -2],
        [1, 5],
    ]);

    assert_eq!(m1 - m2, m3)
}

#[test]
fn matrix_scale() {
    let m1 = Matrix::new([
        [1, 3],
        [2, 4],
    ]);

    let m2 = Matrix::new([
        [2, 6],
        [4, 8],
    ]);

    assert_eq!(m1.scale(2), m2);
}

#[test]
fn matrix_multiplication() {
    let m1 = Matrix::new([
        [1, 3],
        [2, 4],
    ]);

    let m2 = Matrix::new([
        [5, 7],
        [6, 8],
    ]);

    let m3 = Matrix::new([
        [19, 43],
        [22, 50],
    ]);

    assert_eq!(m1 * m2, m3);

    let m1 = Matrix::new([
        [1, 0, 0, 0],
        [0, 1, 0, 0],
        [0, 0, 1, 0],
        [0, 0, 0, 1],
    ]);

    let m2 = Matrix::new([
        [5, 7, 3, 5],
    ]);

    assert_eq!(m1 * m2, m2)
}

#[test]
fn matrix_index_gives_columns() {
    let m = Matrix::new([
        [1, 2, 3],
        [4, 5, 6],
    ]);
    assert_eq!(m[0], [1, 2, 3]);
    assert_eq!(m[1], [4, 5, 6]);
}

#[test]
fn matrix_scale_by_negative_and_zero() {
    let m = Matrix::new([[3, -4], [0, 7]]);
    assert_eq!(m.scale(-1), Matrix::new([[-3, 4], [0, -7]]));
    assert_eq!(m.scale(0), Matrix::new([[0, 0], [0, 0]]));
}

#[test]
fn matrix_sum_then_difference_gives_back() {
    let a = Matrix::new([[1, -2], [30, 4]]);
    let b = Matrix::new([[-7, 8], [9, 100]]);
    assert_eq!((a + b) - b, a);
}

#[test]
fn matrix_product_with_identity() {
    let id = Matrix::new([[1, 0], [0, 1]]);
    let m = Matrix::new([[2, 3], [4, 5]]);
    assert_eq!(id * m, m);
    assert_eq!(m * id, m);
}

#[test]
fn integer_vectors() {
    let v = butter::math::vector::Vec2i::new(3, -4);
    assert_eq!((v.x, v.y), (3, -4));
}
