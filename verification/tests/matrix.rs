use ray_tracer::matrix::{get_submatrix, identity, transpose};

#[test]
fn transposing_a_matrix() {
    let m = [
        [0., 9., 3., 0.],
        [9., 8., 0., 8.],
        [1., 8., 5., 3.],
        [0., 0., 5., 8.],
    ];

    assert_eq!(
        transpose(&m),
        [
            [0., 9., 1., 0.],
            [9., 8., 8., 0.],
            [3., 0., 5., 5.],
            [0., 8., 3., 8.],
        ]
    );
}

#[test]
fn transposing_the_identity_matrix() {
    let m: [[f64; 4]; 4] = identity(0., 1.);

    assert_eq!(transpose(&m), identity::<f64, 4>(0., 1.));
}

#[test]
fn a_submatrix_of_a_3x3_matrix_is_a_2x2_matrix() {
    let m = [[1., 5., 0.], [-3., 2., 7.], [0., 6., -3.]];

    assert_eq!(get_submatrix::<f64, 3, 2>(&m, 0, 2), [[-3., 2.], [0., 6.]]);
}

#[test]
fn a_submatrix_of_a_4x4_matrix_is_a_3x3_matrix() {
    let m = [
        [-6., 1., 1., 6.],
        [-8., 5., 8., 6.],
        [-1., 0., 8., 2.],
        [-7., 1., -1., 1.],
    ];

    assert_eq!(
        get_submatrix::<f64, 4, 3>(&m, 2, 1),
        [[-6., 1., 6.], [-8., 8., 6.], [-7., -1., 1.]]
    );
}

#[test]
fn the_identity_has_ones_on_the_diagonal_only() {
    let m: [[i32; 3]; 3] = identity(0, 1);
    assert_eq!(m, [[1, 0, 0], [0, 1, 0], [0, 0, 1]]);
    let single: [[u8; 1]; 1] = identity(7, 9);
    assert_eq!(single, [[9]]);
}

#[test]
fn transposing_twice_gives_the_matrix_back() {
    let m = [[1, 2, 3], [4, 5, 6], [7, 8, 9]];
    assert_eq!(transpose(&m), [[1, 4, 7], [2, 5, 8], [3, 6, 9]]);
    assert_eq!(transpose(&transpose(&m)), m);
}

#[test]
fn removing_the_first_or_the_last_row_and_column() {
    let m = [[1, 2, 3], [4, 5, 6], [7, 8, 9]];
    assert_eq!(get_submatrix::<i32, 3, 2>(&m, 0, 0), [[5, 6], [8, 9]]);
    assert_eq!(get_submatrix::<i32, 3, 2>(&m, 2, 2), [[1, 2], [4, 5]]);
    assert_eq!(get_submatrix::<i32, 3, 2>(&m, 1, 1), [[1, 3], [7, 9]]);
    assert_eq!(get_submatrix::<i32, 3, 2>(&m, 0, 2), [[4, 5], [7, 8]]);
}
