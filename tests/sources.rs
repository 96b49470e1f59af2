use fmm_translation::sources::{cube_sources, unit_plane_sources};

#[test]
fn unit_plane_order_two() {
    let grid = unit_plane_sources(2);
    assert_eq!(grid.nrows(), 2);
    assert_eq!(grid.ncols(), 4);
    // Numerators over p + 1 = 3: (1/3, 1/3), (1/3, 2/3), (2/3, 1/3), (2/3, 2/3).
    assert_eq!(grid.to_rows(), vec![vec![1, 1, 2, 2], vec![1, 2, 1, 2]]);
}

#[test]
fn unit_plane_values_inside_and_evenly_spaced() {
    let p: usize = 4;
    let grid = unit_plane_sources(p);
    let rows = grid.to_rows();
    for c in 0..p * p {
        assert!(rows[0][c] >= 1 && rows[0][c] <= p);
        assert!(rows[1][c] >= 1 && rows[1][c] <= p);
        if c % p + 1 < p {
            assert_eq!(rows[1][c + 1], rows[1][c] + 1);
            assert_eq!(rows[0][c + 1], rows[0][c]);
        }
    }
}

#[test]
fn unit_plane_order_zero_is_empty() {
    let grid = unit_plane_sources(0);
    assert_eq!(grid.nrows(), 2);
    assert_eq!(grid.ncols(), 0);
}

#[test]
fn cube_sources_shape_order_three() {
    let points = cube_sources(3);
    assert_eq!((points.nrows(), points.ncols()), (3, 54));
}

#[test]
fn cube_sources_shape_order_five() {
    let points = cube_sources(5);
    assert_eq!((points.nrows(), points.ncols()), (3, 150));
}

#[test]
fn cube_sources_order_one_faces() {
    // One point per face, at the centre of the face: numerators over 2.
    let points = cube_sources(1);
    assert_eq!(
        points.to_rows(),
        vec![
            vec![1, 1, 1, 1, 0, 2],
            vec![1, 1, 0, 2, 1, 1],
            vec![0, 2, 1, 1, 1, 1],
        ]
    );
}

#[test]
fn cube_sources_each_point_on_exactly_one_face() {
    for p in 1..6usize {
        let rows = cube_sources(p).to_rows();
        let top = p + 1;
        for n in 0..6 * p * p {
            let on_side = (0..3).filter(|&d| rows[d][n] == 0 || rows[d][n] == top).count();
            assert_eq!(on_side, 1);
            for d in 0..3 {
                assert!(rows[d][n] <= top);
            }
            let face = n / (p * p);
            let fixed = [2, 2, 1, 1, 0, 0][face];
            let side = if face % 2 == 0 { 0 } else { top };
            assert_eq!(rows[fixed][n], side);
        }
    }
}

#[test]
fn cube_sources_faces_carry_plane_grid() {
    let p: usize = 2;
    let plane = unit_plane_sources(p).to_rows();
    let rows = cube_sources(p).to_rows();
    let m = p * p;
    for c in 0..m {
        let (a, b) = (plane[0][c], plane[1][c]);
        assert_eq!((rows[0][c], rows[1][c], rows[2][c]), (a, b, 0));
        assert_eq!((rows[0][m + c], rows[1][m + c], rows[2][m + c]), (a, b, 3));
        assert_eq!((rows[0][2 * m + c], rows[1][2 * m + c], rows[2][2 * m + c]), (a, 0, b));
        assert_eq!((rows[0][3 * m + c], rows[1][3 * m + c], rows[2][3 * m + c]), (a, 3, b));
        assert_eq!((rows[0][4 * m + c], rows[1][4 * m + c], rows[2][4 * m + c]), (0, a, b));
        assert_eq!((rows[0][5 * m + c], rows[1][5 * m + c], rows[2][5 * m + c]), (3, a, b));
    }
}
