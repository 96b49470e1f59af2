//! Layout of the check surface: points on the faces of a cube.
//!
//! Coordinates are kept exactly, as integer numerators over the common
//! denominator `p + 1` in units of the cube's edge length. A numerator `k` on
//! axis `d` stands for the coordinate `origin[d] + length * k / (p + 1)`.
use crate::matrix::{has_shape, Matrix};
use vstd::arithmetic::div_mod::lemma_fundamental_div_mod;
use vstd::prelude::*;

verus! {

/// Position of the grid point `(i, j)` of a `p x p` plane grid, row-major over `i` then `j`.
pub open spec fn plane_index(p: nat, i: int, j: int) -> int {
    i * p + j
}

/// Whether `r` is the plane grid of order `p`: two rows of `p * p` numerators
/// with the point `(i, j)` at `(i + 1, j + 1)`.
pub open spec fn is_unit_plane(p: nat, r: Seq<Seq<usize>>) -> bool {
    &&& has_shape(r, 2, p * p)
    &&& forall|i: int, j: int|
        0 <= i < p && 0 <= j < p ==> {
            &&& r[0][#[trigger] plane_index(p, i, j)] == i + 1
            &&& r[1][plane_index(p, i, j)] == j + 1
        }
}

/// The axis held fixed on a face: bottom and top (0, 1) fix z, front and back
/// (2, 3) fix y, left and right (4, 5) fix x.
pub open spec fn face_axis(face: int) -> int {
    if face <= 1 {
        2
    } else if face <= 3 {
        1
    } else {
        0
    }
}

/// Numerator on `axis` of the point that the plane point `(a, b)` becomes on
/// `face` of a cube of order `p`. The plane's first coordinate goes to the lower
/// free axis, its second to the higher; the fixed axis is at `0` on faces 0, 2, 4
/// and at `p + 1` on faces 1, 3, 5.
pub open spec fn face_coordinate(p: nat, face: int, axis: int, a: int, b: int) -> int {
    let fixed = face_axis(face);
    if axis == fixed {
        if face % 2 == 0 {
            0
        } else {
            (p + 1) as int
        }
    } else if axis == 0 || (axis == 1 && fixed == 0) {
        a
    } else {
        b
    }
}

/// Position of the grid point `(i, j)` of `face` among the `6 * p * p` cube points.
pub open spec fn cube_index(p: nat, face: int, i: int, j: int) -> int {
    face * (p * p) + i * p + j
}

/// Whether `r` is the check surface of order `p`: three rows of `6 * p * p`
/// numerators, face after face, each face holding the plane grid.
pub open spec fn is_cube_surface(p: nat, r: Seq<Seq<usize>>) -> bool {
    &&& has_shape(r, 3, 6 * (p * p))
    &&& forall|f: int, i: int, j: int, axis: int|
        0 <= f < 6 && 0 <= i < p && 0 <= j < p && 0 <= axis < 3 ==> #[trigger] r[axis][cube_index(
            p,
            f,
            i,
            j,
        )] == face_coordinate(p, f, axis, i + 1, j + 1)
}

proof fn lemma_grid_index_bound(p: nat, i: int, j: int)
    requires
        0 <= i < p,
        0 <= j < p,
    ensures
        0 <= i * p + j < p * p,
        i * p + j + 1 <= (i + 1) * p,
{
    assert(0 <= i * p + j < p * p) by (nonlinear_arith)
        requires
            0 <= i < p,
            0 <= j < p,
    ;
    assert(i * p + j + 1 <= (i + 1) * p) by (nonlinear_arith)
        requires
            0 <= i < p,
            0 <= j < p,
    ;
}

/// The grid of order `p` on the open unit square, as numerators over `p + 1`:
/// row 0 holds the first coordinates, row 1 the second, for `i` and `j` in `1..=p`.
pub fn unit_plane_sources(p: usize) -> (r: Matrix<usize>)
    requires
        p * p <= usize::MAX,
    ensures
        r.wf(),
        r.spec_ncols() == p * p,
        is_unit_plane(p as nat, r@),
{
    let ghost pn = p as nat;
    let mut xs: Vec<usize> = Vec::new();
    let mut ys: Vec<usize> = Vec::new();
    let mut i: usize = 0;
    while i < p
        invariant
            p * p <= usize::MAX,
            pn == p,
            i <= p,
            xs@.len() == i * p,
            ys@.len() == i * p,
            forall|a: int, b: int|
                0 <= a < i && 0 <= b < p ==> {
                    &&& xs@[#[trigger] plane_index(pn, a, b)] == a + 1
                    &&& ys@[plane_index(pn, a, b)] == b + 1
                },
        decreases p - i,
    {
        let mut j: usize = 0;
        while j < p
            invariant
                p * p <= usize::MAX,
                pn == p,
                i < p,
                j <= p,
                xs@.len() == i * p + j,
                ys@.len() == i * p + j,
                forall|a: int, b: int|
                    0 <= a < i && 0 <= b < p ==> {
                        &&& xs@[#[trigger] plane_index(pn, a, b)] == a + 1
                        &&& ys@[plane_index(pn, a, b)] == b + 1
                    },
                forall|b: int|
                    0 <= b < j ==> {
                        &&& xs@[#[trigger] plane_index(pn, i as int, b)] == i + 1
                        &&& ys@[plane_index(pn, i as int, b)] == b + 1
                    },
            decreases p - j,
        {
            proof {
                lemma_grid_index_bound(pn, i as int, j as int);
                assert forall|a: int, b: int| 0 <= a < i && 0 <= b < p implies plane_index(
                    pn,
                    a,
                    b,
                ) < i * p by {
                    lemma_grid_index_bound(pn, a, b);
                    assert((a + 1) * p <= i * p) by (nonlinear_arith)
                        requires
                            a + 1 <= i,
                    ;
                }
            }
            xs.push(i + 1);
            ys.push(j + 1);
            j = j + 1;
        }
        proof {
            assert(i * p + p == (i + 1) * p) by (nonlinear_arith);
        }
        i = i + 1;
    }
    let ghost rows = seq![xs@, ys@];
    proof {
        assert(p * p == (p as int) * (p as int));
    }
    let mut all: Vec<Vec<usize>> = Vec::new();
    all.push(xs);
    all.push(ys);
    assert(all@.map_values(|v: Vec<usize>| v@) =~= rows);
    Matrix::from_shaped_rows(p * p, all)
}

/// Numerators of the point that the plane point `(a, b)` becomes on `face`.
fn face_point(p: usize, face: usize, a: usize, b: usize) -> (r: (usize, usize, usize))
    requires
        p < usize::MAX,
        face < 6,
    ensures
        r.0 == face_coordinate(p as nat, face as int, 0, a as int, b as int),
        r.1 == face_coordinate(p as nat, face as int, 1, a as int, b as int),
        r.2 == face_coordinate(p as nat, face as int, 2, a as int, b as int),
{
    let top: usize = p + 1;
    if face == 0 {
        (a, b, 0)
    } else if face == 1 {
        (a, b, top)
    } else if face == 2 {
        (a, 0, b)
    } else if face == 3 {
        (a, top, b)
    } else if face == 4 {
        (0, a, b)
    } else {
        (top, a, b)
    }
}

/// Position of the `c`-th point of `face` when each face holds `m` points.
pub open spec fn surface_index(m: nat, face: int, c: int) -> int {
    face * m + c
}

/// The check surface of order `p`: the plane grid laid on the six faces of a
/// cube, in the order bottom (z = 0), top (z = top), front (y = 0), back
/// (y = top), left (x = 0), right (x = top), where `top` is `p + 1`. The result
/// has three rows (x, y, z) and one column per point.
pub fn cube_sources(p: usize) -> (r: Matrix<usize>)
    requires
        6 * (p * p) <= usize::MAX,
    ensures
        r.wf(),
        r.spec_ncols() == 6 * (p * p),
        is_cube_surface(p as nat, r@),
{
    let ghost pn = p as nat;
    proof {
        assert(p < usize::MAX && p * p <= usize::MAX) by (nonlinear_arith)
            requires
                6 * (p * p) <= usize::MAX,
        ;
    }
    let m: usize = p * p;
    let plane = unit_plane_sources(p);
    let mut xs: Vec<usize> = Vec::new();
    let mut ys: Vec<usize> = Vec::new();
    let mut zs: Vec<usize> = Vec::new();
    let mut face: usize = 0;
    while face < 6
        invariant
            6 * m <= usize::MAX,
            m == p * p,
            pn == p,
            p < usize::MAX,
            plane.wf(),
            plane.spec_ncols() == m,
            is_unit_plane(pn, plane@),
            face <= 6,
            xs@.len() == face * m,
            ys@.len() == face * m,
            zs@.len() == face * m,
            forall|f: int, c: int|
                0 <= f < face && 0 <= c < m ==> {
                    &&& xs@[#[trigger] surface_index(m as nat, f, c)] == face_coordinate(
                        pn,
                        f,
                        0,
                        plane@[0][c] as int,
                        plane@[1][c] as int,
                    )
                    &&& ys@[surface_index(m as nat, f, c)] == face_coordinate(
                        pn,
                        f,
                        1,
                        plane@[0][c] as int,
                        plane@[1][c] as int,
                    )
                    &&& zs@[surface_index(m as nat, f, c)] == face_coordinate(
                        pn,
                        f,
                        2,
                        plane@[0][c] as int,
                        plane@[1][c] as int,
                    )
                },
        decreases 6 - face,
    {
        let mut c: usize = 0;
        while c < m
            invariant
                6 * m <= usize::MAX,
                m == p * p,
                pn == p,
                p < usize::MAX,
                plane.wf(),
                plane.spec_ncols() == m,
                plane.spec_nrows() == 2,
                face < 6,
                c <= m,
                xs@.len() == face * m + c,
                ys@.len() == face * m + c,
                zs@.len() == face * m + c,
                forall|f: int, c2: int|
                    0 <= f < face && 0 <= c2 < m ==> {
                        &&& xs@[#[trigger] surface_index(m as nat, f, c2)] == face_coordinate(
                            pn,
                            f,
                            0,
                            plane@[0][c2] as int,
                            plane@[1][c2] as int,
                        )
                        &&& ys@[surface_index(m as nat, f, c2)] == face_coordinate(
                            pn,
                            f,
                            1,
                            plane@[0][c2] as int,
                            plane@[1][c2] as int,
                        )
                        &&& zs@[surface_index(m as nat, f, c2)] == face_coordinate(
                            pn,
                            f,
                            2,
                            plane@[0][c2] as int,
                            plane@[1][c2] as int,
                        )
                    },
                forall|c2: int|
                    0 <= c2 < c ==> {
                        &&& xs@[#[trigger] surface_index(m as nat, face as int, c2)]
                            == face_coordinate(
                            pn,
                            face as int,
                            0,
                            plane@[0][c2] as int,
                            plane@[1][c2] as int,
                        )
                        &&& ys@[surface_index(m as nat, face as int, c2)] == face_coordinate(
                            pn,
                            face as int,
                            1,
                            plane@[0][c2] as int,
                            plane@[1][c2] as int,
                        )
                        &&& zs@[surface_index(m as nat, face as int, c2)] == face_coordinate(
                            pn,
                            face as int,
                            2,
                            plane@[0][c2] as int,
                            plane@[1][c2] as int,
                        )
                    },
            decreases m - c,
        {
            proof {
                assert(face * m + c < 6 * m) by (nonlinear_arith)
                    requires
                        face < 6,
                        c < m,
                ;
                assert forall|f: int, c2: int| 0 <= f < face && 0 <= c2 < m implies surface_index(
                    m as nat,
                    f,
                    c2,
                ) < face * m by {
                    assert(f * m + c2 < face * m) by (nonlinear_arith)
                        requires
                            0 <= f < face,
                            0 <= c2 < m,
                    ;
                }
            }
            let a: usize = plane.get(0, c);
            let b: usize = plane.get(1, c);
            let point = face_point(p, face, a, b);
            xs.push(point.0);
            ys.push(point.1);
            zs.push(point.2);
            c = c + 1;
        }
        proof {
            assert(face * m + m == (face + 1) * m) by (nonlinear_arith);
        }
        face = face + 1;
    }
    let ghost rows = seq![xs@, ys@, zs@];
    let mut all: Vec<Vec<usize>> = Vec::new();
    all.push(xs);
    all.push(ys);
    all.push(zs);
    assert(all@.map_values(|v: Vec<usize>| v@) =~= rows);
    let r = Matrix::from_shaped_rows(6 * m, all);
    proof {
        assert forall|f: int, i: int, j: int, axis: int|
            0 <= f < 6 && 0 <= i < pn && 0 <= j < pn && 0 <= axis < 3 implies #[trigger] r@[axis][cube_index(
            pn,
            f,
            i,
            j,
        )] == face_coordinate(pn, f, axis, i + 1, j + 1) by {
            lemma_grid_index_bound(pn, i, j);
            let c = plane_index(pn, i, j);
            assert(cube_index(pn, f, i, j) == surface_index(m as nat, f, c));
            assert(plane@[0][c] == i + 1);
            assert(plane@[1][c] == j + 1);
        }
    }
    r
}

/// Whether a numerator lies on the cube's boundary in its axis.
pub open spec fn on_boundary(p: nat, x: int) -> bool {
    x == 0 || x == p + 1
}

/// Splits a point index of the check surface into its face and grid position.
proof fn lemma_split_cube_index(p: nat, n: int) -> (r: (int, int, int))
    requires
        p >= 1,
        0 <= n < 6 * (p * p),
    ensures
        0 <= r.0 < 6,
        0 <= r.1 < p,
        0 <= r.2 < p,
        n == cube_index(p, r.0, r.1, r.2),
{
    let m = p * p;
    assert(m > 0) by (nonlinear_arith)
        requires
            p >= 1,
            m == p * p,
    ;
    lemma_fundamental_div_mod(n, m as int);
    let f = n / (m as int);
    let c = n % (m as int);
    assert(0 <= c < m) by (nonlinear_arith)
        requires
            m > 0,
            c == n % (m as int),
    ;
    assert(0 <= f < 6) by (nonlinear_arith)
        requires
            n == m * f + c,
            0 <= c < m,
            0 <= n < 6 * m,
    ;
    lemma_fundamental_div_mod(c, p as int);
    let i = c / (p as int);
    let j = c % (p as int);
    assert(0 <= j < p) by (nonlinear_arith)
        requires
            p > 0,
            j == c % (p as int),
    ;
    assert(0 <= i < p) by (nonlinear_arith)
        requires
            m == p * p,
            c == p * i + j,
            0 <= j < p,
            0 <= c < p * p,
    ;
    assert(n == f * m + i * p + j) by (nonlinear_arith)
        requires
            m == p * p,
            n == m * f + c,
            c == p * i + j,
    ;
    (f, i, j)
}

/// Every point of the check surface lies on exactly one face: one of its
/// coordinates is at the face's side of the cube, `0` or `p + 1`, and the other
/// two are strictly between.
pub proof fn lemma_cube_point_on_one_face(p: nat, r: Seq<Seq<usize>>, n: int)
    requires
        is_cube_surface(p, r),
        0 <= n < 6 * (p * p),
    ensures
        exists|d: int|
            0 <= d < 3 && on_boundary(p, r[d][n] as int) && forall|e: int|
                0 <= e < 3 && e != d ==> 0 < #[trigger] r[e][n] < p + 1,
        forall|e: int| 0 <= e < 3 ==> 0 <= #[trigger] r[e][n] <= p + 1,
{
    if p == 0 {
        assert(6 * (p * p) == 0);
    }
    let (f, i, j) = lemma_split_cube_index(p, n);
    let d = face_axis(f);
    assert(r[0][cube_index(p, f, i, j)] == face_coordinate(p, f, 0, i + 1, j + 1));
    assert(r[1][cube_index(p, f, i, j)] == face_coordinate(p, f, 1, i + 1, j + 1));
    assert(r[2][cube_index(p, f, i, j)] == face_coordinate(p, f, 2, i + 1, j + 1));
    assert(on_boundary(p, r[d][n] as int));
}

/// The plane grid lies strictly inside the unit square and is evenly spaced:
/// neighbours along either direction differ by one step of `1 / (p + 1)`.
pub proof fn lemma_unit_plane_evenly_spaced(p: nat, r: Seq<Seq<usize>>, i: int, j: int)
    requires
        is_unit_plane(p, r),
        0 <= i < p,
        0 <= j < p,
    ensures
        0 < r[0][plane_index(p, i, j)] < p + 1,
        0 < r[1][plane_index(p, i, j)] < p + 1,
        j + 1 < p ==> r[1][plane_index(p, i, j + 1)] == r[1][plane_index(p, i, j)] + 1
            && r[0][plane_index(p, i, j + 1)] == r[0][plane_index(p, i, j)],
        i + 1 < p ==> r[0][plane_index(p, i + 1, j)] == r[0][plane_index(p, i, j)] + 1
            && r[1][plane_index(p, i + 1, j)] == r[1][plane_index(p, i, j)],
{
    if j + 1 < p {
        assert(r[0][plane_index(p, i, j + 1)] == i + 1);
    }
    if i + 1 < p {
        assert(r[0][plane_index(p, i + 1, j)] == i + 2);
    }
}

} // verus!
