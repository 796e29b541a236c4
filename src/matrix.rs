use vstd::prelude::*;

use crate::fixed::{abs, clamp_spec, in_range, saturate, LIMIT, ONE};

verus! {

/// A point or direction in fixed-point units.
#[derive(Clone, Copy, Debug, PartialEq, Eq, Structural)]
pub struct Vector3 {
    pub x: i64,
    pub y: i64,
    pub z: i64,
}

/// A pair of fixed-point values (texture coordinates).
#[derive(Clone, Copy, Debug, PartialEq, Eq, Structural)]
pub struct Vector2 {
    pub x: i64,
    pub y: i64,
}

/// A homogeneous point in fixed-point units.
#[derive(Clone, Copy, Debug, PartialEq, Eq, Structural)]
pub struct Vector4 {
    pub x: i64,
    pub y: i64,
    pub z: i64,
    pub w: i64,
}

/// The exact product of a matrix and a homogeneous point: each component is
/// counted in `ONE * ONE` units, so nothing is rounded.
#[derive(Clone, Copy, Debug, PartialEq, Eq, Structural)]
pub struct Wide4 {
    pub x: i128,
    pub y: i128,
    pub z: i128,
    pub w: i128,
}

/// A 4x4 matrix stored by rows: `m[r][c]` is row `r`, column `c`.
#[derive(Clone, Copy, Debug)]
pub struct Matrix {
    pub m: [[i64; 4]; 4],
}

impl Vector3 {
    pub open spec fn in_range(self) -> bool {
        in_range(self.x as int) && in_range(self.y as int) && in_range(self.z as int)
    }

    pub fn new(x: i64, y: i64, z: i64) -> (r: Vector3)
        ensures
            r.x == x,
            r.y == y,
            r.z == z,
    {
        Vector3 { x, y, z }
    }

    pub fn zero() -> (r: Vector3)
        ensures
            r.x == 0 && r.y == 0 && r.z == 0,
    {
        Vector3 { x: 0, y: 0, z: 0 }
    }
}

impl Vector2 {
    pub fn new(x: i64, y: i64) -> (r: Vector2)
        ensures
            r.x == x,
            r.y == y,
    {
        Vector2 { x, y }
    }
}

impl Vector4 {
    pub open spec fn in_range(self) -> bool {
        in_range(self.x as int) && in_range(self.y as int) && in_range(self.z as int)
            && in_range(self.w as int)
    }

    pub fn new(x: i64, y: i64, z: i64, w: i64) -> (r: Vector4)
        ensures
            r.x == x,
            r.y == y,
            r.z == z,
            r.w == w,
    {
        Vector4 { x, y, z, w }
    }
}

impl Matrix {
    /// Entry at row `r`, column `c`.
    pub open spec fn at(self, r: int, c: int) -> int {
        self.m[r][c] as int
    }

    pub open spec fn in_range(self) -> bool {
        forall|r: int, c: int| 0 <= r < 4 && 0 <= c < 4 ==> in_range(#[trigger] self.at(r, c))
    }

    /// Row `r` of the matrix applied to `v`, exactly.
    pub open spec fn row_dot(self, r: int, v: Vector4) -> int {
        self.at(r, 0) * v.x + self.at(r, 1) * v.y + self.at(r, 2) * v.z + self.at(r, 3) * v.w
    }
}

/// Builds a matrix from its sixteen entries given row by row.
pub fn new_matrix4(
    r0c0: i64, r0c1: i64, r0c2: i64, r0c3: i64,
    r1c0: i64, r1c1: i64, r1c2: i64, r1c3: i64,
    r2c0: i64, r2c1: i64, r2c2: i64, r2c3: i64,
    r3c0: i64, r3c1: i64, r3c2: i64, r3c3: i64,
) -> (r: Matrix)
    ensures
        r.m == [
            [r0c0, r0c1, r0c2, r0c3],
            [r1c0, r1c1, r1c2, r1c3],
            [r2c0, r2c1, r2c2, r2c3],
            [r3c0, r3c1, r3c2, r3c3],
        ],
{
    Matrix {
        m: [
            [r0c0, r0c1, r0c2, r0c3],
            [r1c0, r1c1, r1c2, r1c3],
            [r2c0, r2c1, r2c2, r2c3],
            [r3c0, r3c1, r3c2, r3c3],
        ],
    }
}

/// Builds a transform from a 3x3 block given row by row: no translation and
/// a homogeneous row of `(0, 0, 0, 1)`.
pub fn new_matrix3(
    r0c0: i64, r0c1: i64, r0c2: i64,
    r1c0: i64, r1c1: i64, r1c2: i64,
    r2c0: i64, r2c1: i64, r2c2: i64,
) -> (r: Matrix)
    ensures
        r.m == [
            [r0c0, r0c1, r0c2, 0],
            [r1c0, r1c1, r1c2, 0],
            [r2c0, r2c1, r2c2, 0],
            [0, 0, 0, ONE],
        ],
{
    new_matrix4(
        r0c0, r0c1, r0c2, 0,
        r1c0, r1c1, r1c2, 0,
        r2c0, r2c1, r2c2, 0,
        0, 0, 0, ONE,
    )
}

fn dot_row(row: &[i64; 4], v: &Vector4) -> (r: i128)
    requires
        forall|c: int| 0 <= c < 4 ==> in_range(#[trigger] row[c] as int),
        v.in_range(),
    ensures
        r == row[0] * v.x + row[1] * v.y + row[2] * v.z + row[3] * v.w,
{
    let l: i128 = LIMIT as i128;
    let a0 = row[0] as i128;
    let a1 = row[1] as i128;
    let a2 = row[2] as i128;
    let a3 = row[3] as i128;
    assert(-l * l <= a0 * (v.x as i128) <= l * l) by (nonlinear_arith)
        requires -l <= a0 <= l, -l <= v.x <= l;
    assert(-l * l <= a1 * (v.y as i128) <= l * l) by (nonlinear_arith)
        requires -l <= a1 <= l, -l <= v.y <= l;
    assert(-l * l <= a2 * (v.z as i128) <= l * l) by (nonlinear_arith)
        requires -l <= a2 <= l, -l <= v.z <= l;
    assert(-l * l <= a3 * (v.w as i128) <= l * l) by (nonlinear_arith)
        requires -l <= a3 <= l, -l <= v.w <= l;
    a0 * (v.x as i128) + a1 * (v.y as i128) + a2 * (v.z as i128) + a3 * (v.w as i128)
}

/// Multiplies a matrix by a homogeneous point. The product is exact, in
/// `ONE * ONE` units.
pub fn multiply_matrix_vector4(matrix: &Matrix, vector: &Vector4) -> (r: Wide4)
    requires
        matrix.in_range(),
        vector.in_range(),
    ensures
        r.x == matrix.row_dot(0, *vector),
        r.y == matrix.row_dot(1, *vector),
        r.z == matrix.row_dot(2, *vector),
        r.w == matrix.row_dot(3, *vector),
{
    proof {
        assert forall|r: int, c: int| 0 <= r < 4 && 0 <= c < 4 implies in_range(
            #[trigger] matrix.m[r][c] as int,
        ) by {
            assert(in_range(matrix.at(r, c)));
        }
    }
    Wide4 {
        x: dot_row(&matrix.m[0], vector),
        y: dot_row(&matrix.m[1], vector),
        z: dot_row(&matrix.m[2], vector),
        w: dot_row(&matrix.m[3], vector),
    }
}

/// Entry `(r, c)` of the product `a · b` in fixed-point units, before
/// saturation.
pub open spec fn product_entry(a: Matrix, b: Matrix, r: int, c: int) -> int {
    (a.at(r, 0) * b.at(0, c) + a.at(r, 1) * b.at(1, c) + a.at(r, 2) * b.at(2, c) + a.at(r, 3) * b.at(3, c))
        / (ONE as int)
}

/// The entry of `a · b`, saturated at the coordinate range.
pub open spec fn pe(a: Matrix, b: Matrix, r: int, c: int) -> i64 {
    clamp_spec(product_entry(a, b, r, c)) as i64
}

/// The matrix product `a · b`: applied to a point, `b` acts first.
pub open spec fn product(a: Matrix, b: Matrix) -> Matrix {
    Matrix {
        m: [
            [pe(a, b, 0, 0), pe(a, b, 0, 1), pe(a, b, 0, 2), pe(a, b, 0, 3)],
            [pe(a, b, 1, 0), pe(a, b, 1, 1), pe(a, b, 1, 2), pe(a, b, 1, 3)],
            [pe(a, b, 2, 0), pe(a, b, 2, 1), pe(a, b, 2, 2), pe(a, b, 2, 3)],
            [pe(a, b, 3, 0), pe(a, b, 3, 1), pe(a, b, 3, 2), pe(a, b, 3, 3)],
        ],
    }
}

proof fn lemma_entries_in_range(m: Matrix)
    requires
        m.in_range(),
    ensures
        forall|r: int, c: int| 0 <= r < 4 && 0 <= c < 4 ==> -LIMIT <= #[trigger] m.m[r][c] <= LIMIT,
{
    assert forall|r: int, c: int| 0 <= r < 4 && 0 <= c < 4 implies -LIMIT <= #[trigger] m.m[r][c] <= LIMIT by {
        assert(in_range(m.at(r, c)));
    }
}

fn product_entry_exec(a: &Matrix, b: &Matrix, r: usize, c: usize) -> (e: i64)
    requires
        a.in_range(),
        b.in_range(),
        r < 4,
        c < 4,
    ensures
        e == pe(*a, *b, r as int, c as int),
{
    proof {
        lemma_entries_in_range(*a);
        lemma_entries_in_range(*b);
    }
    let l: i128 = LIMIT as i128;
    let mut sum: i128 = 0;
    let mut k: usize = 0;
    while k < 4
        invariant
            a.in_range(),
            b.in_range(),
            r < 4,
            c < 4,
            k <= 4,
            l == LIMIT,
            forall|i: int, j: int| 0 <= i < 4 && 0 <= j < 4 ==> -LIMIT <= #[trigger] a.m[i][j] <= LIMIT,
            forall|i: int, j: int| 0 <= i < 4 && 0 <= j < 4 ==> -LIMIT <= #[trigger] b.m[i][j] <= LIMIT,
            -k * l * l <= sum <= k * l * l,
            sum == partial_dot(*a, *b, r as int, c as int, k as int),
        decreases 4 - k,
    {
        let x = a.m[r][k] as i128;
        let y = b.m[k][c] as i128;
        assert(-l * l <= x * y <= l * l) by (nonlinear_arith)
            requires -l <= x <= l, -l <= y <= l;
        sum = sum + x * y;
        k = k + 1;
    }
    proof {
        let (ai, bi, ri, ci) = (*a, *b, r as int, c as int);
        assert(partial_dot(ai, bi, ri, ci, 0) == 0);
        assert(partial_dot(ai, bi, ri, ci, 1) == ai.at(ri, 0) * bi.at(0, ci));
        assert(partial_dot(ai, bi, ri, ci, 2) == partial_dot(ai, bi, ri, ci, 1) + ai.at(ri, 1) * bi.at(1, ci));
        assert(partial_dot(ai, bi, ri, ci, 3) == partial_dot(ai, bi, ri, ci, 2) + ai.at(ri, 2) * bi.at(2, ci));
        assert(partial_dot(ai, bi, ri, ci, 4) == partial_dot(ai, bi, ri, ci, 3) + ai.at(ri, 3) * bi.at(3, ci));
        let s = sum as int;
        assert(-abs(s) <= s / 65536 <= abs(s)) by (nonlinear_arith);
    }
    match sum.checked_div_euclid(ONE as i128) {
        Some(q) => saturate(q),
        None => 0,
    }
}

/// The first `k` terms of the sum for entry `(r, c)` of `a · b`.
pub open spec fn partial_dot(a: Matrix, b: Matrix, r: int, c: int, k: int) -> int
    decreases k,
{
    if k <= 0 {
        0
    } else {
        partial_dot(a, b, r, c, k - 1) + a.at(r, k - 1) * b.at(k - 1, c)
    }
}

fn product_row(a: &Matrix, b: &Matrix, r: usize) -> (row: [i64; 4])
    requires
        a.in_range(),
        b.in_range(),
        r < 4,
    ensures
        row == [pe(*a, *b, r as int, 0), pe(*a, *b, r as int, 1), pe(*a, *b, r as int, 2), pe(*a, *b, r as int, 3)],
{
    [
        product_entry_exec(a, b, r, 0),
        product_entry_exec(a, b, r, 1),
        product_entry_exec(a, b, r, 2),
        product_entry_exec(a, b, r, 3),
    ]
}

proof fn lemma_product_in_range(a: Matrix, b: Matrix)
    ensures
        product(a, b).in_range(),
{
}

/// The product `a · b`, each entry rounded down to fixed-point units and
/// saturated at the coordinate range.
pub fn multiply(a: &Matrix, b: &Matrix) -> (r: Matrix)
    requires
        a.in_range(),
        b.in_range(),
    ensures
        r == product(*a, *b),
        r.in_range(),
{
    let r = Matrix {
        m: [product_row(a, b, 0), product_row(a, b, 1), product_row(a, b, 2), product_row(a, b, 3)],
    };
    proof {
        lemma_product_in_range(*a, *b);
    }
    r
}

} // verus!
