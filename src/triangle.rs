use vstd::prelude::*;

use crate::fixed::{abs, ceil_units, floor_units, in_range, LIMIT, ONE};
use crate::matrix::Vector3;
use crate::vertex::{Fragment, Vertex};

verus! {

pub open spec fn min3(a: int, b: int, c: int) -> int {
    if a <= b && a <= c {
        a
    } else if b <= c {
        b
    } else {
        c
    }
}

pub open spec fn max3(a: int, b: int, c: int) -> int {
    if a >= b && a >= c {
        a
    } else if b >= c {
        b
    } else {
        c
    }
}

/// The three screen positions of a triangle.
pub struct Corners {
    pub a: Vector3,
    pub b: Vector3,
    pub c: Vector3,
}

pub open spec fn corners(v1: Vertex, v2: Vertex, v3: Vertex) -> Corners {
    Corners { a: v1.transformed_position, b: v2.transformed_position, c: v3.transformed_position }
}

impl Corners {
    pub open spec fn in_range(self) -> bool {
        self.a.in_range() && self.b.in_range() && self.c.in_range()
    }

    /// First pixel column of the bounding box: the smallest x, rounded down.
    pub open spec fn min_x(self) -> int {
        min3(self.a.x as int, self.b.x as int, self.c.x as int) / (ONE as int)
    }

    /// Last pixel column of the bounding box: the largest x, rounded up.
    pub open spec fn max_x(self) -> int {
        -((-max3(self.a.x as int, self.b.x as int, self.c.x as int)) / (ONE as int))
    }

    pub open spec fn min_y(self) -> int {
        min3(self.a.y as int, self.b.y as int, self.c.y as int) / (ONE as int)
    }

    pub open spec fn max_y(self) -> int {
        -((-max3(self.a.y as int, self.b.y as int, self.c.y as int)) / (ONE as int))
    }

    /// The edge values at the centre of pixel `(x, y)`, one per oriented edge.
    pub open spec fn d1(self, x: int, y: int) -> int {
        edge(x * ONE, y * ONE, self.a, self.b)
    }

    pub open spec fn d2(self, x: int, y: int) -> int {
        edge(x * ONE, y * ONE, self.b, self.c)
    }

    pub open spec fn d3(self, x: int, y: int) -> int {
        edge(x * ONE, y * ONE, self.c, self.a)
    }

    /// Pixel `(x, y)` is covered unless its edge values have mixed signs; a
    /// pixel on an edge is covered.
    pub open spec fn covers(self, x: int, y: int) -> bool {
        let (d1, d2, d3) = (self.d1(x, y), self.d2(x, y), self.d3(x, y));
        !((d1 < 0 || d2 < 0 || d3 < 0) && (d1 > 0 || d2 > 0 || d3 > 0))
    }

    /// The depths of the corners blended with weights `|dᵢ| / Σ|dᵢ|`, the sum
    /// taken as at least one.
    pub open spec fn depth(self, x: int, y: int) -> int {
        let (w1, w2, w3) = (abs(self.d1(x, y)), abs(self.d2(x, y)), abs(self.d3(x, y)));
        let total = if w1 + w2 + w3 >= 1 { w1 + w2 + w3 } else { 1 };
        (self.a.z * w1 + self.b.z * w2 + self.c.z * w3) / total
    }

    /// What pixel `(x, y)` contributes: one fragment where it is covered.
    pub open spec fn cell(self, x: int, y: int) -> Seq<Fragment> {
        if self.covers(x, y) {
            seq![Fragment {
                x: x as i64,
                y: y as i64,
                depth: self.depth(x, y) as i64,
                color: Vector3 { x: ONE, y: ONE, z: ONE },
            }]
        } else {
            seq![]
        }
    }

    /// The fragments of row `y` for the columns `lo .. hi`, left to right.
    pub open spec fn row(self, y: int, lo: int, hi: int) -> Seq<Fragment>
        decreases hi - lo,
    {
        if hi <= lo {
            seq![]
        } else {
            self.row(y, lo, hi - 1) + self.cell(hi - 1, y)
        }
    }

    /// The fragments of the rows `lo .. hi` of the bounding box, top to bottom.
    pub open spec fn rows(self, lo: int, hi: int) -> Seq<Fragment>
        decreases hi - lo,
    {
        if hi <= lo {
            seq![]
        } else {
            self.rows(lo, hi - 1) + self.row(hi - 1, self.min_x(), self.max_x() + 1)
        }
    }

    /// Every fragment of the triangle, row by row over its bounding box.
    pub open spec fn fragments(self) -> Seq<Fragment> {
        self.rows(self.min_y(), self.max_y() + 1)
    }
}

/// Which side of the line through `b` and `a` the point `(px, py)` lies on.
pub open spec fn edge(px: int, py: int, a: Vector3, b: Vector3) -> int {
    (px - b.x) * (a.y - b.y) - (a.x - b.x) * (py - b.y)
}

fn min3_exec(a: i64, b: i64, c: i64) -> (r: i64)
    ensures
        r == min3(a as int, b as int, c as int),
{
    if a <= b && a <= c {
        a
    } else if b <= c {
        b
    } else {
        c
    }
}

fn max3_exec(a: i64, b: i64, c: i64) -> (r: i64)
    ensures
        r == max3(a as int, b as int, c as int),
{
    if a >= b && a >= c {
        a
    } else if b >= c {
        b
    } else {
        c
    }
}

fn edge_exec(px: i64, py: i64, a: &Vector3, b: &Vector3) -> (r: i128)
    requires
        in_range(px as int),
        in_range(py as int),
        a.in_range(),
        b.in_range(),
    ensures
        r == edge(px as int, py as int, *a, *b),
        abs(r as int) <= 8 * LIMIT * LIMIT,
{
    let ghost l: int = LIMIT as int;
    let dx = (px as i128) - (b.x as i128);
    let dy = (py as i128) - (b.y as i128);
    let ex = (a.x as i128) - (b.x as i128);
    let ey = (a.y as i128) - (b.y as i128);
    assert(-4 * l * l <= dx * ey <= 4 * l * l) by (nonlinear_arith)
        requires -2 * l <= dx <= 2 * l, -2 * l <= ey <= 2 * l;
    assert(-4 * l * l <= ex * dy <= 4 * l * l) by (nonlinear_arith)
        requires -2 * l <= ex <= 2 * l, -2 * l <= dy <= 2 * l;
    dx * ey - ex * dy
}

proof fn lemma_blend_bound(z1: int, z2: int, z3: int, w1: int, w2: int, w3: int, l: int)
    requires
        -l <= z1 <= l,
        -l <= z2 <= l,
        -l <= z3 <= l,
        w1 >= 0,
        w2 >= 0,
        w3 >= 0,
    ensures
        -l * (w1 + w2 + w3) <= z1 * w1 + z2 * w2 + z3 * w3 <= l * (w1 + w2 + w3),
{
    assert(-l * w1 <= z1 * w1 <= l * w1) by (nonlinear_arith) requires -l <= z1 <= l, w1 >= 0;
    assert(-l * w2 <= z2 * w2 <= l * w2) by (nonlinear_arith) requires -l <= z2 <= l, w2 >= 0;
    assert(-l * w3 <= z3 * w3 <= l * w3) by (nonlinear_arith) requires -l <= z3 <= l, w3 >= 0;
    assert(l * (w1 + w2 + w3) == l * w1 + l * w2 + l * w3) by (nonlinear_arith);
    assert(-l * (w1 + w2 + w3) == -l * w1 + -l * w2 + -l * w3) by (nonlinear_arith);
}

proof fn lemma_quotient_bound(n: int, t: int, l: int)
    requires
        t >= 1,
        l >= 0,
        -l * t <= n <= l * t,
    ensures
        -l <= n / t <= l,
{
    assert(n / t <= l) by (nonlinear_arith)
        requires t >= 1, n <= l * t;
    assert(n / t >= -l) by (nonlinear_arith)
        requires t >= 1, -l * t <= n;
}

fn abs128(v: i128) -> (r: i128)
    requires
        abs(v as int) <= 8 * LIMIT * LIMIT,
    ensures
        r == abs(v as int),
{
    if v < 0 {
        -v
    } else {
        v
    }
}

/// Scan-converts the triangle `v1 v2 v3` by the screen positions of its
/// vertices: every pixel of the bounding box whose edge values are not of
/// mixed signs yields a fragment with interpolated depth, row by row.
pub fn triangle(v1: &Vertex, v2: &Vertex, v3: &Vertex) -> (r: Vec<Fragment>)
    requires
        corners(*v1, *v2, *v3).in_range(),
    ensures
        r@ == corners(*v1, *v2, *v3).fragments(),
{
    let ghost t = corners(*v1, *v2, *v3);
    let p1 = v1.transformed_position;
    let p2 = v2.transformed_position;
    let p3 = v3.transformed_position;
    let min_x = floor_units(min3_exec(p1.x, p2.x, p3.x));
    let max_x = ceil_units(max3_exec(p1.x, p2.x, p3.x));
    let min_y = floor_units(min3_exec(p1.y, p2.y, p3.y));
    let max_y = ceil_units(max3_exec(p1.y, p2.y, p3.y));
    proof {
        let l = LIMIT as int;
        lemma_px_bounds(min3(p1.x as int, p2.x as int, p3.x as int));
        lemma_px_bounds(max3(p1.x as int, p2.x as int, p3.x as int));
        lemma_px_bounds(min3(p1.y as int, p2.y as int, p3.y as int));
        lemma_px_bounds(max3(p1.y as int, p2.y as int, p3.y as int));
    }
    let mut frags: Vec<Fragment> = Vec::new();
    let mut y: i64 = min_y;
    while y <= max_y
        invariant
            t == corners(*v1, *v2, *v3),
            t.in_range(),
            min_x == t.min_x(),
            max_x == t.max_x(),
            min_y == t.min_y(),
            max_y == t.max_y(),
            -16777216 <= min_x <= max_x <= 16777216,
            -16777216 <= min_y <= max_y <= 16777216,
            p1 == t.a,
            p2 == t.b,
            p3 == t.c,
            min_y <= y <= max_y + 1,
            frags@ == t.rows(min_y as int, y as int),
        decreases max_y + 1 - y,
    {
        let mut x: i64 = min_x;
        while x <= max_x
            invariant
                t == corners(*v1, *v2, *v3),
                t.in_range(),
                min_x == t.min_x(),
                max_x == t.max_x(),
                min_y == t.min_y(),
                max_y == t.max_y(),
                -16777216 <= min_x <= max_x <= 16777216,
                -16777216 <= min_y <= max_y <= 16777216,
                p1 == t.a,
                p2 == t.b,
                p3 == t.c,
                min_y <= y <= max_y,
                min_x <= x <= max_x + 1,
                frags@ == t.rows(min_y as int, y as int) + t.row(y as int, min_x as int, x as int),
            decreases max_x + 1 - x,
        {
            let px = x * ONE;
            let py = y * ONE;
            let d1 = edge_exec(px, py, &p1, &p2);
            let d2 = edge_exec(px, py, &p2, &p3);
            let d3 = edge_exec(px, py, &p3, &p1);
            let has_neg = d1 < 0 || d2 < 0 || d3 < 0;
            let has_pos = d1 > 0 || d2 > 0 || d3 > 0;
            if !(has_neg && has_pos) {
                let w1 = abs128(d1);
                let w2 = abs128(d2);
                let w3 = abs128(d3);
                let sum = w1 + w2 + w3;
                let total: i128 = if sum >= 1 { sum } else { 1 };
                proof {
                    let l = LIMIT as int;
                    lemma_blend_bound(p1.z as int, p2.z as int, p3.z as int, w1 as int, w2 as int, w3 as int, l);
                    assert(-l * (8 * l * l) <= p1.z * w1 <= l * (8 * l * l)) by (nonlinear_arith)
                        requires -l <= p1.z <= l, 0 <= w1 <= 8 * l * l;
                    assert(-l * (8 * l * l) <= p2.z * w2 <= l * (8 * l * l)) by (nonlinear_arith)
                        requires -l <= p2.z <= l, 0 <= w2 <= 8 * l * l;
                    assert(-l * (8 * l * l) <= p3.z * w3 <= l * (8 * l * l)) by (nonlinear_arith)
                        requires -l <= p3.z <= l, 0 <= w3 <= 8 * l * l;
                }
                let num = (p1.z as i128) * w1 + (p2.z as i128) * w2 + (p3.z as i128) * w3;
                proof {
                    let l = LIMIT as int;
                    if w1 + w2 + w3 == 0 {
                        assert(p1.z * w1 == 0 && p2.z * w2 == 0 && p3.z * w3 == 0);
                    }
                    lemma_quotient_bound(num as int, total as int, l);
                }
                let depth: i64 = match num.checked_div_euclid(total) {
                    Some(q) => q as i64,
                    None => 0,
                };
                frags.push(Fragment { x, y, depth, color: Vector3 { x: ONE, y: ONE, z: ONE } });
            }
            proof {
                assert(d1 == t.d1(x as int, y as int));
                assert(d2 == t.d2(x as int, y as int));
                assert(d3 == t.d3(x as int, y as int));
                assert(t.row(y as int, min_x as int, x + 1) == t.row(y as int, min_x as int, x as int)
                    + t.cell(x as int, y as int));
                assert(frags@ =~= t.rows(min_y as int, y as int) + t.row(y as int, min_x as int, x + 1));
            }
            x = x + 1;
        }
        proof {
            assert(t.rows(min_y as int, y + 1) == t.rows(min_y as int, y as int) + t.row(
                y as int,
                t.min_x(),
                t.max_x() + 1,
            ));
        }
        y = y + 1;
    }
    frags
}

proof fn lemma_px_bounds(c: int)
    requires
        in_range(c),
    ensures
        -16777216 <= c / (ONE as int) <= 16777216,
        -16777216 <= -((-c) / (ONE as int)) <= 16777216,
        c / (ONE as int) <= -((-c) / (ONE as int)),
{
    assert(-16777216 <= c / 65536 <= 16777216) by (nonlinear_arith)
        requires -1099511627776 <= c <= 1099511627776;
    assert(-16777216 <= (-c) / 65536 <= 16777216) by (nonlinear_arith)
        requires -1099511627776 <= c <= 1099511627776;
    assert(c / 65536 <= -((-c) / 65536)) by (nonlinear_arith);
}

proof fn lemma_row_in_box(t: Corners, y: int, lo: int, hi: int)
    requires
        -0x8000_0000 <= y <= 0x8000_0000,
        -0x8000_0000 <= lo,
        hi <= 0x8000_0000,
    ensures
        forall|i: int|
            0 <= i < t.row(y, lo, hi).len() ==> lo <= (#[trigger] t.row(y, lo, hi)[i]).x < hi
                && t.row(y, lo, hi)[i].y == y,
    decreases hi - lo,
{
    if hi > lo {
        lemma_row_in_box(t, y, lo, hi - 1);
        let a = t.row(y, lo, hi - 1);
        let c = t.cell(hi - 1, y);
        assert forall|i: int| 0 <= i < t.row(y, lo, hi).len() implies lo <= (#[trigger] t.row(
            y,
            lo,
            hi,
        )[i]).x < hi && t.row(y, lo, hi)[i].y == y by {
            if i >= a.len() {
                assert(t.row(y, lo, hi)[i] == c[i - a.len()]);
            } else {
                assert(t.row(y, lo, hi)[i] == a[i]);
            }
        }
    }
}

proof fn lemma_rows_in_box(t: Corners, lo: int, hi: int)
    requires
        -0x8000_0000 <= lo,
        hi <= 0x8000_0000,
        -0x8000_0000 <= t.min_x(),
        t.max_x() < 0x8000_0000,
    ensures
        forall|i: int|
            0 <= i < t.rows(lo, hi).len() ==> lo <= (#[trigger] t.rows(lo, hi)[i]).y < hi
                && t.min_x() <= t.rows(lo, hi)[i].x <= t.max_x(),
    decreases hi - lo,
{
    if hi > lo {
        lemma_rows_in_box(t, lo, hi - 1);
        lemma_row_in_box(t, hi - 1, t.min_x(), t.max_x() + 1);
        let a = t.rows(lo, hi - 1);
        let b = t.row(hi - 1, t.min_x(), t.max_x() + 1);
        assert forall|i: int| 0 <= i < t.rows(lo, hi).len() implies lo <= (#[trigger] t.rows(
            lo,
            hi,
        )[i]).y < hi && t.min_x() <= t.rows(lo, hi)[i].x <= t.max_x() by {
            if i >= a.len() {
                assert(t.rows(lo, hi)[i] == b[i - a.len()]);
            } else {
                assert(t.rows(lo, hi)[i] == a[i]);
            }
        }
    }
}

proof fn lemma_row_has(t: Corners, y: int, lo: int, hi: int, x: int)
    requires
        lo <= x < hi,
        t.covers(x, y),
    ensures
        exists|i: int|
            0 <= i < t.row(y, lo, hi).len() && (#[trigger] t.row(y, lo, hi)[i]) == t.cell(x, y)[0],
    decreases hi - lo,
{
    let r = t.row(y, lo, hi);
    if x == hi - 1 {
        let k = t.row(y, lo, hi - 1).len() as int;
        assert(r[k] == t.cell(x, y)[0]);
    } else {
        lemma_row_has(t, y, lo, hi - 1, x);
        let i = choose|i: int|
            0 <= i < t.row(y, lo, hi - 1).len() && (#[trigger] t.row(y, lo, hi - 1)[i]) == t.cell(x, y)[0];
        assert(r[i] == t.cell(x, y)[0]);
    }
}

proof fn lemma_rows_have(t: Corners, lo: int, hi: int, x: int, y: int)
    requires
        lo <= y < hi,
        t.min_x() <= x <= t.max_x(),
        t.covers(x, y),
    ensures
        exists|i: int| 0 <= i < t.rows(lo, hi).len() && (#[trigger] t.rows(lo, hi)[i]) == t.cell(x, y)[0],
    decreases hi - lo,
{
    let r = t.rows(lo, hi);
    let a = t.rows(lo, hi - 1);
    if y == hi - 1 {
        lemma_row_has(t, y, t.min_x(), t.max_x() + 1, x);
        let b = t.row(y, t.min_x(), t.max_x() + 1);
        let j = choose|j: int| 0 <= j < b.len() && (#[trigger] b[j]) == t.cell(x, y)[0];
        assert(r[a.len() + j] == t.cell(x, y)[0]);
    } else {
        lemma_rows_have(t, lo, hi - 1, x, y);
        let i = choose|i: int| 0 <= i < a.len() && (#[trigger] a[i]) == t.cell(x, y)[0];
        assert(r[i] == t.cell(x, y)[0]);
    }
}

proof fn lemma_grid_corner_in_box(lo: int, c: int, hi: int)
    requires
        lo <= c <= hi,
        c % (ONE as int) == 0,
    ensures
        lo / (ONE as int) <= c / (ONE as int) <= -((-hi) / (ONE as int)),
{
    assert(lo / 65536 <= c / 65536) by (nonlinear_arith)
        requires lo <= c;
    assert((-c) / 65536 == -(c / 65536)) by (nonlinear_arith)
        requires c % 65536 == 0;
    assert((-hi) / 65536 <= (-c) / 65536) by (nonlinear_arith)
        requires -hi <= -c;
}

/// Every fragment of a triangle lies in its pixel bounding box, and a triangle
/// with a corner exactly on a pixel centre yields at least one fragment, the
/// one at that corner. (A triangle small enough to fall between pixel centres
/// yields none.)
pub proof fn lemma_fragments_in_box(t: Corners, p: Vector3)
    requires
        t.in_range(),
        p == t.a || p == t.b || p == t.c,
        (p.x as int) % (ONE as int) == 0,
        (p.y as int) % (ONE as int) == 0,
    ensures
        forall|i: int|
            0 <= i < t.fragments().len() ==> t.min_x() <= (#[trigger] t.fragments()[i]).x <= t.max_x()
                && t.min_y() <= t.fragments()[i].y <= t.max_y(),
        t.fragments().len() > 0,
        exists|i: int|
            0 <= i < t.fragments().len() && (#[trigger] t.fragments()[i]).x == (p.x as int) / (ONE as int)
                && t.fragments()[i].y == (p.y as int) / (ONE as int),
{
    lemma_px_bounds(min3(t.a.x as int, t.b.x as int, t.c.x as int));
    lemma_px_bounds(max3(t.a.x as int, t.b.x as int, t.c.x as int));
    lemma_px_bounds(min3(t.a.y as int, t.b.y as int, t.c.y as int));
    lemma_px_bounds(max3(t.a.y as int, t.b.y as int, t.c.y as int));
    lemma_rows_in_box(t, t.min_y(), t.max_y() + 1);
    let gx = (p.x as int) / (ONE as int);
    let gy = (p.y as int) / (ONE as int);
    lemma_grid_corner_in_box(
        min3(t.a.x as int, t.b.x as int, t.c.x as int),
        p.x as int,
        max3(t.a.x as int, t.b.x as int, t.c.x as int),
    );
    lemma_grid_corner_in_box(
        min3(t.a.y as int, t.b.y as int, t.c.y as int),
        p.y as int,
        max3(t.a.y as int, t.b.y as int, t.c.y as int),
    );
    assert(gx * ONE == p.x) by (nonlinear_arith)
        requires p.x % 65536 == 0, gx == p.x / 65536;
    assert(gy * ONE == p.y) by (nonlinear_arith)
        requires p.y % 65536 == 0, gy == p.y / 65536;
    if p == t.a {
        assert(t.d1(gx, gy) == 0) by (nonlinear_arith)
            requires gx * ONE == t.a.x, gy * ONE == t.a.y,
                t.d1(gx, gy) == edge(gx * ONE, gy * ONE, t.a, t.b);
        assert(t.d3(gx, gy) == 0) by (nonlinear_arith)
            requires gx * ONE == t.a.x, gy * ONE == t.a.y,
                t.d3(gx, gy) == edge(gx * ONE, gy * ONE, t.c, t.a);
    } else if p == t.b {
        assert(t.d1(gx, gy) == 0) by (nonlinear_arith)
            requires gx * ONE == t.b.x, gy * ONE == t.b.y,
                t.d1(gx, gy) == edge(gx * ONE, gy * ONE, t.a, t.b);
        assert(t.d2(gx, gy) == 0) by (nonlinear_arith)
            requires gx * ONE == t.b.x, gy * ONE == t.b.y,
                t.d2(gx, gy) == edge(gx * ONE, gy * ONE, t.b, t.c);
    } else {
        assert(t.d2(gx, gy) == 0) by (nonlinear_arith)
            requires gx * ONE == t.c.x, gy * ONE == t.c.y,
                t.d2(gx, gy) == edge(gx * ONE, gy * ONE, t.b, t.c);
        assert(t.d3(gx, gy) == 0) by (nonlinear_arith)
            requires gx * ONE == t.c.x, gy * ONE == t.c.y,
                t.d3(gx, gy) == edge(gx * ONE, gy * ONE, t.c, t.a);
    }
    assert(t.covers(gx, gy));
    lemma_rows_have(t, t.min_y(), t.max_y() + 1, gx, gy);
    let i = choose|i: int|
        0 <= i < t.fragments().len() && (#[trigger] t.fragments()[i]) == t.cell(gx, gy)[0];
    assert(t.fragments()[i].x == gx && t.fragments()[i].y == gy);
}

} // verus!
