use vstd::prelude::*;

use crate::fixed::{in_range, LIMIT, ONE};
use crate::matrix::{Vector2, Vector3};
use crate::vertex::Vertex;

verus! {

/// `(cos, sin)` pairs of a table of angles, each within `[-1, 1]`.
pub open spec fn unit_table(t: Seq<Vector2>) -> bool {
    forall|i: int| 0 <= i < t.len() ==> -ONE <= (#[trigger] t[i]).x <= ONE && -ONE <= t[i].y <= ONE
}

/// The fixed-point product `a * b`.
pub open spec fn fmul(a: int, b: int) -> int {
    a * b / (ONE as int)
}

fn fmul_exec(a: i64, b: i64) -> (r: i64)
    requires
        in_range(a as int),
        -ONE <= b <= ONE,
    ensures
        r == fmul(a as int, b as int),
        in_range(r as int),
{
    assert(-LIMIT * ONE <= a * b <= LIMIT * ONE) by (nonlinear_arith)
        requires -LIMIT <= a <= LIMIT, -ONE <= b <= ONE;
    let p: i64 = a * b;
    assert(-LIMIT <= p / 65536 <= LIMIT) by (nonlinear_arith)
        requires -LIMIT * ONE <= p <= LIMIT * ONE;
    match p.checked_div_euclid(ONE) {
        Some(q) => q,
        None => 0,
    }
}

/// The point at radius `r` in the direction `(cos, sin)` of the flat ring's plane.
pub open spec fn disk_point(r: int, c: Vector2) -> Vector3 {
    Vector3 { x: fmul(r, c.x as int) as i64, y: 0, z: fmul(r, c.y as int) as i64 }
}

pub open spec fn up() -> Vector3 {
    Vector3 { x: 0, y: ONE, z: 0 }
}

/// Vertex `k` of a flat ring: segment `k / 6` between directions `circle[s]`
/// and `circle[s + 1]` is two triangles, inner 1, outer 1, outer 2 and inner
/// 1, outer 2, inner 2, with texture coordinates at the corners of the unit
/// square.
pub open spec fn flat_ring_vertex(inner: int, outer: int, circle: Seq<Vector2>, k: int) -> Vertex {
    let s = k / 6;
    let (c1, c2) = (circle[s], circle[s + 1]);
    let corner = k % 6;
    let (p, uv) = if corner == 0 || corner == 3 {
        (disk_point(inner, c1), Vector2 { x: 0, y: 0 })
    } else if corner == 1 {
        (disk_point(outer, c1), Vector2 { x: ONE, y: 0 })
    } else if corner == 2 || corner == 4 {
        (disk_point(outer, c2), Vector2 { x: ONE, y: ONE })
    } else {
        (disk_point(inner, c2), Vector2 { x: 0, y: ONE })
    };
    Vertex {
        position: p,
        normal: up(),
        tex_coords: uv,
        color: Vector3 { x: ONE, y: ONE, z: ONE },
        transformed_position: p,
        transformed_normal: up(),
    }
}

fn ring_vertex(r: i64, c: Vector2, uv: Vector2) -> (v: Vertex)
    requires
        in_range(r as int),
        -ONE <= c.x <= ONE,
        -ONE <= c.y <= ONE,
    ensures
        v.position == disk_point(r as int, c),
        v.normal == up(),
        v.tex_coords == uv,
        v.color == (Vector3 { x: ONE, y: ONE, z: ONE }),
        v.transformed_position == v.position,
        v.transformed_normal == up(),
        v.in_range(),
{
    let p = Vector3 { x: fmul_exec(r, c.x), y: 0, z: fmul_exec(r, c.y) };
    Vertex::new(p, Vector3 { x: 0, y: ONE, z: 0 }, uv)
}

/// A flat ring between radii `inner_radius` and `outer_radius`. `circle`
/// holds `(cos, sin)` of the angles `2πi / n` for `i` from 0 to `n`, where
/// `n` is the number of segments; each segment gives six vertices (see
/// `flat_ring_vertex`).
pub fn generate_flat_ring(inner_radius: i64, outer_radius: i64, circle: &Vec<Vector2>) -> (r: Vec<Vertex>)
    requires
        in_range(inner_radius as int),
        in_range(outer_radius as int),
        circle@.len() >= 1,
        unit_table(circle@),
    ensures
        r@.len() == 6 * (circle@.len() - 1),
        forall|k: int|
            0 <= k < r@.len() ==> #[trigger] r@[k] == flat_ring_vertex(
                inner_radius as int,
                outer_radius as int,
                circle@,
                k,
            ),
{
    let segments = circle.len() - 1;
    let mut out: Vec<Vertex> = Vec::new();
    let mut i: usize = 0;
    while i < segments
        invariant
            segments == circle@.len() - 1,
            i <= segments,
            in_range(inner_radius as int),
            in_range(outer_radius as int),
            unit_table(circle@),
            out@.len() == 6 * i,
            forall|k: int|
                0 <= k < out@.len() ==> #[trigger] out@[k] == flat_ring_vertex(
                    inner_radius as int,
                    outer_radius as int,
                    circle@,
                    k,
                ),
        decreases segments - i,
    {
        let c1 = circle[i];
        let c2 = circle[i + 1];
        let zero = Vector2 { x: 0, y: 0 };
        let ones = Vector2 { x: ONE, y: ONE };
        out.push(ring_vertex(inner_radius, c1, zero));
        out.push(ring_vertex(outer_radius, c1, Vector2 { x: ONE, y: 0 }));
        out.push(ring_vertex(outer_radius, c2, ones));
        out.push(ring_vertex(inner_radius, c1, zero));
        out.push(ring_vertex(outer_radius, c2, ones));
        out.push(ring_vertex(inner_radius, c2, Vector2 { x: 0, y: ONE }));
        proof {
            assert forall|k: int| 6 * i <= k < 6 * i + 6 implies #[trigger] out@[k] == flat_ring_vertex(
                inner_radius as int,
                outer_radius as int,
                circle@,
                k,
            ) by {
                assert(k / 6 == i);
                assert(k % 6 == k - 6 * i);
            }
        }
        i = i + 1;
    }
    out
}

/// Vertex `(i, j)` of a torus: `major[i]` is the direction around the ring,
/// `minor[j]` the direction around the tube; the normal points out of the
/// tube and the texture coordinates are the two angles as fractions of a
/// turn.
pub open spec fn torus_vertex(big: int, small: int, major: Seq<Vector2>, minor: Seq<Vector2>, i: int, j: int) -> Vertex {
    let (cu, su) = (major[i].x as int, major[i].y as int);
    let (cv, sv) = (minor[j].x as int, minor[j].y as int);
    let ring = big + fmul(small, cv);
    let p = Vector3 { x: fmul(ring, cu) as i64, y: fmul(small, sv) as i64, z: fmul(ring, su) as i64 };
    let n = Vector3 { x: fmul(cv, cu) as i64, y: sv as i64, z: fmul(cv, su) as i64 };
    let uv = Vector2 {
        x: (i * ONE / (major.len() - 1)) as i64,
        y: (j * ONE / (minor.len() - 1)) as i64,
    };
    Vertex {
        position: p,
        normal: n,
        tex_coords: uv,
        color: Vector3 { x: ONE, y: ONE, z: ONE },
        transformed_position: p,
        transformed_normal: n,
    }
}

fn turn_fraction(i: usize, n: usize) -> (r: i64)
    requires
        i <= n,
        n >= 1,
    ensures
        r == i * ONE / (n as int),
{
    assert(0 <= i * 65536 / (n as int) <= 65536) by (nonlinear_arith)
        requires i <= n, n >= 1;
    ((i as u128) * (ONE as u128) / (n as u128)) as i64
}

/// A torus of ring radius `major_radius` and tube radius `minor_radius`.
/// `major` and `minor` hold `(cos, sin)` of the angles `2πi / n` for `i` from
/// 0 to `n`, for the ring and the tube; vertex `(i, j)` (see `torus_vertex`)
/// stands at index `i * minor.len() + j`.
pub fn generate_torus_ring(
    major_radius: i64,
    minor_radius: i64,
    major: &Vec<Vector2>,
    minor: &Vec<Vector2>,
) -> (r: Vec<Vertex>)
    requires
        in_range(major_radius as int),
        in_range(minor_radius as int),
        in_range(major_radius + minor_radius),
        in_range(major_radius - minor_radius),
        major@.len() >= 2,
        minor@.len() >= 2,
        unit_table(major@),
        unit_table(minor@),
    ensures
        r@.len() == major@.len() * minor@.len(),
        forall|i: int, j: int|
            0 <= i < major@.len() && 0 <= j < minor@.len() ==> #[trigger] r@[i * minor@.len() + j]
                == torus_vertex(major_radius as int, minor_radius as int, major@, minor@, i, j),
{
    let nu = major.len();
    let nv = minor.len();
    let mut out: Vec<Vertex> = Vec::new();
    let mut i: usize = 0;
    while i < nu
        invariant
            nu == major@.len(),
            nv == minor@.len(),
            nu >= 2,
            nv >= 2,
            i <= nu,
            in_range(major_radius as int),
            in_range(minor_radius as int),
            in_range(major_radius + minor_radius),
            in_range(major_radius - minor_radius),
            unit_table(major@),
            unit_table(minor@),
            out@.len() == i * nv,
            forall|a: int, b: int|
                0 <= a < i && 0 <= b < nv ==> #[trigger] out@[a * nv + b] == torus_vertex(
                    major_radius as int,
                    minor_radius as int,
                    major@,
                    minor@,
                    a,
                    b,
                ),
        decreases nu - i,
    {
        let cu = major[i].x;
        let su = major[i].y;
        let tu = turn_fraction(i, nu - 1);
        let mut j: usize = 0;
        while j < nv
            invariant
                nu == major@.len(),
                nv == minor@.len(),
                nu >= 2,
                nv >= 2,
                i < nu,
                j <= nv,
                cu == major@[i as int].x,
                su == major@[i as int].y,
                -ONE <= cu <= ONE,
                -ONE <= su <= ONE,
                tu == i * ONE / (nu - 1),
                in_range(major_radius as int),
                in_range(minor_radius as int),
                in_range(major_radius + minor_radius),
                in_range(major_radius - minor_radius),
                unit_table(minor@),
                out@.len() == i * nv + j,
                forall|a: int, b: int|
                    0 <= a < i && 0 <= b < nv ==> #[trigger] out@[a * nv + b] == torus_vertex(
                        major_radius as int,
                        minor_radius as int,
                        major@,
                        minor@,
                        a,
                        b,
                    ),
                forall|b: int|
                    0 <= b < j ==> #[trigger] out@[i * nv + b] == torus_vertex(
                        major_radius as int,
                        minor_radius as int,
                        major@,
                        minor@,
                        i as int,
                        b,
                    ),
            decreases nv - j,
        {
            let cv = minor[j].x;
            let sv = minor[j].y;
            let small = fmul_exec(minor_radius, cv);
            assert(-LIMIT <= major_radius + small <= LIMIT) by (nonlinear_arith)
                requires
                    small == (minor_radius * cv) / 65536,
                    -65536 <= cv <= 65536,
                    -LIMIT <= major_radius + minor_radius <= LIMIT,
                    -LIMIT <= major_radius - minor_radius <= LIMIT;
            let ring = major_radius + small;
            let p = Vector3 { x: fmul_exec(ring, cu), y: fmul_exec(minor_radius, sv), z: fmul_exec(ring, su) };
            let n = Vector3 { x: fmul_exec(cv, cu), y: sv, z: fmul_exec(cv, su) };
            let uv = Vector2 { x: tu, y: turn_fraction(j, nv - 1) };
            let v = Vertex {
                position: p,
                normal: n,
                tex_coords: uv,
                color: Vector3 { x: ONE, y: ONE, z: ONE },
                transformed_position: p,
                transformed_normal: n,
            };
            assert(v == torus_vertex(major_radius as int, minor_radius as int, major@, minor@, i as int, j as int));
            proof {
                assert((i * nv + j) as int == i * nv + j);
            }
            out.push(v);
            proof {
                assert forall|a: int, b: int| 0 <= a < i && 0 <= b < nv implies #[trigger] out@[a * nv + b]
                    == torus_vertex(major_radius as int, minor_radius as int, major@, minor@, a, b) by {
                    assert(a * nv + b < i * nv) by (nonlinear_arith)
                        requires 0 <= a < i, 0 <= b < nv;
                }
            }
            j = j + 1;
        }
        proof {
            assert forall|a: int, b: int| 0 <= a < i + 1 && 0 <= b < nv implies #[trigger] out@[a * nv + b]
                == torus_vertex(major_radius as int, minor_radius as int, major@, minor@, a, b) by {
                if a == i {
                    assert(out@[i * nv + b] == torus_vertex(
                        major_radius as int,
                        minor_radius as int,
                        major@,
                        minor@,
                        i as int,
                        b,
                    ));
                }
            }
            assert((i + 1) * nv == i * nv + nv) by (nonlinear_arith);
        }
        i = i + 1;
    }
    out
}

} // verus!
