//! Index data for the cube primitive.
//!
//! A cube is drawn from 24 vertices (four per face, so that each face can
//! carry its own normal id) and 36 indices (two triangles per face).

use vstd::prelude::*;

verus! {

/// One vertex index of an index buffer.
pub type VertexData = u16;

/// The three vertex indices of a triangle.
pub type TriangleData = (VertexData, VertexData, VertexData);

/// The two triangles of a quad.
pub type QuadData = (TriangleData, TriangleData);

/// The six quads of a cube: top, bottom, left, right, front, back.
pub type CubeIndicesData = (QuadData, QuadData, QuadData, QuadData, QuadData, QuadData);

/// Number of indices per cube.
pub const INDEX_COUNT: usize = 36;

/// Number of vertices per cube.
pub const VERTEX_COUNT: u16 = 24;

/// Largest cube number whose indices fit in a `u16`.
pub const MAX_CUBE: u16 = 2729;

pub open spec fn spec_triangle(a: VertexData, b: VertexData, c: VertexData) -> TriangleData {
    (a, b, c)
}

/// A quad `a b c d` is split along the diagonal `c a`.
pub open spec fn spec_quad(a: VertexData, b: VertexData, c: VertexData, d: VertexData) -> QuadData {
    (spec_triangle(a, b, c), spec_triangle(c, d, a))
}

/// The index `base + k` of the cube's vertex block.
pub open spec fn at(base: int, k: int) -> VertexData {
    (base + k) as VertexData
}

/// Indices of cube number `i`, whose vertices occupy `24 * i .. 24 * i + 24`.
pub open spec fn spec_cube_indices(i: VertexData) -> CubeIndicesData {
    let b = i * VERTEX_COUNT;
    (
        spec_quad(at(b, 0), at(b, 1), at(b, 2), at(b, 3)),
        spec_quad(at(b, 7), at(b, 6), at(b, 5), at(b, 4)),
        spec_quad(at(b, 8), at(b, 9), at(b, 10), at(b, 11)),
        spec_quad(at(b, 15), at(b, 14), at(b, 13), at(b, 12)),
        spec_quad(at(b, 19), at(b, 18), at(b, 17), at(b, 16)),
        spec_quad(at(b, 20), at(b, 21), at(b, 22), at(b, 23)),
    )
}

/// The indices of a triangle in drawing order.
pub open spec fn triangle_seq(t: TriangleData) -> Seq<VertexData> {
    seq![t.0, t.1, t.2]
}

/// The six indices of a quad in drawing order.
pub open spec fn quad_seq(q: QuadData) -> Seq<VertexData> {
    triangle_seq(q.0) + triangle_seq(q.1)
}

/// The 36 indices of a cube in the order they land in the index buffer.
pub open spec fn cube_seq(c: CubeIndicesData) -> Seq<VertexData> {
    quad_seq(c.0) + quad_seq(c.1) + quad_seq(c.2) + quad_seq(c.3) + quad_seq(c.4) + quad_seq(c.5)
}

pub struct Triangle;

impl Triangle {
    /// The triangle `a b c`.
    pub fn new(a: VertexData, b: VertexData, c: VertexData) -> (t: TriangleData)
        ensures
            t == spec_triangle(a, b, c),
    {
        (a, b, c)
    }
}

pub struct Quad;

impl Quad {
    /// The quad `a b c d` as the triangles `a b c` and `c d a`.
    pub fn new(a: VertexData, b: VertexData, c: VertexData, d: VertexData) -> (q: QuadData)
        ensures
            q == spec_quad(a, b, c, d),
    {
        (Triangle::new(a, b, c), Triangle::new(c, d, a))
    }
}

pub struct CubeIndices;

impl CubeIndices {
    /// Index data of cube number `i` of an index buffer holding several cubes.
    pub fn new(i: VertexData) -> (c: CubeIndicesData)
        requires
            i <= MAX_CUBE,
        ensures
            c == spec_cube_indices(i),
    {
        let i = i * VERTEX_COUNT;
        (
            Quad::new(i + 0, i + 1, i + 2, i + 3),
            Quad::new(i + 7, i + 6, i + 5, i + 4),
            Quad::new(i + 8, i + 9, i + 10, i + 11),
            Quad::new(i + 15, i + 14, i + 13, i + 12),
            Quad::new(i + 19, i + 18, i + 17, i + 16),
            Quad::new(i + 20, i + 21, i + 22, i + 23),
        )
    }
}

/// A quad's two triangles share the diagonal `c a`, and together they use
/// exactly the quad's four corners.
pub proof fn lemma_quad_shares_diagonal(a: VertexData, b: VertexData, c: VertexData, d: VertexData)
    ensures
        ({
            let q = spec_quad(a, b, c, d);
            &&& q.0.0 == q.1.2 && q.0.2 == q.1.0
            &&& quad_seq(q).to_set() == set![a, b, c, d]
        }),
{
    let q = spec_quad(a, b, c, d);
    assert(quad_seq(q) =~= seq![a, b, c, c, d, a]);
    assert(quad_seq(q).to_set() =~= set![a, b, c, d]) by {
        assert(quad_seq(q)[0] == a);
        assert(quad_seq(q)[1] == b);
        assert(quad_seq(q)[2] == c);
        assert(quad_seq(q)[4] == d);
    }
}

/// The cube's 36 indices stay inside its own block of 24 vertices: the `k`-th
/// index belongs to face `k / 6`, whose four vertices are
/// `24 i + 4 (k / 6) .. 24 i + 4 (k / 6) + 4`; and every vertex of the block
/// is used by some index.
pub proof fn lemma_cube_indices_in_block(i: VertexData)
    requires
        i <= MAX_CUBE,
    ensures
        cube_seq(spec_cube_indices(i)).len() == INDEX_COUNT,
        forall|k: int|
            0 <= k < INDEX_COUNT ==> {
                let v = #[trigger] cube_seq(spec_cube_indices(i))[k];
                &&& 24 * i + 4 * (k / 6) <= v < 24 * i + 4 * (k / 6) + 4
            },
        forall|v: VertexData|
            24 * i <= v < 24 * i + 24 ==> #[trigger] cube_seq(spec_cube_indices(i)).contains(v),
{
    let b = 24 * i;
    let s = cube_seq(spec_cube_indices(i));
    let expected = seq![
        b + 0, b + 1, b + 2, b + 2, b + 3, b + 0,
        b + 7, b + 6, b + 5, b + 5, b + 4, b + 7,
        b + 8, b + 9, b + 10, b + 10, b + 11, b + 8,
        b + 15, b + 14, b + 13, b + 13, b + 12, b + 15,
        b + 19, b + 18, b + 17, b + 17, b + 16, b + 19,
        b + 20, b + 21, b + 22, b + 22, b + 23, b + 20
    ];
    assert(s.len() == 36);
    assert forall|k: int| 0 <= k < 36 implies s[k] as int == expected[k] by {
        assert(b + 23 <= u16::MAX);
    }
    assert forall|k: int| 0 <= k < INDEX_COUNT implies {
        let v = #[trigger] s[k];
        &&& b + 4 * (k / 6) <= v < b + 4 * (k / 6) + 4
    } by {
        assert(s[k] as int == expected[k]);
    }
    assert forall|v: VertexData| b <= v < b + 24 implies #[trigger] s.contains(v) by {
        let off = v - b;
        let k: int = if off == 0 { 0 } else if off == 1 { 1 } else if off == 2 { 2 } else if off == 3 { 4 }
            else if off == 4 { 10 } else if off == 5 { 8 } else if off == 6 { 7 } else if off == 7 { 6 }
            else if off == 8 { 12 } else if off == 9 { 13 } else if off == 10 { 14 } else if off == 11 { 16 }
            else if off == 12 { 22 } else if off == 13 { 20 } else if off == 14 { 19 } else if off == 15 { 18 }
            else if off == 16 { 28 } else if off == 17 { 26 } else if off == 18 { 25 } else if off == 19 { 24 }
            else if off == 20 { 30 } else if off == 21 { 31 } else if off == 22 { 32 } else { 34 };
        assert(s[k] as int == expected[k]);
        assert(s[k] == v);
    }
}


/// One vertex of the unit cube around a cube's centre: the sign of its
/// offset along each axis, and the face (normal id) it belongs to.
#[derive(Clone, Copy, Debug, PartialEq, Eq, Structural)]
pub struct Corner {
    pub dx: i8,
    pub dy: i8,
    pub dz: i8,
    pub face: u32,
}

pub open spec fn corner(dx: int, dy: int, dz: int, face: int) -> Corner {
    Corner { dx: dx as i8, dy: dy as i8, dz: dz as i8, face: face as u32 }
}

/// The cube's 24 vertices, four per face, in the order the index data
/// refers to them: top, bottom, left, right, front, back.
pub open spec fn spec_corners() -> Seq<Corner> {
    seq![
        corner(-1, 1, -1, 0), corner(1, 1, -1, 0), corner(1, 1, 1, 0), corner(-1, 1, 1, 0),
        corner(-1, -1, -1, 1), corner(1, -1, -1, 1), corner(1, -1, 1, 1), corner(-1, -1, 1, 1),
        corner(-1, -1, -1, 2), corner(-1, 1, -1, 2), corner(-1, 1, 1, 2), corner(-1, -1, 1, 2),
        corner(1, -1, -1, 3), corner(1, 1, -1, 3), corner(1, 1, 1, 3), corner(1, -1, 1, 3),
        corner(-1, -1, 1, 4), corner(1, -1, 1, 4), corner(1, 1, 1, 4), corner(-1, 1, 1, 4),
        corner(-1, -1, -1, 5), corner(1, -1, -1, 5), corner(1, 1, -1, 5), corner(-1, 1, -1, 5)
    ]
}

/// The offset that is the same for all four vertices of `face`: the axis
/// (0 for x, 1 for y, 2 for z) and its sign.
pub open spec fn face_plane(face: int) -> (int, int) {
    if face == 0 {
        (1, 1)
    } else if face == 1 {
        (1, -1)
    } else if face == 2 {
        (0, -1)
    } else if face == 3 {
        (0, 1)
    } else if face == 4 {
        (2, 1)
    } else {
        (2, -1)
    }
}

/// The offset of `c` along `axis`.
pub open spec fn offset_along(c: Corner, axis: int) -> int {
    if axis == 0 {
        c.dx as int
    } else if axis == 1 {
        c.dy as int
    } else {
        c.dz as int
    }
}

pub struct CubeVertices;

impl CubeVertices {
    /// The cube's 24 vertices around its centre, with the face each one
    /// belongs to.
    pub fn corners() -> (r: Vec<Corner>)
        ensures
            r@ == spec_corners(),
    {
        let r = vec![
            Corner { dx: -1, dy: 1, dz: -1, face: 0 },
            Corner { dx: 1, dy: 1, dz: -1, face: 0 },
            Corner { dx: 1, dy: 1, dz: 1, face: 0 },
            Corner { dx: -1, dy: 1, dz: 1, face: 0 },
            Corner { dx: -1, dy: -1, dz: -1, face: 1 },
            Corner { dx: 1, dy: -1, dz: -1, face: 1 },
            Corner { dx: 1, dy: -1, dz: 1, face: 1 },
            Corner { dx: -1, dy: -1, dz: 1, face: 1 },
            Corner { dx: -1, dy: -1, dz: -1, face: 2 },
            Corner { dx: -1, dy: 1, dz: -1, face: 2 },
            Corner { dx: -1, dy: 1, dz: 1, face: 2 },
            Corner { dx: -1, dy: -1, dz: 1, face: 2 },
            Corner { dx: 1, dy: -1, dz: -1, face: 3 },
            Corner { dx: 1, dy: 1, dz: -1, face: 3 },
            Corner { dx: 1, dy: 1, dz: 1, face: 3 },
            Corner { dx: 1, dy: -1, dz: 1, face: 3 },
            Corner { dx: -1, dy: -1, dz: 1, face: 4 },
            Corner { dx: 1, dy: -1, dz: 1, face: 4 },
            Corner { dx: 1, dy: 1, dz: 1, face: 4 },
            Corner { dx: -1, dy: 1, dz: 1, face: 4 },
            Corner { dx: -1, dy: -1, dz: -1, face: 5 },
            Corner { dx: 1, dy: -1, dz: -1, face: 5 },
            Corner { dx: 1, dy: 1, dz: -1, face: 5 },
            Corner { dx: -1, dy: 1, dz: -1, face: 5 },
        ];
        assert(r@ =~= spec_corners());
        r
    }
}

/// The index data and the vertices agree: every index of face `f` of cube
/// `i` refers to a vertex of face `f`, lying in that face's plane.
pub proof fn lemma_indices_match_corners(i: VertexData)
    requires
        i <= MAX_CUBE,
    ensures
        forall|k: int|
            0 <= k < INDEX_COUNT ==> {
                let c = spec_corners()[#[trigger] cube_seq(spec_cube_indices(i))[k] - 24 * i];
                &&& c.face == k / 6
                &&& offset_along(c, face_plane(k / 6).0) == face_plane(k / 6).1
            },
{
    let b = 24 * i;
    let s = cube_seq(spec_cube_indices(i));
    let local = seq![
        0int, 1, 2, 2, 3, 0,
        7, 6, 5, 5, 4, 7,
        8, 9, 10, 10, 11, 8,
        15, 14, 13, 13, 12, 15,
        19, 18, 17, 17, 16, 19,
        20, 21, 22, 22, 23, 20
    ];
    assert forall|k: int| 0 <= k < 36 implies s[k] as int == b + local[k] by {
        assert(b + 23 <= u16::MAX);
    }
    assert forall|k: int| 0 <= k < INDEX_COUNT implies {
        let c = spec_corners()[#[trigger] s[k] - b];
        &&& c.face == k / 6
        &&& offset_along(c, face_plane(k / 6).0) == face_plane(k / 6).1
    } by {
        assert(s[k] - b == local[k]);
    }
}

/// Every cube's index data is cube 0's moved to its own block of vertices:
/// index `k` of cube `i` is index `k` of cube 0 plus `24 i`, so every cube
/// has the same triangles, wound the same way.
pub proof fn lemma_cube_indices_shift(i: VertexData)
    requires
        i <= MAX_CUBE,
    ensures
        cube_seq(spec_cube_indices(i)).len() == cube_seq(spec_cube_indices(0)).len(),
        forall|k: int|
            0 <= k < INDEX_COUNT ==> #[trigger] cube_seq(spec_cube_indices(i))[k] == cube_seq(spec_cube_indices(0))[k]
                + 24 * i,
{
    let s = cube_seq(spec_cube_indices(i));
    let z = cube_seq(spec_cube_indices(0));
    assert(24 * i + 23 <= u16::MAX);
    assert forall|k: int| 0 <= k < INDEX_COUNT implies #[trigger] s[k] == z[k] + 24 * i by {
        assert(s.len() == 36 && z.len() == 36);
    }
}

/// The position of corner `c`, as the offsets along each axis.
pub open spec fn corner_position(c: Corner) -> (int, int, int) {
    (c.dx as int, c.dy as int, c.dz as int)
}

/// How the triangle `a b c` turns seen from outside face `face`: the
/// component of `(b - a) × (c - a)` along the face's outward normal.
/// Negative is clockwise seen from outside.
pub open spec fn outward_turn(a: Corner, b: Corner, c: Corner, face: int) -> int {
    let (ax, ay, az) = corner_position(a);
    let (bx, by, bz) = corner_position(b);
    let (cx, cy, cz) = corner_position(c);
    let (ux, uy, uz) = (bx - ax, by - ay, bz - az);
    let (vx, vy, vz) = (cx - ax, cy - ay, cz - az);
    let (axis, sign) = face_plane(face);
    let n = if axis == 0 {
        uy * vz - uz * vy
    } else if axis == 1 {
        uz * vx - ux * vz
    } else {
        ux * vy - uy * vx
    };
    sign * n
}

/// The corner that index `k` of cube `i` refers to.
pub open spec fn cube_corner(i: VertexData, k: int) -> Corner {
    spec_corners()[cube_seq(spec_cube_indices(i))[k] - 24 * i]
}

/// Every triangle of every cube is wound clockwise seen from outside the
/// face it belongs to, so all twelve triangles of a cube face the same way
/// and culling keeps or drops whole faces alike.
pub proof fn lemma_cube_triangles_wound_alike(i: VertexData)
    requires
        i <= MAX_CUBE,
    ensures
        forall|t: int|
            0 <= t < 12 ==> #[trigger] outward_turn(
                cube_corner(i, 3 * t),
                cube_corner(i, 3 * t + 1),
                cube_corner(i, 3 * t + 2),
                t / 2,
            ) < 0,
{
    let b = 24 * i;
    let s = cube_seq(spec_cube_indices(i));
    let local = seq![
        0int, 1, 2, 2, 3, 0,
        7, 6, 5, 5, 4, 7,
        8, 9, 10, 10, 11, 8,
        15, 14, 13, 13, 12, 15,
        19, 18, 17, 17, 16, 19,
        20, 21, 22, 22, 23, 20
    ];
    assert forall|k: int| 0 <= k < 36 implies s[k] as int == b + local[k] by {
        assert(b + 23 <= u16::MAX);
    }
    let cs = spec_corners();
    assert forall|t: int| 0 <= t < 12 implies #[trigger] outward_turn(
        cube_corner(i, 3 * t),
        cube_corner(i, 3 * t + 1),
        cube_corner(i, 3 * t + 2),
        t / 2,
    ) < 0 by {
        assert(cube_corner(i, 3 * t) == cs[local[3 * t]]);
        assert(cube_corner(i, 3 * t + 1) == cs[local[3 * t + 1]]);
        assert(cube_corner(i, 3 * t + 2) == cs[local[3 * t + 2]]);
        if t == 0 {
            assert(local[0] == 0 && local[1] == 1 && local[2] == 2);
            assert(outward_turn(spec_corners()[0], spec_corners()[1], spec_corners()[2], 0) == -4) by (nonlinear_arith)
                requires
                    spec_corners()[0] == corner(-1, 1, -1, 0), spec_corners()[1] == corner(1, 1, -1, 0), spec_corners()[2] == corner(1, 1, 1, 0),
            ;
        } else if t == 1 {
            assert(local[3] == 2 && local[4] == 3 && local[5] == 0);
            assert(outward_turn(spec_corners()[2], spec_corners()[3], spec_corners()[0], 0) == -4) by (nonlinear_arith)
                requires
                    spec_corners()[2] == corner(1, 1, 1, 0), spec_corners()[3] == corner(-1, 1, 1, 0), spec_corners()[0] == corner(-1, 1, -1, 0),
            ;
        } else if t == 2 {
            assert(local[6] == 7 && local[7] == 6 && local[8] == 5);
            assert(outward_turn(spec_corners()[7], spec_corners()[6], spec_corners()[5], 1) == -4) by (nonlinear_arith)
                requires
                    spec_corners()[7] == corner(-1, -1, 1, 1), spec_corners()[6] == corner(1, -1, 1, 1), spec_corners()[5] == corner(1, -1, -1, 1),
            ;
        } else if t == 3 {
            assert(local[9] == 5 && local[10] == 4 && local[11] == 7);
            assert(outward_turn(spec_corners()[5], spec_corners()[4], spec_corners()[7], 1) == -4) by (nonlinear_arith)
                requires
                    spec_corners()[5] == corner(1, -1, -1, 1), spec_corners()[4] == corner(-1, -1, -1, 1), spec_corners()[7] == corner(-1, -1, 1, 1),
            ;
        } else if t == 4 {
            assert(local[12] == 8 && local[13] == 9 && local[14] == 10);
            assert(outward_turn(spec_corners()[8], spec_corners()[9], spec_corners()[10], 2) == -4) by (nonlinear_arith)
                requires
                    spec_corners()[8] == corner(-1, -1, -1, 2), spec_corners()[9] == corner(-1, 1, -1, 2), spec_corners()[10] == corner(-1, 1, 1, 2),
            ;
        } else if t == 5 {
            assert(local[15] == 10 && local[16] == 11 && local[17] == 8);
            assert(outward_turn(spec_corners()[10], spec_corners()[11], spec_corners()[8], 2) == -4) by (nonlinear_arith)
                requires
                    spec_corners()[10] == corner(-1, 1, 1, 2), spec_corners()[11] == corner(-1, -1, 1, 2), spec_corners()[8] == corner(-1, -1, -1, 2),
            ;
        } else if t == 6 {
            assert(local[18] == 15 && local[19] == 14 && local[20] == 13);
            assert(outward_turn(spec_corners()[15], spec_corners()[14], spec_corners()[13], 3) == -4) by (nonlinear_arith)
                requires
                    spec_corners()[15] == corner(1, -1, 1, 3), spec_corners()[14] == corner(1, 1, 1, 3), spec_corners()[13] == corner(1, 1, -1, 3),
            ;
        } else if t == 7 {
            assert(local[21] == 13 && local[22] == 12 && local[23] == 15);
            assert(outward_turn(spec_corners()[13], spec_corners()[12], spec_corners()[15], 3) == -4) by (nonlinear_arith)
                requires
                    spec_corners()[13] == corner(1, 1, -1, 3), spec_corners()[12] == corner(1, -1, -1, 3), spec_corners()[15] == corner(1, -1, 1, 3),
            ;
        } else if t == 8 {
            assert(local[24] == 19 && local[25] == 18 && local[26] == 17);
            assert(outward_turn(spec_corners()[19], spec_corners()[18], spec_corners()[17], 4) == -4) by (nonlinear_arith)
                requires
                    spec_corners()[19] == corner(-1, 1, 1, 4), spec_corners()[18] == corner(1, 1, 1, 4), spec_corners()[17] == corner(1, -1, 1, 4),
            ;
        } else if t == 9 {
            assert(local[27] == 17 && local[28] == 16 && local[29] == 19);
            assert(outward_turn(spec_corners()[17], spec_corners()[16], spec_corners()[19], 4) == -4) by (nonlinear_arith)
                requires
                    spec_corners()[17] == corner(1, -1, 1, 4), spec_corners()[16] == corner(-1, -1, 1, 4), spec_corners()[19] == corner(-1, 1, 1, 4),
            ;
        } else if t == 10 {
            assert(local[30] == 20 && local[31] == 21 && local[32] == 22);
            assert(outward_turn(spec_corners()[20], spec_corners()[21], spec_corners()[22], 5) == -4) by (nonlinear_arith)
                requires
                    spec_corners()[20] == corner(-1, -1, -1, 5), spec_corners()[21] == corner(1, -1, -1, 5), spec_corners()[22] == corner(1, 1, -1, 5),
            ;
        } else if t == 11 {
            assert(local[33] == 22 && local[34] == 23 && local[35] == 20);
            assert(outward_turn(spec_corners()[22], spec_corners()[23], spec_corners()[20], 5) == -4) by (nonlinear_arith)
                requires
                    spec_corners()[22] == corner(1, 1, -1, 5), spec_corners()[23] == corner(-1, 1, -1, 5), spec_corners()[20] == corner(-1, -1, -1, 5),
            ;
        }
    }
}

} // verus!
