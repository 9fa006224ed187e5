//! The normal accumulator, in exact integer arithmetic.
//!
//! Positions are scaled so that every coordinate is an integer: a lattice step
//! is `HORIZONTAL_UNIT` units and a vertex height (mean sample times the height
//! scale) is `HEIGHT_SCALE_NUM * (12 * sample_sum / sample_count)` units; the
//! mean of at most four samples times 12 is always whole. Face normals are
//! then exact integer cross products, and their sums point in the same
//! direction as those of the real positions. An accumulated vector is either
//! zero (no triangle touches the vertex) or at least one unit long.

use vstd::prelude::*;
use crate::vertices::TerrainVertex;
use crate::triangles::{vertex_point, indices_valid, index_points};

verus! {

/// Numerator of the height scale (heights are `sample * NUM / DEN`).
pub const HEIGHT_SCALE_NUM: u32 = 3;

/// Denominator of the height scale.
pub const HEIGHT_SCALE_DEN: u32 = 10;

/// Length of one lattice step in the scaled units: `12 * HEIGHT_SCALE_DEN`.
pub const HORIZONTAL_UNIT: i64 = 120;

/// Bound on each component of one face normal in scaled units.
pub open spec fn face_bound() -> int {
    4194304
}

pub type Normal = (i128, i128, i128);

pub open spec fn zero_normal() -> (int, int, int) {
    (0, 0, 0)
}

pub open spec fn up_normal() -> (int, int, int) {
    (0, 1, 0)
}

pub open spec fn vadd(a: (int, int, int), b: (int, int, int)) -> (int, int, int) {
    (a.0 + b.0, a.1 + b.1, a.2 + b.2)
}

/// The cross product `(b - a) x (c - a)`.
pub open spec fn face_normal(a: (int, int, int), b: (int, int, int), c: (int, int, int)) -> (int, int, int) {
    let u = (b.0 - a.0, b.1 - a.1, b.2 - a.2);
    let v = (c.0 - a.0, c.1 - a.1, c.2 - a.2);
    (u.1 * v.2 - u.2 * v.1, u.2 * v.0 - u.0 * v.2, u.0 * v.1 - u.1 * v.0)
}

/// Height of a vertex in scaled units.
pub open spec fn scaled_height(sum: int, count: int) -> int {
    HEIGHT_SCALE_NUM * ((12 * sum) / count)
}

/// Position of a vertex in scaled units (world coordinates, not chunk-local).
pub open spec fn scaled_position(v: TerrainVertex) -> (int, int, int) {
    (
        HORIZONTAL_UNIT * v.x,
        scaled_height(v.sample_sum as int, v.sample_count as int),
        HORIZONTAL_UNIT * v.z,
    )
}

/// The vector added to vertex `v` by the triangle of vertices `i0, i1, i2`:
/// the face normal, once for each corner that is `v`.
pub open spec fn index_contribution(verts: Seq<TerrainVertex>, i0: int, i1: int, i2: int, v: int) -> (int, int, int) {
    let n = face_normal(scaled_position(verts[i0]), scaled_position(verts[i1]), scaled_position(verts[i2]));
    vadd(
        vadd(if i0 == v { n } else { zero_normal() }, if i1 == v { n } else { zero_normal() }),
        if i2 == v { n } else { zero_normal() },
    )
}

/// Sum of the contributions of the first `k` triangles of `idx` to vertex `v`.
pub open spec fn index_normal_sum(verts: Seq<TerrainVertex>, idx: Seq<u32>, k: int, v: int) -> (int, int, int)
    decreases k,
{
    if k <= 0 {
        zero_normal()
    } else {
        vadd(
            index_normal_sum(verts, idx, k - 1, v),
            index_contribution(verts, idx[3 * k - 3] as int, idx[3 * k - 2] as int, idx[3 * k - 1] as int, v),
        )
    }
}

/// The final normal of an accumulated vector: the up vector where nothing
/// was accumulated, else the vector itself (its direction is the normal).
pub open spec fn finish_normal(acc: (int, int, int)) -> (int, int, int) {
    if acc == zero_normal() {
        up_normal()
    } else {
        acc
    }
}

pub open spec fn normal_view(n: Normal) -> (int, int, int) {
    (n.0 as int, n.1 as int, n.2 as int)
}

pub open spec fn near(p: (int, int), q: (int, int)) -> bool {
    -1 <= p.0 - q.0 <= 1 && -1 <= p.1 - q.1 <= 1
}

/// The corners of triangle `t` lie within one cell of each other.
pub open spec fn triangle_local(s: Seq<(int, int)>, t: int) -> bool {
    near(s[3 * t], s[3 * t + 1]) && near(s[3 * t], s[3 * t + 2])
}

/// `s` is a list of corner triples, each within one cell.
pub open spec fn local_triples(s: Seq<(int, int)>) -> bool {
    &&& s.len() % 3 == 0
    &&& forall|t: int| 0 <= t < s.len() / 3 ==> #[trigger] triangle_local(s, t)
}

/// A vertex of the terrain: at least one sample, each at most 255.
pub open spec fn vertex_data_ok(v: TerrainVertex) -> bool {
    1 <= v.sample_count <= 4 && v.sample_sum <= 255 * v.sample_count
}

pub open spec fn within(a: (int, int, int), bound: int) -> bool {
    -bound <= a.0 <= bound && -bound <= a.1 <= bound && -bound <= a.2 <= bound
}

/// Resolves an accumulated normal: the up vector where it is zero.
pub fn finalize_normal(acc: Normal) -> (r: Normal)
    ensures
        normal_view(r) == finish_normal(normal_view(acc)),
        normal_view(r) != zero_normal(),
{
    if acc.0 == 0 && acc.1 == 0 && acc.2 == 0 {
        (0, 1, 0)
    } else {
        acc
    }
}

fn height_units(v: &TerrainVertex) -> (r: i64)
    requires
        vertex_data_ok(*v),
    ensures
        r == scaled_height(v.sample_sum as int, v.sample_count as int),
        0 <= r <= 9180,
{
    let mean12 = (12 * v.sample_sum) / v.sample_count;
    assert(mean12 <= 3060) by (nonlinear_arith)
        requires
            mean12 == (12 * v.sample_sum as int) / v.sample_count as int,
            1 <= v.sample_count <= 4,
            v.sample_sum <= 255 * v.sample_count,
    ;
    HEIGHT_SCALE_NUM as i64 * mean12 as i64
}

proof fn lemma_product_bound(a: int, b: int, ba: int, bb: int)
    requires
        -ba <= a <= ba,
        -bb <= b <= bb,
    ensures
        -(ba * bb) <= a * b <= ba * bb,
{
    assert(-(ba * bb) <= a * b <= ba * bb) by (nonlinear_arith)
        requires
            -ba <= a <= ba,
            -bb <= b <= bb,
    ;
}

/// The face normal of the triangle `p0, p1, p2` in scaled units.
fn face_normal_of(p0: &TerrainVertex, p1: &TerrainVertex, p2: &TerrainVertex) -> (r: (i64, i64, i64))
    requires
        vertex_data_ok(*p0),
        vertex_data_ok(*p1),
        vertex_data_ok(*p2),
        near(vertex_point(*p0), vertex_point(*p1)),
        near(vertex_point(*p0), vertex_point(*p2)),
    ensures
        (r.0 as int, r.1 as int, r.2 as int) == face_normal(scaled_position(*p0), scaled_position(*p1), scaled_position(*p2)),
        within((r.0 as int, r.1 as int, r.2 as int), face_bound()),
{
    let h0 = height_units(p0);
    let h1 = height_units(p1);
    let h2 = height_units(p2);
    let ux = HORIZONTAL_UNIT * (p1.x as i64 - p0.x as i64);
    let uy = h1 - h0;
    let uz = HORIZONTAL_UNIT * (p1.z as i64 - p0.z as i64);
    let vx = HORIZONTAL_UNIT * (p2.x as i64 - p0.x as i64);
    let vy = h2 - h0;
    let vz = HORIZONTAL_UNIT * (p2.z as i64 - p0.z as i64);
    proof {
        lemma_product_bound(uy as int, vz as int, 9180, 120);
        lemma_product_bound(uz as int, vy as int, 120, 9180);
        lemma_product_bound(uz as int, vx as int, 120, 120);
        lemma_product_bound(ux as int, vz as int, 120, 120);
        lemma_product_bound(ux as int, vy as int, 120, 9180);
        lemma_product_bound(uy as int, vx as int, 9180, 120);
    }
    (uy * vz - uz * vy, uz * vx - ux * vz, ux * vy - uy * vx)
}

pub open spec fn corner_share(i0: int, i1: int, i2: int, v: int, n: (int, int, int)) -> (int, int, int) {
    vadd(
        vadd(if i0 == v { n } else { zero_normal() }, if i1 == v { n } else { zero_normal() }),
        if i2 == v { n } else { zero_normal() },
    )
}

proof fn lemma_share_bound(i0: int, i1: int, i2: int, v: int, n: (int, int, int), a: (int, int, int), bound: int)
    requires
        within(n, face_bound()),
        within(a, bound),
    ensures
        within(vadd(a, corner_share(i0, i1, i2, v, n)), bound + 3 * face_bound()),
{
}

/// Adds face normal `n` to the accumulated normals of corners `i0, i1, i2`.
fn add_face(normals: &mut Vec<Normal>, i0: usize, i1: usize, i2: usize, n: (i64, i64, i64), bound: Ghost<int>)
    requires
        i0 < old(normals)@.len(),
        i1 < old(normals)@.len(),
        i2 < old(normals)@.len(),
        forall|j: int| 0 <= j < old(normals)@.len() ==> within(normal_view(#[trigger] old(normals)@[j]), bound@),
        0 <= bound@,
        bound@ + 3 * face_bound() < 0x4000_0000_0000_0000_0000_0000_0000_0000,
        within((n.0 as int, n.1 as int, n.2 as int), face_bound()),
    ensures
        final(normals)@.len() == old(normals)@.len(),
        forall|j: int|
            0 <= j < old(normals)@.len() ==> normal_view(#[trigger] final(normals)@[j]) == vadd(
                normal_view(old(normals)@[j]),
                corner_share(i0 as int, i1 as int, i2 as int, j, (n.0 as int, n.1 as int, n.2 as int)),
            ),
{
    let ghost start = normals@;
    let ghost nv = (n.0 as int, n.1 as int, n.2 as int);
    let a = normals[i0];
    normals.set(i0, (a.0 + n.0 as i128, a.1 + n.1 as i128, a.2 + n.2 as i128));
    let ghost s1 = normals@;
    assert(within(normal_view(normals@[i1 as int]), bound@ + face_bound()));
    let b = normals[i1];
    normals.set(i1, (b.0 + n.0 as i128, b.1 + n.1 as i128, b.2 + n.2 as i128));
    assert(within(normal_view(normals@[i2 as int]), bound@ + 2 * face_bound()));
    let c = normals[i2];
    normals.set(i2, (c.0 + n.0 as i128, c.1 + n.1 as i128, c.2 + n.2 as i128));
    assert forall|j: int| 0 <= j < start.len() implies normal_view(#[trigger] normals@[j]) == vadd(
        normal_view(start[j]),
        corner_share(i0 as int, i1 as int, i2 as int, j, nv),
    ) by {
        assert(within(normal_view(start[j]), bound@));
    }
}

/// Accumulates the face normal of every triangle of `all_indices` into each of
/// its corners, then resolves each vertex's sum with [`finalize_normal`].
pub fn calculate_normals(all_indices: &Vec<u32>, verts: &Vec<TerrainVertex>) -> (r: Vec<Normal>)
    requires
        indices_valid(verts@, all_indices@),
        local_triples(index_points(verts@, all_indices@)),
        forall|i: int| 0 <= i < verts@.len() ==> vertex_data_ok(#[trigger] verts@[i]),
    ensures
        r@.len() == verts@.len(),
        forall|v: int|
            0 <= v < verts@.len() ==> normal_view(#[trigger] r@[v]) == finish_normal(
                index_normal_sum(verts@, all_indices@, (all_indices@.len() / 3) as int, v),
            ),
{
    let n = verts.len();
    let mut normals: Vec<Normal> = Vec::new();
    let mut i: usize = 0;
    while i < n
        invariant
            n == verts@.len(),
            i <= n,
            normals@.len() == i,
            forall|v: int| 0 <= v < i ==> normal_view(#[trigger] normals@[v]) == zero_normal(),
        decreases n - i,
    {
        normals.push((0, 0, 0));
        i = i + 1;
    }
    let len = all_indices.len();
    let ntri = len / 3;
    let ghost pts = index_points(verts@, all_indices@);
    let mut t: usize = 0;
    while t < ntri
        invariant
            n == verts@.len(),
            normals@.len() == n,
            t <= ntri,
            ntri == all_indices@.len() / 3,
            len == all_indices@.len(),
            all_indices@.len() % 3 == 0,
            pts == index_points(verts@, all_indices@),
            indices_valid(verts@, all_indices@),
            local_triples(pts),
            forall|i: int| 0 <= i < verts@.len() ==> vertex_data_ok(#[trigger] verts@[i]),
            forall|v: int|
                0 <= v < n ==> normal_view(#[trigger] normals@[v]) == index_normal_sum(verts@, all_indices@, t as int, v),
            forall|v: int| 0 <= v < n ==> within(normal_view(#[trigger] normals@[v]), 3 * t * face_bound()),
        decreases ntri - t,
    {
        assert(3 * t + 3 <= all_indices@.len());
        let base = 3 * t;
        let i0 = all_indices[base] as usize;
        let i1 = all_indices[base + 1] as usize;
        let i2 = all_indices[base + 2] as usize;
        proof {
            assert(triangle_local(pts, t as int));
            assert(pts[3 * t] == vertex_point(verts@[i0 as int]));
            assert(pts[3 * t + 1] == vertex_point(verts@[i1 as int]));
            assert(pts[3 * t + 2] == vertex_point(verts@[i2 as int]));
        }
        let p0 = verts[i0];
        let p1 = verts[i1];
        let p2 = verts[i2];
        let face = face_normal_of(&p0, &p1, &p2);
        let ghost before = normals@;
        proof {
            assert forall|j: int| 0 <= j < n implies within(normal_view(#[trigger] before[j]), 3 * t * face_bound()) by {}
            assert(3 * t * face_bound() + 3 * face_bound() == 3 * (t + 1) * face_bound()) by (nonlinear_arith);
            assert(3 * (t + 1) * face_bound() <= 3 * len * face_bound()) by (nonlinear_arith)
                requires t + 1 <= len;
        }
        add_face(&mut normals, i0, i1, i2, face, Ghost(3 * t * face_bound()));
        proof {
            let nv = (face.0 as int, face.1 as int, face.2 as int);
            assert forall|v: int| 0 <= v < n implies normal_view(#[trigger] normals@[v]) == index_normal_sum(verts@, all_indices@, t + 1, v)
                && within(normal_view(normals@[v]), 3 * (t + 1) * face_bound()) by {
                assert(3 * (t + 1) - 3 == base);
                assert(index_contribution(verts@, i0 as int, i1 as int, i2 as int, v) == corner_share(i0 as int, i1 as int, i2 as int, v, nv));
                lemma_share_bound(i0 as int, i1 as int, i2 as int, v, nv, normal_view(before[v]), 3 * t * face_bound());
            }
        }
        t = t + 1;
    }
    let mut out: Vec<Normal> = Vec::new();
    let mut k: usize = 0;
    while k < n
        invariant
            n == verts@.len(),
            normals@.len() == n,
            k <= n,
            out@.len() == k,
            ntri == all_indices@.len() / 3,
            forall|v: int|
                0 <= v < n ==> normal_view(#[trigger] normals@[v]) == index_normal_sum(verts@, all_indices@, ntri as int, v),
            forall|v: int|
                0 <= v < k ==> normal_view(#[trigger] out@[v]) == finish_normal(
                    index_normal_sum(verts@, all_indices@, (all_indices@.len() / 3) as int, v),
                ),
        decreases n - k,
    {
        let fin = finalize_normal(normals[k]);
        out.push(fin);
        k = k + 1;
    }
    out
}

} // verus!
