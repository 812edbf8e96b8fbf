//! Mouse picking against the cached screen projections.
//!
//! Both queries scan from scratch each call, compare squared pixel
//! distances exactly, keep the first-encountered minimum (ties go to the
//! earlier index - implementation-defined and documented here), and answer
//! only when the minimum is strictly inside the pick radius of
//! [`MAX_DIST`] pixels. A vertex with no cached projection, or an edge with
//! an unprojected endpoint, is never a candidate.
//!
//! The edge distance is the perpendicular point-to-segment distance. The
//! cursor must fall over the segment's span: if either squared triangle
//! side exceeds the squared base plus the other side (the perpendicular
//! foot lies beyond an endpoint), the edge is not a candidate; an edge
//! whose endpoints project to the same pixel is degenerate and is not a
//! candidate either. On the span, the squared distance is `cross^2 / s1`
//! (floored), where `cross` is the 2D cross product of the edge vector with
//! the cursor offset and `s1` the squared edge length - the same quantity
//! the triangle-area (Heron) form `(2 * area / base)^2` yields, computed
//! without square roots.

use vstd::prelude::*;
use vstd::arithmetic::div_mod::lemma_div_nonincreasing;
use vstd::arithmetic::div_mod::lemma_div_pos_is_pos;
use crate::vector::Vec4f;
use crate::objects::Object;
use crate::objects::object_wf;
use crate::projection::SCREEN_LIM;

verus! {

/// The pick radius in pixels: a hit must be strictly nearer than this.
pub const MAX_DIST: i64 = 20;

/// The squared pick radius, against which squared distances are compared.
pub const MAX_DIST_SQ: i64 = 400;

/// Squared planar Euclidean distance between two pixel points.
pub open spec fn planar_dist_sq(x1: int, y1: int, x2: int, y2: int) -> int {
    (x1 - x2) * (x1 - x2) + (y1 - y2) * (y1 - y2)
}

/// Every cached projection in `vs` lies inside the saturation bound.
pub open spec fn projs_wf(vs: Seq<Vec4f>) -> bool {
    forall|i: int| 0 <= i < vs.len() ==> ((#[trigger] vs[i]).proj matches Some(p) ==> -SCREEN_LIM
        <= p.0 <= SCREEN_LIM && -SCREEN_LIM <= p.1 <= SCREEN_LIM)
}

/// Vertex `i` takes part in picking: it has a projection this frame.
pub open spec fn v_cand(vs: Seq<Vec4f>, i: int) -> bool {
    vs[i].proj is Some
}

/// Squared pixel distance from the cursor to vertex `i`'s projection.
pub open spec fn v_dist(vs: Seq<Vec4f>, i: int, x: int, y: int) -> int {
    planar_dist_sq(x, y, vs[i].proj->Some_0.0 as int, vs[i].proj->Some_0.1 as int)
}

/// The first-encountered nearest projected vertex among the first `n`.
pub open spec fn closest_vertex_upto(vs: Seq<Vec4f>, x: int, y: int, n: int) -> Option<int>
    decreases n,
{
    if n <= 0 {
        None
    } else {
        let prev = closest_vertex_upto(vs, x, y, n - 1);
        if v_cand(vs, n - 1) {
            match prev {
                None => Some(n - 1),
                Some(b) => if v_dist(vs, n - 1, x, y) < v_dist(vs, b, x, y) {
                    Some(n - 1)
                } else {
                    prev
                },
            }
        } else {
            prev
        }
    }
}

/// The vertex the cursor picks: the first-encountered nearest projected
/// vertex, if its distance is strictly inside the pick radius.
pub open spec fn vertex_pick(vs: Seq<Vec4f>, x: int, y: int) -> Option<int> {
    match closest_vertex_upto(vs, x, y, vs.len() as int) {
        None => None,
        Some(b) => if v_dist(vs, b, x, y) < MAX_DIST_SQ {
            Some(b)
        } else {
            None
        },
    }
}

/// An executable `Option<usize>` answer agrees with a ghost `Option<int>`.
pub open spec fn opt_idx_matches(a: Option<usize>, b: Option<int>) -> bool {
    &&& (a is Some) == (b is Some)
    &&& (a matches Some(v) ==> b == Some(v as int))
}

/// Squared planar distance, computed exactly in 64 bits.
fn dist2d_sq(x1: i64, y1: i64, x2: i64, y2: i64) -> (r: i64)
    requires
        -SCREEN_LIM <= x1 <= SCREEN_LIM,
        -SCREEN_LIM <= y1 <= SCREEN_LIM,
        -SCREEN_LIM <= x2 <= SCREEN_LIM,
        -SCREEN_LIM <= y2 <= SCREEN_LIM,
    ensures
        r == planar_dist_sq(x1 as int, y1 as int, x2 as int, y2 as int),
        0 <= r <= 0x20000000000,
{
    let dx = x1 - x2;
    let dy = y1 - y2;
    proof {
        assert(0 <= dx * dx <= 0x10000000000 && 0 <= dy * dy <= 0x10000000000)
            by (nonlinear_arith)
            requires
                -0x100000 <= dx <= 0x100000,
                -0x100000 <= dy <= 0x100000,
        ;
    }
    dx * dx + dy * dy
}

/// Scan all projected vertices for the one nearest the cursor; answer only
/// if the least distance is strictly inside the pick radius, the earliest
/// index winning ties.
pub fn find_closest_vertice(x: i64, y: i64, vertices: &Vec<Vec4f>) -> (r: Option<usize>)
    requires
        -SCREEN_LIM <= x <= SCREEN_LIM,
        -SCREEN_LIM <= y <= SCREEN_LIM,
        projs_wf(vertices@),
    ensures
        opt_idx_matches(r, vertex_pick(vertices@, x as int, y as int)),
        r matches Some(i) ==> 0 <= i < vertices@.len() && v_cand(vertices@, i as int) && v_dist(
            vertices@,
            i as int,
            x as int,
            y as int,
        ) < MAX_DIST_SQ,
        r matches Some(i) ==> forall|j: int|
            0 <= j < vertices@.len() && v_cand(vertices@, j) ==> #[trigger] v_dist(
                vertices@,
                j,
                x as int,
                y as int,
            ) >= v_dist(vertices@, i as int, x as int, y as int),
        r matches Some(i) ==> forall|j: int|
            0 <= j < i && v_cand(vertices@, j) ==> #[trigger] v_dist(vertices@, j, x as int,
            y as int) > v_dist(vertices@, i as int, x as int, y as int),
        r is None ==> forall|j: int|
            0 <= j < vertices@.len() && v_cand(vertices@, j) ==> #[trigger] v_dist(
                vertices@,
                j,
                x as int,
                y as int,
            ) >= MAX_DIST_SQ,
{
    let n = vertices.len();
    let mut closest: Option<usize> = None;
    let mut min_dist: Option<i64> = None;
    let mut i: usize = 0;
    while i < n
        invariant
            n == vertices@.len(),
            i <= n,
            -SCREEN_LIM <= x <= SCREEN_LIM,
            -SCREEN_LIM <= y <= SCREEN_LIM,
            projs_wf(vertices@),
            (closest is Some) == (min_dist is Some),
            opt_idx_matches(closest, closest_vertex_upto(vertices@, x as int, y as int, i as int)),
            closest matches Some(c) ==> 0 <= c < i && v_cand(vertices@, c as int) && min_dist
                is Some && min_dist->Some_0 as int == v_dist(vertices@, c as int, x as int,
            y as int),
            min_dist matches Some(md) ==> 0 <= md <= 0x20000000000,
            forall|j: int| 0 <= j < i && v_cand(vertices@, j) ==> min_dist is Some && #[trigger]
                v_dist(vertices@, j, x as int, y as int) >= min_dist->Some_0,
            closest matches Some(c) ==> forall|j: int|
                0 <= j < c && v_cand(vertices@, j) ==> #[trigger] v_dist(vertices@, j, x as int,
                y as int) > min_dist->Some_0,
        decreases n - i,
    {
        let ghost m0 = min_dist;
        if let Some(p) = vertices[i].get_proj() {
            let d = dist2d_sq(x, y, p.0, p.1);
            proof {
                assert(v_dist(vertices@, i as int, x as int, y as int) == d);
            }
            if let Some(md) = min_dist {
                if d < md {
                    min_dist = Some(d);
                    closest = Some(i);
                }
            } else {
                min_dist = Some(d);
                closest = Some(i);
            }
        }
        proof {
            assert forall|j: int| 0 <= j < i + 1 && v_cand(vertices@, j) implies min_dist is Some
                && #[trigger] v_dist(vertices@, j, x as int, y as int) >= min_dist->Some_0 by {
                if j == i {
                    assert(min_dist is Some);
                    assert(v_dist(vertices@, j, x as int, y as int) >= min_dist->Some_0);
                } else {
                    let dj = v_dist(vertices@, j, x as int, y as int);
                    assert(m0 is Some && dj >= m0->Some_0);
                    assert(min_dist is Some);
                    assert(min_dist->Some_0 <= m0->Some_0);
                }
            }
        }
        i = i + 1;
    }
    if let Some(d) = min_dist {
        if d < MAX_DIST_SQ {
            closest
        } else {
            None
        }
    } else {
        None
    }
}

/// The 2D cross product of the edge vector `b - a` with the cursor offset
/// from `a`: twice the signed triangle area.
pub open spec fn edge_cross(ax: int, ay: int, bx: int, by: int, x: int, y: int) -> int {
    (bx - ax) * (y - ay) - (by - ay) * (x - ax)
}

/// The squared point-to-segment distance of the cursor from edge `e`, if
/// the edge is a candidate: both endpoints projected, the perpendicular
/// foot over the span, and the edge not degenerate. The value is floored to
/// whole squared pixels.
pub open spec fn edge_dist_opt(vs: Seq<Vec4f>, e: (usize, usize, bool), x: int, y: int) -> Option<
    int,
>
    recommends
        e.0 < vs.len(),
        e.1 < vs.len(),
{
    let pa = vs[e.0 as int].proj;
    let pb = vs[e.1 as int].proj;
    if pa is Some && pb is Some {
        let a = pa->Some_0;
        let b = pb->Some_0;
        let s1 = planar_dist_sq(a.0 as int, a.1 as int, b.0 as int, b.1 as int);
        let s2 = planar_dist_sq(a.0 as int, a.1 as int, x, y);
        let s3 = planar_dist_sq(x, y, b.0 as int, b.1 as int);
        if s2 > s1 + s3 {
            None
        } else if s3 > s1 + s2 {
            None
        } else if s1 == 0 {
            None
        } else {
            let cross = edge_cross(a.0 as int, a.1 as int, b.0 as int, b.1 as int, x, y);
            Some((cross * cross) / s1)
        }
    } else {
        None
    }
}

/// Edge `k` takes part in picking.
pub open spec fn e_cand(vs: Seq<Vec4f>, es: Seq<(usize, usize, bool)>, k: int, x: int, y: int) -> bool {
    edge_dist_opt(vs, es[k], x, y) is Some
}

/// The squared distance of candidate edge `k` from the cursor.
pub open spec fn e_dist(vs: Seq<Vec4f>, es: Seq<(usize, usize, bool)>, k: int, x: int, y: int) -> int {
    edge_dist_opt(vs, es[k], x, y)->Some_0
}

/// The first-encountered nearest candidate edge among the first `n`.
pub open spec fn closest_edge_upto(
    vs: Seq<Vec4f>,
    es: Seq<(usize, usize, bool)>,
    x: int,
    y: int,
    n: int,
) -> Option<int>
    decreases n,
{
    if n <= 0 {
        None
    } else {
        let prev = closest_edge_upto(vs, es, x, y, n - 1);
        if e_cand(vs, es, n - 1, x, y) {
            match prev {
                None => Some(n - 1),
                Some(b) => if e_dist(vs, es, n - 1, x, y) < e_dist(vs, es, b, x, y) {
                    Some(n - 1)
                } else {
                    prev
                },
            }
        } else {
            prev
        }
    }
}

/// The edge the cursor picks: the first-encountered nearest candidate edge,
/// if its distance is strictly inside the pick radius.
pub open spec fn edge_pick(vs: Seq<Vec4f>, es: Seq<(usize, usize, bool)>, x: int, y: int) -> Option<
    int,
> {
    match closest_edge_upto(vs, es, x, y, es.len() as int) {
        None => None,
        Some(b) => if e_dist(vs, es, b, x, y) < MAX_DIST_SQ {
            Some(b)
        } else {
            None
        },
    }
}

/// An edge is never a candidate when the cursor's perpendicular foot falls
/// outside the segment: with both endpoints projected, if either squared
/// cursor-to-endpoint distance exceeds the squared base plus the other
/// side, the edge yields no distance at all.
pub proof fn lemma_edge_foot_outside(vs: Seq<Vec4f>, e: (usize, usize, bool), x: int, y: int)
    requires
        e.0 < vs.len(),
        e.1 < vs.len(),
        vs[e.0 as int].proj is Some,
        vs[e.1 as int].proj is Some,
        ({
            let a = vs[e.0 as int].proj->Some_0;
            let b = vs[e.1 as int].proj->Some_0;
            let s1 = planar_dist_sq(a.0 as int, a.1 as int, b.0 as int, b.1 as int);
            let s2 = planar_dist_sq(a.0 as int, a.1 as int, x, y);
            let s3 = planar_dist_sq(x, y, b.0 as int, b.1 as int);
            s2 > s1 + s3 || s3 > s1 + s2
        }),
    ensures
        edge_dist_opt(vs, e, x, y) is None,
{
}

/// The running minimum is sound for the first `n` edges: every candidate
/// among them is at least `min_dist` away.
pub open spec fn edge_min_sound(
    vs: Seq<Vec4f>,
    es: Seq<(usize, usize, bool)>,
    x: int,
    y: int,
    n: int,
    min_dist: Option<i128>,
) -> bool {
    forall|j: int| 0 <= j < n && e_cand(vs, es, j, x, y) ==> min_dist is Some && #[trigger] e_dist(
        vs,
        es,
        j,
        x,
        y,
    ) >= min_dist->Some_0
}

/// The squared point-to-segment distance of the cursor from one edge, when
/// that edge is a candidate, exactly as [`edge_dist_opt`] states.
pub fn dist_to_edge(x: i64, y: i64, pair: &(usize, usize, bool), vertices: &Vec<Vec4f>) -> (r:
    Option<i128>)
    requires
        -SCREEN_LIM <= x <= SCREEN_LIM,
        -SCREEN_LIM <= y <= SCREEN_LIM,
        pair.0 < vertices@.len(),
        pair.1 < vertices@.len(),
        projs_wf(vertices@),
    ensures
        (r is Some) == (edge_dist_opt(vertices@, *pair, x as int, y as int) is Some),
        r matches Some(q) ==> edge_dist_opt(vertices@, *pair, x as int, y as int) == Some(q as int)
            && 0 <= q,
{
    let va = vertices[pair.0];
    let vb = vertices[pair.1];
    if let (Some(a), Some(b)) = (va.get_proj(), vb.get_proj()) {
        let s1 = dist2d_sq(a.0, a.1, b.0, b.1);
        let s2 = dist2d_sq(a.0, a.1, x, y);
        let s3 = dist2d_sq(x, y, b.0, b.1);
        if s2 > s1 + s3 {
            return None;
        }
        if s3 > s1 + s2 {
            return None;
        }
        if s1 == 0 {
            return None;
        }
        let ex = b.0 - a.0;
        let ey = b.1 - a.1;
        let fx = x - a.0;
        let fy = y - a.1;
        proof {
            assert(-0x10000000000 <= ex * fy <= 0x10000000000 && -0x10000000000 <= ey * fx
                <= 0x10000000000) by (nonlinear_arith)
                requires
                    -0x100000 <= ex <= 0x100000,
                    -0x100000 <= ey <= 0x100000,
                    -0x100000 <= fx <= 0x100000,
                    -0x100000 <= fy <= 0x100000,
            ;
        }
        let cross: i64 = ex * fy - ey * fx;
        proof {
            assert(0 <= cross as int * cross as int <= 0x400000000000000000000)
                by (nonlinear_arith)
                requires
                    -0x20000000000 <= cross <= 0x20000000000,
            ;
        }
        let c2: i128 = cross as i128 * cross as i128;
        let q128: u128 = (c2 as u128) / (s1 as u128);
        proof {
            lemma_div_nonincreasing(c2 as int, s1 as int);
            lemma_div_pos_is_pos(c2 as int, s1 as int);
        }
        Some(q128 as i128)
    } else {
        None
    }
}

/// Scan all candidate edges of one object for the one nearest the cursor;
/// answer only if the least distance is strictly inside the pick radius,
/// the earliest index winning ties.
#[verifier::rlimit(50)]
pub fn find_closest_edge(x: i64, y: i64, obj: &Object) -> (r: Option<usize>)
    requires
        -SCREEN_LIM <= x <= SCREEN_LIM,
        -SCREEN_LIM <= y <= SCREEN_LIM,
        object_wf(*obj),
    ensures
        opt_idx_matches(r, edge_pick(obj.vertices@, obj.edges@, x as int, y as int)),
        r matches Some(k) ==> 0 <= k < obj.edges@.len() && e_cand(obj.vertices@, obj.edges@,
        k as int, x as int, y as int) && e_dist(obj.vertices@, obj.edges@, k as int, x as int,
        y as int) < MAX_DIST_SQ,
        r matches Some(k) ==> forall|j: int|
            0 <= j < obj.edges@.len() && e_cand(obj.vertices@, obj.edges@, j, x as int, y as int)
                ==> #[trigger] e_dist(obj.vertices@, obj.edges@, j, x as int, y as int) >= e_dist(
                obj.vertices@,
                obj.edges@,
                k as int,
                x as int,
                y as int,
            ),
        r matches Some(k) ==> forall|j: int|
            0 <= j < k && e_cand(obj.vertices@, obj.edges@, j, x as int, y as int) ==> #[trigger]
                e_dist(obj.vertices@, obj.edges@, j, x as int, y as int) > e_dist(obj.vertices@,
            obj.edges@, k as int, x as int, y as int),
        r is None ==> forall|j: int|
            0 <= j < obj.edges@.len() && e_cand(obj.vertices@, obj.edges@, j, x as int, y as int)
                ==> #[trigger] e_dist(obj.vertices@, obj.edges@, j, x as int, y as int)
                >= MAX_DIST_SQ,
{
    let n = obj.edges.len();
    let mut closest: Option<usize> = None;
    let mut min_dist: Option<i128> = None;
    let mut i: usize = 0;
    while i < n
        invariant
            n == obj.edges@.len(),
            i <= n,
            -SCREEN_LIM <= x <= SCREEN_LIM,
            -SCREEN_LIM <= y <= SCREEN_LIM,
            object_wf(*obj),
            (closest is Some) == (min_dist is Some),
            opt_idx_matches(
                closest,
                closest_edge_upto(obj.vertices@, obj.edges@, x as int, y as int, i as int),
            ),
            closest matches Some(c) ==> 0 <= c < i && e_cand(obj.vertices@, obj.edges@, c as int,
            x as int, y as int) && min_dist is Some && min_dist->Some_0 as int == e_dist(
                obj.vertices@,
                obj.edges@,
                c as int,
                x as int,
                y as int,
            ),
            min_dist matches Some(md) ==> 0 <= md,
            edge_min_sound(obj.vertices@, obj.edges@, x as int, y as int, i as int, min_dist),
            closest matches Some(c) ==> forall|j: int|
                0 <= j < c && e_cand(obj.vertices@, obj.edges@, j, x as int, y as int)
                    ==> #[trigger] e_dist(obj.vertices@, obj.edges@, j, x as int, y as int)
                    > min_dist->Some_0,
        decreases n - i,
    {
        let ghost m0 = min_dist;
        let e = obj.edges[i];
        if let Some(d) = dist_to_edge(x, y, &e, &obj.vertices) {
            proof {
                assert(e_cand(obj.vertices@, obj.edges@, i as int, x as int, y as int));
                assert(e_dist(obj.vertices@, obj.edges@, i as int, x as int, y as int) == d);
            }
            if let Some(md) = min_dist {
                if d < md {
                    min_dist = Some(d);
                    closest = Some(i);
                }
            } else {
                min_dist = Some(d);
                closest = Some(i);
            }
        }
        proof {
            assert forall|j: int| 0 <= j < i + 1 && e_cand(obj.vertices@, obj.edges@, j, x as int,
            y as int) implies min_dist is Some && #[trigger] e_dist(obj.vertices@, obj.edges@, j,
            x as int, y as int) >= min_dist->Some_0 by {
                if j == i {
                    assert(min_dist is Some);
                    assert(e_dist(obj.vertices@, obj.edges@, j, x as int, y as int)
                        >= min_dist->Some_0);
                } else {
                    let dj = e_dist(obj.vertices@, obj.edges@, j, x as int, y as int);
                    assert(m0 is Some && dj >= m0->Some_0);
                    assert(min_dist is Some);
                    assert(min_dist->Some_0 <= m0->Some_0);
                }
            }
            assert(edge_min_sound(obj.vertices@, obj.edges@, x as int, y as int, i as int + 1,
            min_dist));
        }
        i = i + 1;
    }
    if let Some(d) = min_dist {
        if d < MAX_DIST_SQ as i128 {
            closest
        } else {
            None
        }
    } else {
        None
    }
}

/// Make `index` the only selected vertex.
pub fn clear_selection_vertices(vertices: &mut Vec<Vec4f>, index: usize)
    ensures
        final(vertices)@.len() == old(vertices)@.len(),
        forall|i: int| 0 <= i < old(vertices)@.len() ==> {
            let vo = old(vertices)@[i];
            let vn = #[trigger] final(vertices)@[i];
            &&& vn.x == vo.x && vn.y == vo.y && vn.z == vo.z && vn.w == vo.w
            &&& vn.proj == vo.proj
            &&& vn.selected == (i == index)
        },
{
    let n = vertices.len();
    let mut i: usize = 0;
    while i < n
        invariant
            n == vertices@.len(),
            n == old(vertices)@.len(),
            i <= n,
            forall|j: int| i <= j < n ==> #[trigger] vertices@[j] == old(vertices)@[j],
            forall|j: int| 0 <= j < i ==> {
                let vo = old(vertices)@[j];
                let vn = #[trigger] vertices@[j];
                &&& vn.x == vo.x && vn.y == vo.y && vn.z == vo.z && vn.w == vo.w
                &&& vn.proj == vo.proj
                &&& vn.selected == (j == index)
            },
        decreases n - i,
    {
        let mut v = vertices[i];
        v.selected = i == index;
        vertices[i] = v;
        i = i + 1;
    }
}

/// Make `index` the only selected edge.
pub fn clear_selection_edges(edges: &mut Vec<(usize, usize, bool)>, index: usize)
    ensures
        final(edges)@.len() == old(edges)@.len(),
        forall|i: int| 0 <= i < old(edges)@.len() ==> {
            let eo = old(edges)@[i];
            let en = #[trigger] final(edges)@[i];
            &&& en.0 == eo.0 && en.1 == eo.1
            &&& en.2 == (i == index)
        },
{
    let n = edges.len();
    let mut i: usize = 0;
    while i < n
        invariant
            n == edges@.len(),
            n == old(edges)@.len(),
            i <= n,
            forall|j: int| i <= j < n ==> #[trigger] edges@[j] == old(edges)@[j],
            forall|j: int| 0 <= j < i ==> {
                let eo = old(edges)@[j];
                let en = #[trigger] edges@[j];
                &&& en.0 == eo.0 && en.1 == eo.1
                &&& en.2 == (j == index)
            },
        decreases n - i,
    {
        let e = edges[i];
        edges[i] = (e.0, e.1, i == index);
        i = i + 1;
    }
}

} // verus!
