//! The geometry model: a polytope as a vertex arena plus an edge list.
//!
//! Edges never own vertices: an edge is a pair of indices into the owning
//! object's vertex list, with its own selection flag, and every edge index
//! must stay inside that list. The tesseract generator numbers its sixteen
//! vertices by bits: bit 0 of the index is the `x` sign, bit 1 the `y` sign,
//! bit 2 the `z` sign, bit 3 the `w` sign (set bit: `+1.0`), and joins every
//! pair of vertices that differ in exactly one bit.

use vstd::prelude::*;
use vstd::arithmetic::div_mod::lemma_fundamental_div_mod;
use vstd::arithmetic::div_mod::lemma_fundamental_div_mod_converse;
use vstd::arithmetic::div_mod::lemma_mod_division_less_than_divisor;
use crate::num::SCALE;
use crate::vector::Vec4f;
use crate::vector::Rotation;
use crate::vector::rotation_wf;
use crate::vector::rotate4;
use crate::vector::rotate_point;
use crate::vector::MAX_MODEL;
use crate::vector::MAX_WORLD;
use crate::projection::project_spec;
use crate::projection::project_point;
use crate::projection::SCREEN_LIM;
use crate::window::MainWindow;
use crate::window::config_wf;

verus! {

/// The eye point of the outer, 4D -> 3D projection.
#[derive(Clone, Copy)]
pub struct Camera {
    pub c: Vec4f,
}

impl Camera {
    pub fn new(c: Vec4f) -> (cam: Camera)
        ensures
            cam.c == c,
    {
        Camera { c }
    }
}

/// Model coordinates stay inside the rotation's input bound.
pub open spec fn vertex_coords_wf(v: Vec4f) -> bool {
    &&& -MAX_MODEL <= v.x <= MAX_MODEL
    &&& -MAX_MODEL <= v.y <= MAX_MODEL
    &&& -MAX_MODEL <= v.z <= MAX_MODEL
    &&& -MAX_MODEL <= v.w <= MAX_MODEL
}

/// A cached projection, when present, lies inside the saturation bound the
/// picking arithmetic relies on.
pub open spec fn vertex_proj_wf(v: Vec4f) -> bool {
    v.proj matches Some(p) ==> -SCREEN_LIM <= p.0 <= SCREEN_LIM && -SCREEN_LIM <= p.1 <= SCREEN_LIM
}

pub open spec fn vertices_wf(vs: Seq<Vec4f>) -> bool {
    forall|i: int| 0 <= i < vs.len() ==> vertex_coords_wf(#[trigger] vs[i]) && vertex_proj_wf(vs[i])
}

/// Every edge's two indices point inside a vertex list of length `n`.
pub open spec fn edges_wf(es: Seq<(usize, usize, bool)>, n: int) -> bool {
    forall|k: int| 0 <= k < es.len() ==> (#[trigger] es[k]).0 < n && es[k].1 < n
}

/// One polytope instance: the owned vertex arena and the edges into it.
pub struct Object {
    pub vertices: Vec<Vec4f>,
    pub edges: Vec<(usize, usize, bool)>,
}

/// The object invariant: well-formed vertices and no dangling edge index.
pub open spec fn object_wf(o: Object) -> bool {
    &&& vertices_wf(o.vertices@)
    &&& edges_wf(o.edges@, o.vertices@.len() as int)
}

/// The coordinate of tesseract vertex `i` on the axis selected by the bit
/// `p` (1, 2, 4 or 8): `+1.0` when the bit is set, `-1.0` when clear.
pub open spec fn tess_coord(i: int, p: int) -> int {
    if (i / p) % 2 == 1 {
        SCALE as int
    } else {
        -SCALE as int
    }
}

/// Completeness of a tesseract edge list: for every vertex and every axis
/// bit that is clear there, the edge to the partner vertex across that axis
/// is present.
pub open spec fn tess_edges_complete(es: Seq<(usize, usize, bool)>) -> bool {
    forall|i: int, p: int| (p == 1 || p == 2 || p == 4 || p == 8) && 0 <= i < 16 && tess_coord(
        i,
        p,
    ) == -SCALE ==> exists|k: int|
        0 <= k < es.len() && (#[trigger] es[k]).0 == i && es[k].1 == i + p && !es[k].2
}

/// Stepping across the tesseract axis `p` from a vertex whose bit for `p`
/// is clear lands on the in-range partner vertex whose bit for `p` is set.
proof fn lemma_tess_step(i: int, p: int)
    requires
        p == 1 || p == 2 || p == 4 || p == 8,
        0 <= i < 16,
        (i / p) % 2 == 0,
    ensures
        i + p < 16,
        tess_coord(i, p) == -SCALE as int,
        tess_coord(i + p, p) == SCALE as int,
{
    lemma_fundamental_div_mod(i, p);
    lemma_mod_division_less_than_divisor(i, p);
    let q = i / p;
    let r = i % p;
    lemma_fundamental_div_mod(q, 2);
    lemma_mod_division_less_than_divisor(q, 2);
    let s = q / 2;
    lemma_fundamental_div_mod_converse(i + p, p, q + 1, r);
    lemma_fundamental_div_mod_converse(q + 1, 2, s, 1);
    if p == 1 {
        assert(i + p < 16);
    } else if p == 2 {
        assert(i + p < 16);
    } else if p == 4 {
        assert(i + p < 16);
    } else {
        assert(i + p < 16);
    }
}

/// The screen projection the current frame owes vertex `v`: the rotated
/// point pushed through both projection stages.
pub open spec fn vertex_proj_spec(v: Vec4f, r: Rotation, d: int, ww: int, wh: int) -> Option<
    (int, int),
> {
    let q = rotate4(v.x as int, v.y as int, v.z as int, v.w as int, r);
    project_spec(q.0, q.1, q.2, q.3, d, ww, wh)
}

/// The cached value `pr` is exactly the owed projection `sp`: defined for
/// the same points, with the same pixel coordinates.
pub open spec fn proj_matches(pr: Option<(i64, i64)>, sp: Option<(int, int)>) -> bool {
    &&& (pr is Some) == (sp is Some)
    &&& (pr matches Some(p) ==> sp == Some((p.0 as int, p.1 as int)))
}

/// An identity-rotation pass drifts nothing: the projection a vertex is
/// owed under the identity rotation is exactly the projection of its
/// unrotated position.
pub proof fn lemma_identity_projection(v: Vec4f, r: Rotation, d: int, ww: int, wh: int)
    requires
        crate::vector::is_identity(r),
    ensures
        vertex_proj_spec(v, r, d, ww, wh) == project_spec(
            v.x as int,
            v.y as int,
            v.z as int,
            v.w as int,
            d,
            ww,
            wh,
        ),
{
    crate::vector::lemma_identity_rotation(v.x as int, v.y as int, v.z as int, v.w as int, r);
}

impl Object {
    /// The tesseract: sixteen vertices at `(+-1, +-1, +-1, +-1)`, an edge
    /// for every pair of vertices that differ in exactly one coordinate.
    /// Vertices start unselected and unprojected.
    #[verifier::rlimit(50)]
    pub fn tesseract() -> (obj: Object)
        ensures
            obj.vertices@.len() == 16,
            forall|i: int| 0 <= i < 16 ==> {
                let v = #[trigger] obj.vertices@[i];
                &&& v.x == tess_coord(i, 1)
                &&& v.y == tess_coord(i, 2)
                &&& v.z == tess_coord(i, 4)
                &&& v.w == tess_coord(i, 8)
                &&& !v.selected
                &&& v.proj is None
            },
            forall|k: int| 0 <= k < obj.edges@.len() ==> {
                let e = #[trigger] obj.edges@[k];
                &&& e.0 < 16
                &&& e.1 < 16
                &&& !e.2
                &&& (e.1 - e.0 == 1 || e.1 - e.0 == 2 || e.1 - e.0 == 4 || e.1 - e.0 == 8)
                &&& tess_coord(e.0 as int, (e.1 - e.0) as int) == -SCALE
                &&& tess_coord(e.1 as int, (e.1 - e.0) as int) == SCALE
            },
            tess_edges_complete(obj.edges@),
            object_wf(obj),
    {
        let mut vertices: Vec<Vec4f> = Vec::new();
        let mut i: usize = 0;
        while i < 16
            invariant
                i <= 16,
                vertices@.len() == i,
                forall|j: int| 0 <= j < i ==> {
                    let v = #[trigger] vertices@[j];
                    &&& v.x == tess_coord(j, 1)
                    &&& v.y == tess_coord(j, 2)
                    &&& v.z == tess_coord(j, 4)
                    &&& v.w == tess_coord(j, 8)
                    &&& !v.selected
                    &&& v.proj is None
                },
            decreases 16 - i,
        {
            let x: i64 = if (i / 1) % 2 == 1 { SCALE } else { -SCALE };
            let y: i64 = if (i / 2) % 2 == 1 { SCALE } else { -SCALE };
            let z: i64 = if (i / 4) % 2 == 1 { SCALE } else { -SCALE };
            let w: i64 = if (i / 8) % 2 == 1 { SCALE } else { -SCALE };
            vertices.push(Vec4f::new(x, y, z, w));
            i = i + 1;
        }
        let mut edges: Vec<(usize, usize, bool)> = Vec::new();
        let mut i: usize = 0;
        while i < 16
            invariant
                i <= 16,
                forall|k: int| 0 <= k < edges@.len() ==> {
                    let e = #[trigger] edges@[k];
                    &&& e.0 < 16
                    &&& e.1 < 16
                    &&& !e.2
                    &&& (e.1 - e.0 == 1 || e.1 - e.0 == 2 || e.1 - e.0 == 4 || e.1 - e.0 == 8)
                    &&& tess_coord(e.0 as int, (e.1 - e.0) as int) == -SCALE
                    &&& tess_coord(e.1 as int, (e.1 - e.0) as int) == SCALE
                },
                forall|j: int, p: int| (p == 1 || p == 2 || p == 4 || p == 8) && 0 <= j < i
                    && tess_coord(j, p) == -SCALE ==> exists|k: int|
                    0 <= k < edges@.len() && (#[trigger] edges@[k]).0 == j && edges@[k].1 == j + p
                    && !edges@[k].2,
            decreases 16 - i,
        {
            let ghost entry_edges = edges@;
            let ghost w1 = edges@.len();
            if (i / 1) % 2 == 0 {
                proof {
                    lemma_tess_step(i as int, 1);
                }
                edges.push((i, i + 1, false));
            }
            let ghost w2 = edges@.len();
            if (i / 2) % 2 == 0 {
                proof {
                    lemma_tess_step(i as int, 2);
                }
                edges.push((i, i + 2, false));
            }
            let ghost w4 = edges@.len();
            if (i / 4) % 2 == 0 {
                proof {
                    lemma_tess_step(i as int, 4);
                }
                edges.push((i, i + 4, false));
            }
            let ghost w8 = edges@.len();
            if (i / 8) % 2 == 0 {
                proof {
                    lemma_tess_step(i as int, 8);
                }
                edges.push((i, i + 8, false));
            }
            proof {
                if tess_coord(i as int, 1) == -SCALE {
                    assert(edges@[w1 as int].0 == i && edges@[w1 as int].1 == i + 1
                        && !edges@[w1 as int].2);
                }
                if tess_coord(i as int, 2) == -SCALE {
                    assert(edges@[w2 as int].0 == i && edges@[w2 as int].1 == i + 2
                        && !edges@[w2 as int].2);
                }
                if tess_coord(i as int, 4) == -SCALE {
                    assert(edges@[w4 as int].0 == i && edges@[w4 as int].1 == i + 4
                        && !edges@[w4 as int].2);
                }
                if tess_coord(i as int, 8) == -SCALE {
                    assert(edges@[w8 as int].0 == i && edges@[w8 as int].1 == i + 8
                        && !edges@[w8 as int].2);
                }
                assert(forall|k: int| 0 <= k < entry_edges.len() ==> edges@[k] == entry_edges[k]);
                assert forall|j: int, p: int| (p == 1 || p == 2 || p == 4 || p == 8) && 0 <= j < i
                    + 1 && tess_coord(j, p) == -SCALE implies exists|k: int|
                    0 <= k < edges@.len() && (#[trigger] edges@[k]).0 == j && edges@[k].1 == j + p
                    && !edges@[k].2 by {
                    if j < i {
                        let k0 = choose|k: int|
                            0 <= k < entry_edges.len() && (#[trigger] entry_edges[k]).0 == j
                                && entry_edges[k].1 == j + p && !entry_edges[k].2;
                        assert(edges@[k0].0 == j && edges@[k0].1 == j + p && !edges@[k0].2);
                    }
                }
            }
            i = i + 1;
        }
        proof {
            assert forall|j: int, p: int| (p == 1 || p == 2 || p == 4 || p == 8) && 0 <= j < 16
                && tess_coord(j, p) == -SCALE implies exists|k: int|
                0 <= k < edges@.len() && (#[trigger] edges@[k]).0 == j && edges@[k].1 == j + p
                && !edges@[k].2 by {
                assert(0 <= j < i);
            }
            assert(tess_edges_complete(edges@));
        }
        Object { vertices, edges }
    }

    /// Refresh every vertex's cached projection for the current frame:
    /// rotate each point and push it through both projection stages, so that
    /// no cached value is stale and an unprojectable point caches `None`.
    /// Positions, selection flags and edges are untouched.
    pub fn calc_vertices(&mut self, rot: &Rotation, d: i64, win: &MainWindow)
        requires
            object_wf(*old(self)),
            rotation_wf(*rot),
            1 <= d <= MAX_WORLD,
            config_wf(win.config),
        ensures
            final(self).vertices@.len() == old(self).vertices@.len(),
            forall|i: int| 0 <= i < old(self).vertices@.len() ==> {
                let vo = old(self).vertices@[i];
                let vn = #[trigger] final(self).vertices@[i];
                &&& vn.x == vo.x && vn.y == vo.y && vn.z == vo.z && vn.w == vo.w
                &&& vn.selected == vo.selected
                &&& proj_matches(vn.proj, vertex_proj_spec(vo, *rot, d as int,
                    win.config.w as int, win.config.h as int))
            },
            final(self).edges@ == old(self).edges@,
            object_wf(*final(self)),
    {
        let n = self.vertices.len();
        let mut i: usize = 0;
        while i < n
            invariant
                n == self.vertices@.len(),
                n == old(self).vertices@.len(),
                i <= n,
                object_wf(*old(self)),
                rotation_wf(*rot),
                1 <= d <= MAX_WORLD,
                config_wf(win.config),
                self.edges@ == old(self).edges@,
                forall|j: int| i <= j < n ==> #[trigger] self.vertices@[j] == old(
                    self,
                ).vertices@[j],
                forall|j: int| 0 <= j < i ==> {
                    let vo = old(self).vertices@[j];
                    let vn = #[trigger] self.vertices@[j];
                    &&& vn.x == vo.x && vn.y == vo.y && vn.z == vo.z && vn.w == vo.w
                    &&& vn.selected == vo.selected
                    &&& proj_matches(vn.proj, vertex_proj_spec(vo, *rot, d as int,
                        win.config.w as int, win.config.h as int))
                },
            decreases n - i,
        {
            let v = self.vertices[i];
            let q = rotate_point(v.x, v.y, v.z, v.w, rot);
            let pr = project_point(q.0, q.1, q.2, q.3, d, win.config.w, win.config.h);
            let mut nv = v;
            nv.proj = pr;
            self.vertices[i] = nv;
            i = i + 1;
        }
    }
}

} // verus!
