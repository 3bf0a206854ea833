use vstd::prelude::*;

verus! {

broadcast use vstd::seq_lib::group_seq_properties;

// ---------------------------------------------------------------------------
// Candidate corners: every choice of three distinct planes, in order.
// ---------------------------------------------------------------------------

/// `t` names three distinct planes of a brush with `plane_count` planes,
/// listed in increasing order.
pub open spec fn is_plane_triple(t: (usize, usize, usize), plane_count: int) -> bool {
    t.0 < t.1 && t.1 < t.2 && t.2 < plane_count
}

/// Lexicographic order on triples of plane indices.
pub open spec fn triple_lt(a: (usize, usize, usize), b: (usize, usize, usize)) -> bool {
    ||| a.0 < b.0
    ||| a.0 == b.0 && a.1 < b.1
    ||| a.0 == b.0 && a.1 == b.1 && a.2 < b.2
}

/// What a plane triple and the order on triples are, written out on the
/// three indices.
pub proof fn lemma_plane_triple_order(a: (usize, usize, usize), b: (usize, usize, usize), plane_count: int)
    ensures
        is_plane_triple(a, plane_count) <==> (a.0 < a.1 && a.1 < a.2 && a.2 < plane_count),
        triple_lt(a, b) <==> (a.0 < b.0 || (a.0 == b.0 && (a.1 < b.1 || (a.1 == b.1 && a.2 < b.2)))),
        triple_lt(a, b) ==> !triple_lt(b, a) && a != b,
{
}

/// The triples of planes whose intersections are the candidate corners of a
/// brush: every set of three distinct planes exactly once, as increasing index
/// triples in lexicographic order (the order of three nested loops
/// `i < j < k`). Intersecting the planes and keeping the points inside the
/// brush is floating-point work left to the caller.
pub fn candidate_plane_triples(plane_count: usize) -> (triples: Vec<(usize, usize, usize)>)
    ensures
        forall|a: int| 0 <= a < triples.len() ==> is_plane_triple(#[trigger] triples@[a], plane_count as int),
        forall|a: int, b: int| 0 <= a < b < triples.len() ==> triple_lt(#[trigger] triples@[a], #[trigger] triples@[b]),
        forall|t: (usize, usize, usize)| is_plane_triple(t, plane_count as int) ==> #[trigger] triples@.contains(t),
{
    let n: usize = plane_count;
    let mut triples: Vec<(usize, usize, usize)> = Vec::new();
    let mut i: usize = 0;
    while i < n
        invariant
            i <= n,
            forall|a: int| 0 <= a < triples.len() ==> is_plane_triple(#[trigger] triples@[a], n as int),
            forall|a: int, b: int| 0 <= a < b < triples.len() ==> triple_lt(#[trigger] triples@[a], #[trigger] triples@[b]),
            forall|a: int| 0 <= a < triples.len() ==> triple_lt(#[trigger] triples@[a], (i, 0, 0)),
            forall|t: (usize, usize, usize)| is_plane_triple(t, n as int) && triple_lt(t, (i, 0, 0)) ==> #[trigger] triples@.contains(t),
        decreases n - i,
    {
        let mut j: usize = i + 1;
        while j < n
            invariant
                i < n,
                i + 1 <= j <= n,
                forall|a: int| 0 <= a < triples.len() ==> is_plane_triple(#[trigger] triples@[a], n as int),
                forall|a: int, b: int| 0 <= a < b < triples.len() ==> triple_lt(#[trigger] triples@[a], #[trigger] triples@[b]),
                forall|a: int| 0 <= a < triples.len() ==> triple_lt(#[trigger] triples@[a], (i, j, 0)),
                forall|t: (usize, usize, usize)| is_plane_triple(t, n as int) && triple_lt(t, (i, j, 0)) ==> #[trigger] triples@.contains(t),
            decreases n - j,
        {
            let mut k: usize = j + 1;
            while k < n
                invariant
                    i < j < n,
                    j + 1 <= k <= n,
                    forall|a: int| 0 <= a < triples.len() ==> is_plane_triple(#[trigger] triples@[a], n as int),
                    forall|a: int, b: int| 0 <= a < b < triples.len() ==> triple_lt(#[trigger] triples@[a], #[trigger] triples@[b]),
                    forall|a: int| 0 <= a < triples.len() ==> triple_lt(#[trigger] triples@[a], (i, j, k)),
                    forall|t: (usize, usize, usize)| is_plane_triple(t, n as int) && triple_lt(t, (i, j, k)) ==> #[trigger] triples@.contains(t),
                decreases n - k,
            {
                let ghost before = triples@;
                triples.push((i, j, k));
                assert forall|t: (usize, usize, usize)| is_plane_triple(t, n as int) && triple_lt(t, (i, j, (k + 1) as usize)) implies #[trigger] triples@.contains(t) by {
                    if t == (i, j, k) {
                        assert(triples@[before.len() as int] == t);
                    } else {
                        assert(before.contains(t));
                        let w: int = choose|w: int| 0 <= w < before.len() && before[w] == t;
                        assert(triples@[w] == t);
                    }
                }
                k = k + 1;
            }
            assert forall|t: (usize, usize, usize)| is_plane_triple(t, n as int) && triple_lt(t, (i, (j + 1) as usize, 0)) implies #[trigger] triples@.contains(t) by {
                assert(triple_lt(t, (i, j, k)));
            }
            j = j + 1;
        }
        assert forall|t: (usize, usize, usize)| is_plane_triple(t, n as int) && triple_lt(t, ((i + 1) as usize, 0, 0)) implies #[trigger] triples@.contains(t) by {
            assert(triple_lt(t, (i, j, 0)));
        }
        i = i + 1;
    }
    assert forall|t: (usize, usize, usize)| is_plane_triple(t, n as int) implies #[trigger] triples@.contains(t) by {
        assert(triple_lt(t, (i, 0, 0)));
    }
    triples
}


// ---------------------------------------------------------------------------
// Faces: one per plane that carries at least three corners.
// ---------------------------------------------------------------------------

/// A face of a brush: the plane it lies on, its corners as indices into the
/// brush's vertex list, and a material slot.
#[derive(Debug, PartialEq, Eq)]
pub struct Face {
    pub plane_index: usize,
    pub vertices: Vec<usize>,
    pub material: usize,
}

/// The mathematical content of a [`Face`].
pub struct FaceView {
    pub plane_index: nat,
    pub vertices: Seq<usize>,
    pub material: nat,
}

impl View for Face {
    type V = FaceView;

    open spec fn view(&self) -> FaceView {
        FaceView {
            plane_index: self.plane_index as nat,
            vertices: self.vertices@,
            material: self.material as nat,
        }
    }
}

/// The views of a list of faces.
pub open spec fn faces_view(faces: Seq<Face>) -> Seq<FaceView> {
    faces.map_values(|f: Face| f@)
}

/// The faces built from the corners found on each plane: `on_plane[p]` holds
/// the corners lying on plane `p`; a plane gives a face exactly when it holds
/// at least three corners, and the faces follow the order of the planes.
pub open spec fn selected_faces(on_plane: Seq<Seq<usize>>) -> Seq<FaceView>
    decreases on_plane.len(),
{
    if on_plane.len() == 0 {
        Seq::empty()
    } else {
        let earlier = selected_faces(on_plane.drop_last());
        let last = on_plane.last();
        if last.len() >= 3 {
            earlier.push(
                FaceView { plane_index: (on_plane.len() - 1) as nat, vertices: last, material: 0 },
            )
        } else {
            earlier
        }
    }
}

/// Rebuilds the face list of a brush: `on_plane[p]` lists the corners (as
/// vertex indices) that lie on plane `p`. Every plane with at least three
/// such corners becomes a face on that plane with material 0, in plane order;
/// the previous faces are discarded. Deciding which corners lie on a plane,
/// and ordering each face's corners around its centre, is floating-point work
/// left to the caller.
pub fn build_faces(faces: &mut Vec<Face>, on_plane: &Vec<Vec<usize>>)
    ensures
        faces_view(final(faces)@) == selected_faces(on_plane.deep_view()),
        forall|f: int| 0 <= f < final(faces).len() ==> {
            let face = #[trigger] final(faces)@[f];
            &&& face.plane_index < on_plane.len()
            &&& face.vertices@ == on_plane@[face.plane_index as int]@
            &&& face.vertices.len() >= 3
            &&& face.material == 0
        },
        forall|f: int, g: int| 0 <= f < g < final(faces).len() ==>
            #[trigger] final(faces)@[f].plane_index < #[trigger] final(faces)@[g].plane_index,
        forall|p: int| 0 <= p < on_plane.len() && #[trigger] on_plane@[p].len() >= 3 ==>
            exists|f: int| 0 <= f < final(faces).len() && #[trigger] final(faces)@[f].plane_index == p,
{
    faces.clear();
    let ghost all = on_plane.deep_view();
    let mut p: usize = 0;
    while p < on_plane.len()
        invariant
            p <= on_plane.len(),
            all == on_plane.deep_view(),
            all.len() == on_plane.len(),
            faces_view(faces@) == selected_faces(all.take(p as int)),
        decreases on_plane.len() - p,
    {
        assert(all.take(p + 1).drop_last() =~= all.take(p as int));
        assert(all.take(p + 1).last() == all[p as int]);
        let candidates = &on_plane[p];
        if candidates.len() >= 3 {
            let corners = candidates.clone();
            assert(corners@ =~= all[p as int]);
            let ghost before = faces@;
            faces.push(Face { plane_index: p, vertices: corners, material: 0 });
            assert(faces_view(faces@) =~= faces_view(before).push(faces@.last()@));
        }
        p = p + 1;
    }
    assert(all.take(on_plane.len() as int) =~= all);
    proof {
        lemma_selected_faces_exact(all);
        let fv = faces_view(faces@);
        assert forall|f: int| 0 <= f < faces.len() implies {
            let face = #[trigger] faces@[f];
            &&& face.plane_index < on_plane.len()
            &&& face.vertices@ == on_plane@[face.plane_index as int]@
            &&& face.vertices.len() >= 3
            &&& face.material == 0
        } by {
            assert(fv[f] == faces@[f]@);
            assert(all[faces@[f].plane_index as int] == on_plane@[faces@[f].plane_index as int]@);
        }
        assert forall|f: int, g: int| 0 <= f < g < faces.len() implies
            #[trigger] faces@[f].plane_index < #[trigger] faces@[g].plane_index by {
            assert(fv[f] == faces@[f]@);
            assert(fv[g] == faces@[g]@);
        }
        assert forall|p: int| 0 <= p < on_plane.len() && #[trigger] on_plane@[p].len() >= 3 implies
            exists|f: int| 0 <= f < faces.len() && #[trigger] faces@[f].plane_index == p by {
            assert(all[p] == on_plane@[p]@);
            let f = choose|f: int| 0 <= f < fv.len() && #[trigger] fv[f].plane_index == p;
            assert(fv[f] == faces@[f]@);
        }
    }
}

/// Each selected face lies on an existing plane, takes exactly that plane's
/// corners, has at least three of them and material 0; faces come in strictly
/// increasing plane order (so no plane gives two faces); and every plane with
/// at least three corners gives a face.
pub proof fn lemma_selected_faces_exact(on_plane: Seq<Seq<usize>>)
    ensures
        forall|f: int| 0 <= f < selected_faces(on_plane).len() ==> {
            let face = #[trigger] selected_faces(on_plane)[f];
            &&& face.plane_index < on_plane.len()
            &&& face.vertices == on_plane[face.plane_index as int]
            &&& face.vertices.len() >= 3
            &&& face.material == 0
        },
        forall|f: int, g: int| 0 <= f < g < selected_faces(on_plane).len() ==>
            #[trigger] selected_faces(on_plane)[f].plane_index < #[trigger] selected_faces(on_plane)[g].plane_index,
        forall|p: int| 0 <= p < on_plane.len() && #[trigger] on_plane[p].len() >= 3 ==>
            exists|f: int| 0 <= f < selected_faces(on_plane).len() && #[trigger] selected_faces(on_plane)[f].plane_index == p,
    decreases on_plane.len(),
{
    if on_plane.len() > 0 {
        let rest = on_plane.drop_last();
        lemma_selected_faces_exact(rest);
        let earlier = selected_faces(rest);
        assert forall|f: int| 0 <= f < earlier.len() implies #[trigger] earlier[f].plane_index < on_plane.len() - 1 by {}
        let n: int = (on_plane.len() - 1) as int;
        let all = selected_faces(on_plane);
        if on_plane.last().len() >= 3 {
            assert(all[earlier.len() as int].plane_index == n);
        } else {
            assert(all == earlier);
        }
        assert forall|p: int| 0 <= p < on_plane.len() && #[trigger] on_plane[p].len() >= 3 implies
            exists|f: int| 0 <= f < selected_faces(on_plane).len() && #[trigger] selected_faces(on_plane)[f].plane_index == p by {
            if p < n {
                assert(rest[p] == on_plane[p]);
                let f: int = choose|f: int| 0 <= f < earlier.len() && #[trigger] earlier[f].plane_index == p;
                assert(all[f] == earlier[f]);
            } else {
                assert(on_plane[p] == on_plane.last());
                assert(all[earlier.len() as int].plane_index == p);
            }
        }
    }
}

// ---------------------------------------------------------------------------
// Triangulation of a convex face as a fan around its first corner.
// ---------------------------------------------------------------------------

/// The number of triangles in the fan of a face with `corners` corners.
pub open spec fn triangle_count(corners: nat) -> nat {
    if corners >= 2 {
        (corners - 2) as nat
    } else {
        0
    }
}

/// Splits a convex face into a fan of triangles around its first corner:
/// triangle `t` joins corners 0, t + 1 and t + 2 (positions within the face).
pub fn triangulate_face(face: &Face) -> (triangles: Vec<[usize; 3]>)
    requires
        face.vertices.len() >= 1,
    ensures
        triangles.len() == triangle_count(face.vertices.len() as nat),
        face.vertices.len() >= 2 ==> triangles.len() + 2 == face.vertices.len(),
        face.vertices.len() < 2 ==> triangles.len() == 0,
        forall|t: int| 0 <= t < triangles.len() ==> {
            let tri = #[trigger] triangles@[t];
            tri[0] == 0 && tri[1] == t + 1 && tri[2] == t + 2
        },
{
    let mut triangles: Vec<[usize; 3]> = Vec::new();
    let last: usize = face.vertices.len() - 1;
    let mut i: usize = 1;
    while i < last
        invariant
            last == face.vertices.len() - 1,
            1 <= i,
            i <= last || (last < 1 && i == 1),
            triangles.len() == i - 1,
            forall|t: int| 0 <= t < triangles.len() ==> {
                let tri = #[trigger] triangles@[t];
                tri[0] == 0 && tri[1] == t + 1 && tri[2] == t + 2
            },
        decreases last - i,
    {
        triangles.push([0, i, i + 1]);
        i = i + 1;
    }
    triangles
}


// ---------------------------------------------------------------------------
// Mesh layout: vertex buffer entries and the triangle index buffer.
// ---------------------------------------------------------------------------

/// One entry of a brush mesh's vertex buffer: its position is brush vertex
/// `vertex_index` and its normal is the normal of plane `plane_index`.
#[derive(Clone, Copy, Debug, PartialEq, Eq, Structural)]
pub struct MeshVertex {
    pub plane_index: usize,
    pub vertex_index: usize,
}

/// The integer part of a brush mesh: its vertex buffer entries and the
/// triangle list that indexes them.
#[derive(Debug, PartialEq, Eq)]
pub struct MeshLayout {
    pub vertices: Vec<MeshVertex>,
    pub indices: Vec<u32>,
}

/// The number of vertex buffer entries the faces need: one per corner of each
/// face (corners shared by faces are repeated, each with its face's normal).
pub open spec fn vertex_total(faces: Seq<FaceView>) -> nat
    decreases faces.len(),
{
    if faces.len() == 0 {
        0
    } else {
        vertex_total(faces.drop_last()) + faces.last().vertices.len()
    }
}

/// The vertex buffer entries of one face: its corners, each with its plane.
pub open spec fn face_mesh_vertices(face: FaceView) -> Seq<MeshVertex> {
    face.vertices.map_values(
        |v: usize| MeshVertex { plane_index: face.plane_index as usize, vertex_index: v },
    )
}

/// The vertex buffer: the faces' entries one face after another.
pub open spec fn mesh_vertices(faces: Seq<FaceView>) -> Seq<MeshVertex>
    decreases faces.len(),
{
    if faces.len() == 0 {
        Seq::empty()
    } else {
        mesh_vertices(faces.drop_last()) + face_mesh_vertices(faces.last())
    }
}

/// The index list of the first `triangles` triangles of a fan whose first
/// corner is vertex `base`: triangle t (from 1) is base, base + t, base + t + 1.
pub open spec fn fan_indices(base: int, triangles: nat) -> Seq<int>
    decreases triangles,
{
    if triangles == 0 {
        Seq::empty()
    } else {
        fan_indices(base, (triangles - 1) as nat) + seq![base, base + triangles, base + triangles + 1]
    }
}

/// The index buffer: each face's fan, offset by the entries of earlier faces.
pub open spec fn mesh_indices(faces: Seq<FaceView>) -> Seq<int>
    decreases faces.len(),
{
    if faces.len() == 0 {
        Seq::empty()
    } else {
        mesh_indices(faces.drop_last()) + fan_indices(
            vertex_total(faces.drop_last()) as int,
            triangle_count(faces.last().vertices.len()),
        )
    }
}

/// The indices of a buffer as integers.
pub open spec fn indices_view(indices: Seq<u32>) -> Seq<int> {
    indices.map_values(|i: u32| i as int)
}

proof fn lemma_vertex_total_prefix(faces: Seq<FaceView>, k: int)
    requires
        0 <= k <= faces.len(),
    ensures
        vertex_total(faces.take(k)) <= vertex_total(faces),
    decreases faces.len() - k,
{
    if k < faces.len() {
        lemma_vertex_total_prefix(faces, k + 1);
        assert(faces.take(k + 1).drop_last() =~= faces.take(k));
    } else {
        assert(faces.take(k) =~= faces);
    }
}

/// Lays out the mesh of a brush's faces: every corner of every face becomes
/// a vertex buffer entry carrying the face's plane (for its normal), and each
/// face's fan triangles are added to the index buffer, offset by the number
/// of entries before the face. Filling in positions, normals and texture
/// coordinates from these entries is floating-point work left to the caller.
pub fn build_mesh_layout(faces: &Vec<Face>) -> (layout: MeshLayout)
    requires
        forall|f: int| 0 <= f < faces.len() ==> #[trigger] faces@[f].vertices.len() >= 1,
        vertex_total(faces_view(faces@)) <= 0x1_0000_0000,
    ensures
        layout.vertices@ == mesh_vertices(faces_view(faces@)),
        indices_view(layout.indices@) == mesh_indices(faces_view(faces@)),
        layout.vertices.len() == vertex_total(faces_view(faces@)),
        layout.indices.len() == 3 * triangle_total(faces_view(faces@)),
        forall|f: int|
            #![trigger faces@[f]]
            0 <= f < faces@.len() ==> vertex_total(faces_view(faces@).take(f)) + faces@[f].vertices.len() <= layout.vertices@.len(),
        forall|f: int, c: int|
            #![trigger faces@[f].vertices@[c]]
            0 <= f < faces@.len() && 0 <= c < faces@[f].vertices.len() ==> layout.vertices@[vertex_total(faces_view(faces@).take(f)) + c]
                == (MeshVertex { plane_index: faces@[f].plane_index, vertex_index: faces@[f].vertices@[c] }),
        forall|f: int|
            #![trigger faces@[f]]
            0 <= f < faces@.len() && faces@[f].vertices.len() >= 2 ==> 3 * (triangle_total(faces_view(faces@).take(f))
                + faces@[f].vertices.len() - 2) <= layout.indices@.len(),
        forall|f: int, t: int|
            #![trigger layout.indices@[3 * (triangle_total(faces_view(faces@).take(f)) + t)]]
            #![trigger layout.indices@[3 * (triangle_total(faces_view(faces@).take(f)) + t) + 1]]
            #![trigger layout.indices@[3 * (triangle_total(faces_view(faces@).take(f)) + t) + 2]]
            0 <= f < faces@.len() && 0 <= t && t + 2 < faces@[f].vertices.len() ==> {
                &&& layout.indices@[3 * (triangle_total(faces_view(faces@).take(f)) + t)] == vertex_total(faces_view(faces@).take(f))
                &&& layout.indices@[3 * (triangle_total(faces_view(faces@).take(f)) + t) + 1] == vertex_total(
                    faces_view(faces@).take(f),
                ) + t + 1
                &&& layout.indices@[3 * (triangle_total(faces_view(faces@).take(f)) + t) + 2] == vertex_total(
                    faces_view(faces@).take(f),
                ) + t + 2
            },
{
    let ghost all = faces_view(faces@);
    let mut vertices: Vec<MeshVertex> = Vec::new();
    let mut indices: Vec<u32> = Vec::new();
    let mut f: usize = 0;
    while f < faces.len()
        invariant
            f <= faces.len(),
            all == faces_view(faces@),
            all.len() == faces.len(),
            forall|g: int| 0 <= g < faces.len() ==> #[trigger] faces@[g].vertices.len() >= 1,
            vertex_total(all) <= 0x1_0000_0000,
            vertices@ == mesh_vertices(all.take(f as int)),
            vertices.len() == vertex_total(all.take(f as int)),
            indices_view(indices@) == mesh_indices(all.take(f as int)),
        decreases faces.len() - f,
    {
        let face = &faces[f];
        let ghost fv = all[f as int];
        assert(fv == face@);
        assert(all.take(f + 1).drop_last() =~= all.take(f as int));
        assert(all.take(f + 1).last() == fv);
        proof {
            lemma_vertex_total_prefix(all, f + 1);
        }
        let ghost vertices_before = vertices@;
        let ghost indices_before = indices_view(indices@);
        assert(vertices.len() + fv.vertices.len() <= 0x1_0000_0000);
        let base: u32 = vertices.len() as u32;
        let mut c: usize = 0;
        while c < face.vertices.len()
            invariant
                c <= face.vertices.len(),
                fv == face@,
                vertices@ == vertices_before + face_mesh_vertices(fv).take(c as int),
            decreases face.vertices.len() - c,
        {
            vertices.push(MeshVertex { plane_index: face.plane_index, vertex_index: face.vertices[c] });
            assert(face_mesh_vertices(fv).take(c + 1) =~= face_mesh_vertices(fv).take(c as int).push(
                face_mesh_vertices(fv)[c as int],
            ));
            c = c + 1;
        }
        assert(face_mesh_vertices(fv).take(c as int) =~= face_mesh_vertices(fv));
        let triangles = triangulate_face(face);
        let mut t: usize = 0;
        while t < triangles.len()
            invariant
                t <= triangles.len(),
                triangles.len() == triangle_count(fv.vertices.len()),
                fv.vertices.len() >= 1,
                base as int + fv.vertices.len() <= 0x1_0000_0000,
                forall|u: int| 0 <= u < triangles.len() ==> {
                    let tri = #[trigger] triangles@[u];
                    tri[0] == 0 && tri[1] == u + 1 && tri[2] == u + 2
                },
                indices_view(indices@) == indices_before + fan_indices(base as int, t as nat),
            decreases triangles.len() - t,
        {
            let tri = triangles[t];
            assert(tri == triangles@[t as int]);
            let ghost pushed_before = indices@;
            let first: u32 = base + tri[0] as u32;
            let second: u32 = base + tri[1] as u32;
            let third: u32 = base + tri[2] as u32;
            indices.push(first);
            indices.push(second);
            indices.push(third);
            assert(indices@ =~= pushed_before.push(first).push(second).push(third));
            assert(indices_view(indices@) =~= indices_view(pushed_before) + seq![
                first as int,
                second as int,
                third as int,
            ]);
            assert(fan_indices(base as int, (t + 1) as nat) == fan_indices(base as int, t as nat)
                + seq![base as int, base + (t + 1), base + (t + 1) + 1]);
            assert(indices_view(indices@) =~= indices_before + fan_indices(base as int, (t + 1) as nat));
            t = t + 1;
        }
        f = f + 1;
    }
    assert(all.take(faces.len() as int) =~= all);
    proof {
        lemma_layout_entries(faces@, vertices@, indices@);
    }
    MeshLayout { vertices, indices }
}


/// The number of triangles in the faces' fans together.
pub open spec fn triangle_total(faces: Seq<FaceView>) -> nat
    decreases faces.len(),
{
    if faces.len() == 0 {
        0
    } else {
        triangle_total(faces.drop_last()) + triangle_count(faces.last().vertices.len())
    }
}

/// Triangle `m` of the index buffer joins three distinct vertex buffer
/// entries that lie on one plane.
pub open spec fn triangle_is_flat(faces: Seq<FaceView>, m: int) -> bool {
    let a: int = mesh_indices(faces)[3 * m];
    let b: int = mesh_indices(faces)[3 * m + 1];
    let c: int = mesh_indices(faces)[3 * m + 2];
    &&& a != b && b != c && a != c
    &&& mesh_vertices(faces)[a].plane_index == mesh_vertices(faces)[b].plane_index
    &&& mesh_vertices(faces)[b].plane_index == mesh_vertices(faces)[c].plane_index
}

proof fn lemma_fan_indices(base: int, triangles: nat)
    ensures
        fan_indices(base, triangles).len() == 3 * triangles,
        forall|m: int| 0 <= m < triangles ==> {
            &&& #[trigger] fan_indices(base, triangles)[3 * m] == base
            &&& fan_indices(base, triangles)[3 * m + 1] == base + m + 1
            &&& fan_indices(base, triangles)[3 * m + 2] == base + m + 2
        },
    decreases triangles,
{
    if triangles > 0 {
        lemma_fan_indices(base, (triangles - 1) as nat);
    }
}

/// A laid-out brush mesh is well formed: there is one vertex buffer entry per
/// face corner and three indices per fan triangle; every index names an
/// existing entry; and the three corners of each triangle are distinct
/// entries of one and the same face, so they share its plane and normal.
#[verifier::spinoff_prover]
pub proof fn lemma_mesh_layout_well_formed(faces: Seq<FaceView>)
    ensures
        mesh_vertices(faces).len() == vertex_total(faces),
        mesh_indices(faces).len() == 3 * triangle_total(faces),
        forall|i: int| 0 <= i < mesh_indices(faces).len() ==>
            0 <= #[trigger] mesh_indices(faces)[i] < vertex_total(faces),
        forall|m: int| 0 <= m < triangle_total(faces) ==> #[trigger] triangle_is_flat(faces, m),
    decreases faces.len(),
{
    if faces.len() > 0 {
        let rest = faces.drop_last();
        let last = faces.last();
        lemma_mesh_layout_well_formed(rest);
        let base: int = vertex_total(rest) as int;
        let count: nat = triangle_count(last.vertices.len());
        lemma_fan_indices(base, count);
        let earlier = mesh_indices(rest);
        let fan = fan_indices(base, count);
        let all = mesh_indices(faces);
        let verts = mesh_vertices(faces);
        assert(all == earlier + fan);
        assert(verts == mesh_vertices(rest) + face_mesh_vertices(last));
        assert forall|i: int| 0 <= i < all.len() implies 0 <= #[trigger] all[i] < vertex_total(faces) by {
            if i >= earlier.len() {
                let j: int = i - earlier.len();
                let m: int = j / 3;
                assert(j == 3 * m || j == 3 * m + 1 || j == 3 * m + 2);
                assert(fan[3 * m] == base);
            }
        }
        assert forall|m: int| 0 <= m < triangle_total(faces) implies triangle_is_flat(faces, m) by {
            if m < triangle_total(rest) {
                assert(triangle_is_flat(rest, m));
                let a: int = earlier[3 * m];
                let b: int = earlier[3 * m + 1];
                let c: int = earlier[3 * m + 2];
                assert(all[3 * m] == a && all[3 * m + 1] == b && all[3 * m + 2] == c);
                assert(verts[a] == mesh_vertices(rest)[a]);
                assert(verts[b] == mesh_vertices(rest)[b]);
                assert(verts[c] == mesh_vertices(rest)[c]);
            } else {
                let k: int = m - triangle_total(rest);
                assert(3 * m == earlier.len() + 3 * k);
                assert(all[3 * m] == fan[3 * k]);
                assert(all[3 * m + 1] == fan[3 * k + 1]);
                assert(all[3 * m + 2] == fan[3 * k + 2]);
                let fm = face_mesh_vertices(last);
                assert(verts[base] == fm[0]);
                assert(verts[base + k + 1] == fm[k + 1]);
                assert(verts[base + k + 2] == fm[k + 2]);
            }
        }
    }
}


/// The number of triangles of an n-corner fan, numerically: n - 2 triangles
/// for n >= 2 corners, none below.
pub proof fn lemma_triangle_count(corners: nat)
    ensures
        corners >= 2 ==> triangle_count(corners) + 2 == corners,
        corners < 2 ==> triangle_count(corners) == 0,
{
}

/// The offsets of a face in the buffers, in terms of the faces themselves:
/// the first face starts at entry 0 and triangle 0, and each face starts
/// right after the corners and the fan triangles of the face before it.
pub proof fn lemma_face_offsets(faces: Seq<FaceView>)
    ensures
        vertex_total(faces.take(0)) == 0,
        triangle_total(faces.take(0)) == 0,
        vertex_total(faces) == vertex_total(faces.take(faces.len() as int)),
        triangle_total(faces) == triangle_total(faces.take(faces.len() as int)),
        forall|f: int| 0 <= f < faces.len() ==>
            #[trigger] vertex_total(faces.take(f + 1)) == vertex_total(faces.take(f)) + faces[f].vertices.len(),
        forall|f: int| 0 <= f < faces.len() ==>
            #[trigger] triangle_total(faces.take(f + 1)) == triangle_total(faces.take(f)) + (if faces[f].vertices.len() >= 2 {
                faces[f].vertices.len() - 2
            } else {
                0
            }),
{
    assert(faces.take(faces.len() as int) =~= faces);
    assert forall|f: int| 0 <= f < faces.len() implies
        #[trigger] vertex_total(faces.take(f + 1)) == vertex_total(faces.take(f)) + faces[f].vertices.len() by {
        assert(faces.take(f + 1).drop_last() =~= faces.take(f));
    }
    assert forall|f: int| 0 <= f < faces.len() implies
        #[trigger] triangle_total(faces.take(f + 1)) == triangle_total(faces.take(f)) + (if faces[f].vertices.len() >= 2 {
            faces[f].vertices.len() - 2
        } else {
            0
        }) by {
        assert(faces.take(f + 1).drop_last() =~= faces.take(f));
    }
}

/// Entry (corners of earlier faces) + c of the vertex buffer is corner c of
/// face f, carrying face f's plane.
pub proof fn lemma_mesh_vertex_at(faces: Seq<FaceView>, f: int, c: int)
    requires
        0 <= f < faces.len(),
        0 <= c < faces[f].vertices.len(),
    ensures
        vertex_total(faces.take(f)) + c < vertex_total(faces),
        vertex_total(faces) == mesh_vertices(faces).len(),
        mesh_vertices(faces)[vertex_total(faces.take(f)) + c] == (MeshVertex {
            plane_index: faces[f].plane_index as usize,
            vertex_index: faces[f].vertices[c],
        }),
    decreases faces.len(),
{
    lemma_mesh_layout_well_formed(faces);
    let rest = faces.drop_last();
    lemma_mesh_layout_well_formed(rest);
    assert(mesh_vertices(faces) == mesh_vertices(rest) + face_mesh_vertices(faces.last()));
    if f == faces.len() - 1 {
        assert(faces.take(f) =~= rest);
    } else {
        lemma_mesh_vertex_at(rest, f, c);
        assert(rest.take(f) =~= faces.take(f));
        assert(rest[f] == faces[f]);
    }
}

/// Triangle t of face f sits at triangle (fan triangles of earlier faces) + t
/// of the index buffer and joins entries o, o + t + 1 and o + t + 2, where o
/// is the number of corners of earlier faces.
pub proof fn lemma_mesh_index_at(faces: Seq<FaceView>, f: int, t: int)
    requires
        0 <= f < faces.len(),
        0 <= t && t + 2 < faces[f].vertices.len(),
    ensures
        3 * (triangle_total(faces.take(f)) + t) + 2 < mesh_indices(faces).len(),
        mesh_indices(faces)[3 * (triangle_total(faces.take(f)) + t)] == vertex_total(faces.take(f)),
        mesh_indices(faces)[3 * (triangle_total(faces.take(f)) + t) + 1] == vertex_total(faces.take(f)) + t + 1,
        mesh_indices(faces)[3 * (triangle_total(faces.take(f)) + t) + 2] == vertex_total(faces.take(f)) + t + 2,
    decreases faces.len(),
{
    lemma_mesh_layout_well_formed(faces);
    let rest = faces.drop_last();
    lemma_mesh_layout_well_formed(rest);
    let base = vertex_total(rest) as int;
    let count = triangle_count(faces.last().vertices.len());
    lemma_fan_indices(base, count);
    let earlier = mesh_indices(rest);
    assert(mesh_indices(faces) == earlier + fan_indices(base, count));
    if f == faces.len() - 1 {
        assert(faces.take(f) =~= rest);
        let p = 3 * (triangle_total(rest) + t);
        assert(p == earlier.len() + 3 * t);
        let fan = fan_indices(base, count);
        assert(fan[3 * t] == base);
        assert(mesh_indices(faces)[p] == fan[3 * t]);
        assert(mesh_indices(faces)[p + 1] == fan[3 * t + 1]);
        assert(mesh_indices(faces)[p + 2] == fan[3 * t + 2]);
    } else {
        lemma_mesh_index_at(rest, f, t);
        assert(rest.take(f) =~= faces.take(f));
        assert(rest[f] == faces[f]);
    }
}


/// Reads the buffers' layout equations back as statements about each face
/// corner and each fan triangle.
proof fn lemma_layout_entries(faces: Seq<Face>, vertices: Seq<MeshVertex>, indices: Seq<u32>)
    requires
        vertices == mesh_vertices(faces_view(faces)),
        indices_view(indices) == mesh_indices(faces_view(faces)),
    ensures
        vertices.len() == vertex_total(faces_view(faces)),
        indices.len() == 3 * triangle_total(faces_view(faces)),
        forall|f: int|
            #![trigger faces[f]]
            0 <= f < faces.len() ==> vertex_total(faces_view(faces).take(f)) + faces[f].vertices.len() <= vertices.len(),
        forall|f: int, c: int|
            #![trigger faces[f].vertices@[c]]
            0 <= f < faces.len() && 0 <= c < faces[f].vertices.len() ==> vertices[vertex_total(faces_view(faces).take(f)) + c]
                == (MeshVertex { plane_index: faces[f].plane_index, vertex_index: faces[f].vertices@[c] }),
        forall|f: int|
            #![trigger faces[f]]
            0 <= f < faces.len() && faces[f].vertices.len() >= 2 ==> 3 * (triangle_total(faces_view(faces).take(f))
                + faces[f].vertices.len() - 2) <= indices.len(),
        forall|f: int, t: int|
            #![trigger indices[3 * (triangle_total(faces_view(faces).take(f)) + t)]]
            #![trigger indices[3 * (triangle_total(faces_view(faces).take(f)) + t) + 1]]
            #![trigger indices[3 * (triangle_total(faces_view(faces).take(f)) + t) + 2]]
            0 <= f < faces.len() && 0 <= t && t + 2 < faces[f].vertices.len() ==> {
                &&& indices[3 * (triangle_total(faces_view(faces).take(f)) + t)] == vertex_total(faces_view(faces).take(f))
                &&& indices[3 * (triangle_total(faces_view(faces).take(f)) + t) + 1] == vertex_total(
                    faces_view(faces).take(f),
                ) + t + 1
                &&& indices[3 * (triangle_total(faces_view(faces).take(f)) + t) + 2] == vertex_total(
                    faces_view(faces).take(f),
                ) + t + 2
            },
{
    let all = faces_view(faces);
    lemma_mesh_layout_well_formed(all);
    assert(indices.len() == indices_view(indices).len());
    assert forall|f: int| 0 <= f < faces.len() implies vertex_total(all.take(f)) + #[trigger] faces[f].vertices.len()
        <= vertices.len() by {
        lemma_face_offsets(all);
        lemma_vertex_total_prefix(all, f + 1);
        assert(all[f] == faces[f]@);
    }
    assert forall|f: int, c: int|
        #![trigger faces[f].vertices@[c]]
        0 <= f < faces.len() && 0 <= c < faces[f].vertices.len() implies vertices[vertex_total(all.take(f)) + c]
            == (MeshVertex { plane_index: faces[f].plane_index, vertex_index: faces[f].vertices@[c] }) by {
        assert(all[f] == faces[f]@);
        lemma_mesh_vertex_at(all, f, c);
    }
    assert forall|f: int| 0 <= f < faces.len() && #[trigger] faces[f].vertices.len() >= 2 implies 3 * (
    triangle_total(all.take(f)) + faces[f].vertices.len() - 2) <= indices.len() by {
        lemma_face_offsets(all);
        lemma_triangle_total_prefix(all, f + 1);
        assert(all[f] == faces[f]@);
    }
    assert forall|f: int, t: int|
        #![trigger indices[3 * (triangle_total(all.take(f)) + t)]]
        #![trigger indices[3 * (triangle_total(all.take(f)) + t) + 1]]
        #![trigger indices[3 * (triangle_total(all.take(f)) + t) + 2]]
        0 <= f < faces.len() && 0 <= t && t + 2 < faces[f].vertices.len() implies {
            &&& indices[3 * (triangle_total(all.take(f)) + t)] == vertex_total(all.take(f))
            &&& indices[3 * (triangle_total(all.take(f)) + t) + 1] == vertex_total(all.take(f)) + t + 1
            &&& indices[3 * (triangle_total(all.take(f)) + t) + 2] == vertex_total(all.take(f)) + t + 2
        } by {
        assert(all[f] == faces[f]@);
        lemma_mesh_index_at(all, f, t);
        let p = 3 * (triangle_total(all.take(f)) + t);
        assert(indices_view(indices)[p] == indices[p] as int);
        assert(indices_view(indices)[p + 1] == indices[p + 1] as int);
        assert(indices_view(indices)[p + 2] == indices[p + 2] as int);
    }
}


proof fn lemma_triangle_total_prefix(faces: Seq<FaceView>, k: int)
    requires
        0 <= k <= faces.len(),
    ensures
        triangle_total(faces.take(k)) <= triangle_total(faces),
    decreases faces.len() - k,
{
    if k < faces.len() {
        lemma_triangle_total_prefix(faces, k + 1);
        assert(faces.take(k + 1).drop_last() =~= faces.take(k));
    } else {
        assert(faces.take(k) =~= faces);
    }
}

} // verus!
