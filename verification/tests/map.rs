use brushworks::map::{
    build_faces, build_mesh_layout, candidate_plane_triples, triangulate_face, Face, MeshVertex,
};

fn face(plane_index: usize, vertices: Vec<usize>) -> Face {
    Face { plane_index, vertices, material: 0 }
}

#[test]
fn triples_of_four_planes() {
    assert_eq!(
        candidate_plane_triples(4),
        vec![(0, 1, 2), (0, 1, 3), (0, 2, 3), (1, 2, 3)]
    );
}

#[test]
fn triples_of_few_planes_are_empty() {
    assert!(candidate_plane_triples(0).is_empty());
    assert!(candidate_plane_triples(1).is_empty());
    assert!(candidate_plane_triples(2).is_empty());
    assert_eq!(candidate_plane_triples(3), vec![(0, 1, 2)]);
}

#[test]
fn triples_of_a_box_brush() {
    let triples = candidate_plane_triples(6);
    assert_eq!(triples.len(), 20);
    for w in triples.windows(2) {
        assert!(w[0] < w[1]);
    }
    for &(i, j, k) in &triples {
        assert!(i < j && j < k && k < 6);
    }
}

#[test]
fn faces_need_three_corners() {
    let on_plane = vec![vec![0, 1, 2, 3], vec![4, 5], vec![], vec![6, 7, 8]];
    let mut faces = vec![face(9, vec![1, 2, 3])];
    build_faces(&mut faces, &on_plane);
    assert_eq!(faces, vec![face(0, vec![0, 1, 2, 3]), face(3, vec![6, 7, 8])]);
}

#[test]
fn faces_of_no_planes() {
    let mut faces = vec![face(0, vec![0, 1, 2])];
    build_faces(&mut faces, &vec![]);
    assert!(faces.is_empty());
}

#[test]
fn faces_of_a_box() {
    // The eight corners of an axis-aligned box, indexed by their x, y, z bits.
    let on_plane = vec![
        vec![4, 5, 6, 7], // +x
        vec![0, 1, 2, 3], // -x
        vec![2, 3, 6, 7], // +y
        vec![0, 1, 4, 5], // -y
        vec![1, 3, 5, 7], // +z
        vec![0, 2, 4, 6], // -z
    ];
    let mut faces = Vec::new();
    build_faces(&mut faces, &on_plane);
    assert_eq!(faces.len(), 6);
    for (p, f) in faces.iter().enumerate() {
        assert_eq!(f.plane_index, p);
        assert_eq!(f.vertices, on_plane[p]);
        assert_eq!(f.material, 0);
    }
    let layout = build_mesh_layout(&faces);
    assert_eq!(layout.vertices.len(), 24);
    assert_eq!(layout.indices.len(), 36);
    for &i in &layout.indices {
        assert!((i as usize) < layout.vertices.len());
    }
}

#[test]
fn triangulate_quad() {
    assert_eq!(triangulate_face(&face(0, vec![7, 8, 9, 10])), vec![[0, 1, 2], [0, 2, 3]]);
}

#[test]
fn triangulate_small_faces() {
    assert_eq!(triangulate_face(&face(0, vec![5, 6, 7])), vec![[0, 1, 2]]);
    assert!(triangulate_face(&face(0, vec![5, 6])).is_empty());
    assert!(triangulate_face(&face(0, vec![5])).is_empty());
}

#[test]
fn triangulate_hexagon() {
    let tris = triangulate_face(&face(2, vec![0, 1, 2, 3, 4, 5]));
    assert_eq!(tris, vec![[0, 1, 2], [0, 2, 3], [0, 3, 4], [0, 4, 5]]);
}

#[test]
fn mesh_layout_of_two_faces() {
    let faces = vec![face(1, vec![10, 11, 12]), face(4, vec![20, 21, 22, 23])];
    let layout = build_mesh_layout(&faces);
    assert_eq!(
        layout.vertices,
        vec![
            MeshVertex { plane_index: 1, vertex_index: 10 },
            MeshVertex { plane_index: 1, vertex_index: 11 },
            MeshVertex { plane_index: 1, vertex_index: 12 },
            MeshVertex { plane_index: 4, vertex_index: 20 },
            MeshVertex { plane_index: 4, vertex_index: 21 },
            MeshVertex { plane_index: 4, vertex_index: 22 },
            MeshVertex { plane_index: 4, vertex_index: 23 },
        ]
    );
    assert_eq!(layout.indices, vec![0, 1, 2, 3, 4, 5, 3, 5, 6]);
}

#[test]
fn mesh_layout_offsets_past_degenerate_faces() {
    // Faces with fewer than three corners add vertices but no triangles.
    let faces = vec![face(0, vec![1, 2]), face(2, vec![3, 4, 5])];
    let layout = build_mesh_layout(&faces);
    assert_eq!(layout.vertices.len(), 5);
    assert_eq!(layout.indices, vec![2, 3, 4]);
}

#[test]
fn mesh_triangles_share_a_plane() {
    let faces = vec![face(0, vec![0, 1, 2, 3, 4]), face(3, vec![5, 6, 7])];
    let layout = build_mesh_layout(&faces);
    for tri in layout.indices.chunks(3) {
        let a = layout.vertices[tri[0] as usize];
        let b = layout.vertices[tri[1] as usize];
        let c = layout.vertices[tri[2] as usize];
        assert!(tri[0] != tri[1] && tri[1] != tri[2] && tri[0] != tri[2]);
        assert_eq!(a.plane_index, b.plane_index);
        assert_eq!(b.plane_index, c.plane_index);
    }
}

#[test]
fn mesh_layout_of_no_faces() {
    let layout = build_mesh_layout(&vec![]);
    assert!(layout.vertices.is_empty());
    assert!(layout.indices.is_empty());
}
