use cfd_rs::topology::{MeshTopology, Patch};

/// Unit square split along its diagonal 0-2 into two triangles.
fn square() -> MeshTopology {
    MeshTopology {
        n_nodes: 4,
        boundary_names: vec!["Bot".to_string(), "Right".to_string(), "Top".to_string(), "Left".to_string()],
        face_nodes: vec![[0, 1], [1, 2], [2, 3], [3, 0], [0, 2]],
        face_neighbors: vec![
            [Patch::Cell(0), Patch::Boundary(0)],
            [Patch::Cell(0), Patch::Boundary(1)],
            [Patch::Cell(1), Patch::Boundary(2)],
            [Patch::Cell(1), Patch::Boundary(3)],
            [Patch::Cell(1), Patch::Cell(0)],
        ],
        cell_faces: vec![vec![0, 1, 4], vec![4, 2, 3]],
    }
}

#[test]
fn sizes_and_accessors() {
    let t = square();
    assert_eq!(t.n_nodes(), 4);
    assert_eq!(t.n_faces(), 5);
    assert_eq!(t.n_cells(), 2);
    assert_eq!(t.n_boundaries(), 4);
    assert_eq!(t.face_to_nodes(4), [0, 2]);
    assert_eq!(t.face_to_neighbors(4), [Patch::Cell(1), Patch::Cell(0)]);
    assert_eq!(t.cell_to_faces(1), vec![4, 2, 3]);
    assert_eq!(t.boundary(2), "Top");
}

#[test]
fn node_connectivity() {
    let t = square();
    assert_eq!(t.node_to_faces(0), vec![0, 3, 4]);
    assert_eq!(t.node_to_nodes(0), vec![1, 3, 2]);
    assert_eq!(t.node_to_cells(0), vec![Patch::Cell(0), Patch::Boundary(3), Patch::Cell(1)]);
    assert_eq!(t.node_to_faces(1), vec![0, 1]);
    assert_eq!(t.node_to_nodes(1), vec![0, 2]);
    // a node outside the mesh has no face
    assert_eq!(t.node_to_faces(7), Vec::<usize>::new());
}

#[test]
fn node_neighbours_are_symmetric() {
    let t = square();
    for n in 0..4 {
        for m in t.node_to_nodes(n) {
            assert!(t.node_to_nodes(m).contains(&n));
        }
    }
}

#[test]
fn cell_connectivity() {
    let t = square();
    assert_eq!(t.cell_to_neighbors(0), vec![Patch::Boundary(0), Patch::Boundary(1), Patch::Cell(1)]);
    assert_eq!(t.cell_to_neighbors(1), vec![Patch::Cell(0), Patch::Boundary(2), Patch::Boundary(3)]);
    assert_eq!(t.cell_to_nodes(0), vec![0, 1, 2]);
    assert_eq!(t.cell_to_nodes(1), vec![0, 2, 3]);
}

#[test]
fn a_face_repeating_its_node_is_listed_twice() {
    let t = MeshTopology {
        n_nodes: 1,
        boundary_names: vec![],
        face_nodes: vec![[0, 0]],
        face_neighbors: vec![[Patch::Cell(0), Patch::Cell(0)]],
        cell_faces: vec![vec![0]],
    };
    assert_eq!(t.node_to_faces(0), vec![0, 0]);
    assert_eq!(t.node_to_nodes(0), vec![0, 0]);
    assert_eq!(t.node_to_cells(0), vec![Patch::Cell(0)]);
    assert_eq!(t.cell_to_nodes(0), vec![0]);
}

#[test]
fn walks_around_nodes() {
    let t = square();
    let (pairs, cells) = t.node_ring(0).unwrap();
    assert_eq!(pairs, vec![0, 4, 3]);
    assert_eq!(cells, vec![Patch::Cell(0), Patch::Cell(1), Patch::Boundary(3)]);
    let (pairs, cells) = t.node_ring(1).unwrap();
    assert_eq!(pairs, vec![0, 1]);
    assert_eq!(cells, vec![Patch::Boundary(0), Patch::Boundary(1), Patch::Cell(0)]);
    let (pairs, cells) = t.node_ring(2).unwrap();
    assert_eq!(pairs, vec![1, 2, 4]);
    assert_eq!(cells, vec![Patch::Boundary(1), Patch::Boundary(2), Patch::Cell(1), Patch::Cell(0)]);
    let (pairs, cells) = t.node_ring(3).unwrap();
    assert_eq!(pairs, vec![2, 3]);
    assert_eq!(cells, vec![Patch::Boundary(2), Patch::Boundary(3), Patch::Cell(1)]);
}

#[test]
fn walk_visits_every_face_once() {
    let t = square();
    for n in 0..4 {
        let (mut pairs, _) = t.node_ring(n).unwrap();
        let mut faces = t.node_to_faces(n);
        pairs.sort();
        faces.sort();
        assert_eq!(pairs, faces);
    }
}

#[test]
fn walk_fails_on_wrong_connectivity() {
    // the face 1 is not a face of the cell the walk enters
    let t = MeshTopology {
        n_nodes: 3,
        boundary_names: vec![],
        face_nodes: vec![[0, 1], [0, 2]],
        face_neighbors: vec![[Patch::Cell(0), Patch::Cell(1)], [Patch::Cell(1), Patch::Cell(0)]],
        cell_faces: vec![vec![0], vec![0]],
    };
    assert!(t.node_ring(0).is_none());
    assert!(t.assemble().is_none());
    // a node without faces cannot be walked around
    let t = MeshTopology {
        n_nodes: 1,
        boundary_names: vec![],
        face_nodes: vec![],
        face_neighbors: vec![],
        cell_faces: vec![],
    };
    assert!(t.node_ring(0).is_none());
}

#[test]
fn boundary_faces_of_the_square() {
    let t = square();
    assert_eq!(t.boundary_faces(), vec![vec![0], vec![1], vec![2], vec![3]]);
}

#[test]
fn assembled_square() {
    let t = square();
    let m = t.assemble().unwrap();
    assert_eq!(m.nodes_neighboring_pairs[2], vec![1, 2, 4]);
    assert_eq!(m.nodes_neighboring_cells[3], vec![Patch::Boundary(2), Patch::Boundary(3), Patch::Cell(1)]);
    assert_eq!(m.nodes_neighboring_nodes[1], vec![0, 2]);
    assert_eq!(m.cells_neighboring_nodes[1], vec![0, 2, 3]);
    assert_eq!(m.cells_neighboring_pairs[0], vec![0, 1, 4]);
    assert_eq!(m.cells_neighboring_cells[0], vec![Patch::Boundary(0), Patch::Boundary(1), Patch::Cell(1)]);
    assert_eq!(m.pairs_nodes[4], [0, 2]);
    assert_eq!(m.pairs_neighboring_cells[0], [Patch::Cell(0), Patch::Boundary(0)]);
    let b = &m.boundaries;
    assert_eq!(b.n, 4);
    assert_eq!(b.names()[3], "Left");
    assert_eq!(b.faces()[2], vec![2]);
    assert_eq!(b.nodes(), &[vec![1], vec![1, 2], vec![2, 3], vec![0, 3]]);
    assert_eq!(b.cells(), &[vec![0], vec![0], vec![1], vec![1]]);
}

#[test]
fn boundary_nodes_are_ends_of_boundary_faces() {
    let t = square();
    let m = t.assemble().unwrap();
    let b = &m.boundaries;
    for i_bnd in 0..b.n() {
        for &node in &b.nodes()[i_bnd] {
            let found = t.node_to_faces(node).into_iter().any(|f| {
                let nb = t.face_to_neighbors(f);
                nb[0] == Patch::Boundary(i_bnd) || nb[1] == Patch::Boundary(i_bnd)
            });
            assert!(found, "node {} listed on boundary {}", node, i_bnd);
        }
    }
}
