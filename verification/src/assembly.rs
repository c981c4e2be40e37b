use vstd::prelude::*;
use crate::boundaries::Boundaries;
use vstd::multiset::Multiset;
use crate::topology::{
    contains_patch, dedup, end_nodes, faces_at_node, lemma_faces_at_node, nodes_through,
    patches_across, patches_beside, side_patch, MeshTopology, Patch,
};

verus! {

/// `s` with its element at `i` replaced by its last one, and shortened by
/// one (what `Vec::swap_remove` leaves).
pub open spec fn swap_removed(s: Seq<usize>, i: int) -> Seq<usize> {
    s.update(i, s.last()).drop_last()
}

/// The first index from `i` on whose face belongs to `cell_faces`.
pub open spec fn first_face_of_cell(rem: Seq<usize>, cell_faces: Seq<usize>, i: int) -> Option<int>
    decreases rem.len() - i,
{
    if i < 0 || i >= rem.len() {
        None
    } else if cell_faces.contains(rem[i]) {
        Some(i)
    } else {
        first_face_of_cell(rem, cell_faces, i + 1)
    }
}

/// The first face found in a cell is a face of that cell, in range.
pub proof fn lemma_first_face_of_cell_range(rem: Seq<usize>, cell_faces: Seq<usize>, i: int)
    ensures
        first_face_of_cell(rem, cell_faces, i) matches Some(k) ==> 0 <= k < rem.len()
            && cell_faces.contains(rem[k]),
    decreases rem.len() - i,
{
    if 0 <= i < rem.len() && !cell_faces.contains(rem[i]) {
        lemma_first_face_of_cell_range(rem, cell_faces, i + 1);
    }
}

/// The first boundary face found touches a boundary, and is in range.
pub proof fn lemma_first_boundary_face_range(rem: Seq<usize>, face_neighbors: Seq<[Patch; 2]>, i: int)
    ensures
        first_boundary_face(rem, face_neighbors, i) matches Some(k) ==> 0 <= k < rem.len()
            && touches_boundary(face_neighbors[rem[k] as int]),
    decreases rem.len() - i,
{
    if 0 <= i < rem.len() && !touches_boundary(face_neighbors[rem[i] as int]) {
        lemma_first_boundary_face_range(rem, face_neighbors, i + 1);
    }
}

/// The face has a boundary patch on one of its sides.
pub open spec fn touches_boundary(neighbors: [Patch; 2]) -> bool {
    neighbors[0] is Boundary || neighbors[1] is Boundary
}

/// The first boundary patch beside a face that touches a boundary.
pub open spec fn boundary_side(neighbors: [Patch; 2]) -> Patch {
    if neighbors[0] is Boundary {
        neighbors[0]
    } else {
        neighbors[1]
    }
}

/// The first index from `i` on whose face touches a boundary.
pub open spec fn first_boundary_face(rem: Seq<usize>, face_neighbors: Seq<[Patch; 2]>, i: int) -> Option<
    int,
>
    decreases rem.len() - i,
{
    if i < 0 || i >= rem.len() {
        None
    } else if touches_boundary(face_neighbors[rem[i] as int]) {
        Some(i)
    } else {
        first_boundary_face(rem, face_neighbors, i + 1)
    }
}

/// `cells` followed by the patches of `around` it lacks, in their order.
pub open spec fn append_missing(cells: Seq<Patch>, around: Seq<Patch>) -> Seq<Patch>
    decreases around.len(),
{
    if around.len() == 0 {
        cells
    } else {
        let c = append_missing(cells, around.drop_last());
        if c.contains(around.last()) {
            c
        } else {
            c.push(around.last())
        }
    }
}

/// The walk around `node`, from the state where `pairs` are the faces
/// visited so far, `rem` the faces still to visit and `cells` the patches
/// met so far. Leaving the last face visited through its patch beside
/// `node`, the walk records that patch and goes on with the first remaining
/// face of that cell (or, from a boundary, with the first remaining face
/// that touches a boundary, recording that boundary). When no face is left,
/// the patches of `around` not yet met are appended. The walk fails (`None`)
/// when no remaining face can be reached.
pub open spec fn ring_walk(
    t: MeshTopology,
    node: usize,
    rem: Seq<usize>,
    pairs: Seq<usize>,
    cells: Seq<Patch>,
    around: Seq<Patch>,
) -> Option<(Seq<usize>, Seq<Patch>)>
    decreases rem.len(),
{
    let last = pairs.last() as int;
    let current = side_patch(t.face_nodes@[last], t.face_neighbors@[last], node);
    let cells1 = cells.push(current);
    if rem.len() == 0 {
        Some((pairs, append_missing(cells1, around)))
    } else {
        match current {
            Patch::Cell(c) => match first_face_of_cell(rem, t.cell_faces@[c as int]@, 0) {
                None => None,
                Some(i) => {
                    proof {
                        lemma_first_face_of_cell_range(rem, t.cell_faces@[c as int]@, 0);
                    }
                    ring_walk(
                    t,
                    node,
                    swap_removed(rem, i),
                    pairs.push(rem[i]),
                    cells1,
                    around,
                )
                },
            },
            Patch::Boundary(_) => match first_boundary_face(rem, t.face_neighbors@, 0) {
                None => None,
                Some(i) => {
                    proof {
                        lemma_first_boundary_face_range(rem, t.face_neighbors@, 0);
                    }
                    let b = boundary_side(t.face_neighbors@[rem[i] as int]);
                    let cells2 = if cells1.contains(b) {
                        cells1
                    } else {
                        cells1.push(b)
                    };
                    ring_walk(t, node, swap_removed(rem, i), pairs.push(rem[i]), cells2, around)
                },
            },
        }
    }
}

/// The faces and patches around `node` in walking order, starting from its
/// first face; `None` when the node has no face or the walk fails.
pub open spec fn node_ring_spec(t: MeshTopology, node: usize) -> Option<(Seq<usize>, Seq<Patch>)> {
    let faces = faces_at_node(t.face_nodes@, node);
    if faces.len() == 0 {
        None
    } else {
        ring_walk(
            t,
            node,
            swap_removed(faces, 0),
            seq![faces[0]],
            Seq::empty(),
            dedup(patches_beside(t.face_nodes@, t.face_neighbors@, faces, node)),
        )
    }
}

/// The faces that have boundary `b` on a side, in increasing order, a face
/// listed once for each of its sides that is `b`.
pub open spec fn faces_on_boundary(face_neighbors: Seq<[Patch; 2]>, b: usize) -> Seq<usize>
    decreases face_neighbors.len(),
{
    if face_neighbors.len() == 0 {
        Seq::empty()
    } else {
        let f = (face_neighbors.len() - 1) as usize;
        faces_on_boundary(face_neighbors.drop_last(), b) + (if face_neighbors.last()[0]
            == Patch::Boundary(b) {
            seq![f]
        } else {
            Seq::empty()
        }) + (if face_neighbors.last()[1] == Patch::Boundary(b) {
            seq![f]
        } else {
            Seq::empty()
        })
    }
}

/// The index of the cell across a face from boundary `b`; a face with no
/// cell on its other side (a boundary on both sides) gives cell 0.
pub open spec fn cell_across(neighbors: [Patch; 2], b: usize) -> usize {
    let other = if neighbors[0] == Patch::Boundary(b) {
        neighbors[1]
    } else {
        neighbors[0]
    };
    match other {
        Patch::Cell(c) => c,
        Patch::Boundary(_) => 0,
    }
}

/// The patches met around node `i` (meaningful when its walk succeeds).
pub open spec fn ring_cells(t: MeshTopology, i: int) -> Seq<Patch> {
    node_ring_spec(t, i as usize).unwrap().1
}

/// The nodes among the first `n` whose walk meets boundary `b`, in
/// increasing order.
pub open spec fn nodes_on_boundary(t: MeshTopology, b: usize, n: nat) -> Seq<usize>
    decreases n,
{
    if n == 0 {
        Seq::empty()
    } else {
        nodes_on_boundary(t, b, (n - 1) as nat) + (if ring_cells(t, n - 1).contains(
            Patch::Boundary(b),
        ) {
            seq![(n - 1) as usize]
        } else {
            Seq::empty()
        })
    }
}

/// The assembled connectivity of a mesh: for every node, cell and face
/// (pair), its neighbouring nodes, cells and faces, and the boundaries.
#[derive(Debug)]
pub struct MeshConnectivity {
    pub nodes_neighboring_nodes: Vec<Vec<usize>>,
    pub nodes_neighboring_cells: Vec<Vec<Patch>>,
    pub nodes_neighboring_pairs: Vec<Vec<usize>>,
    pub cells_neighboring_nodes: Vec<Vec<usize>>,
    pub cells_neighboring_cells: Vec<Vec<Patch>>,
    pub cells_neighboring_pairs: Vec<Vec<usize>>,
    pub pairs_nodes: Vec<[usize; 2]>,
    pub pairs_neighboring_cells: Vec<[Patch; 2]>,
    pub boundaries: Boundaries,
}

proof fn lemma_swap_removed_elems(s: Seq<usize>, i: int, bound: nat)
    requires
        0 <= i < s.len(),
        forall|j: int| 0 <= j < s.len() ==> #[trigger] s[j] < bound,
    ensures
        forall|j: int| 0 <= j < swap_removed(s, i).len() ==> #[trigger] swap_removed(s, i)[j] < bound,
        swap_removed(s, i).len() == s.len() - 1,
{
    assert forall|j: int| 0 <= j < swap_removed(s, i).len() implies #[trigger] swap_removed(
        s,
        i,
    )[j] < bound by {
        if j == i {
            assert(s[s.len() - 1] < bound);
        } else {
            assert(s[j] < bound);
        }
    }
}

impl MeshTopology {
    /// Every cell has itself on a side of each of its faces.
    pub open spec fn cells_consistent(&self) -> bool {
        forall|c: int| 0 <= c < self.cell_faces@.len() ==> #[trigger] self.cell_consistent(c)
    }

    /// The faces of each boundary, each face once per side it has on that
    /// boundary.
    pub fn boundary_faces(&self) -> (r: Vec<Vec<usize>>)
        requires
            self.wf(),
        ensures
            r@.len() == self.boundary_names@.len(),
            forall|b: int|
                0 <= b < r@.len() ==> (#[trigger] r@[b])@ == faces_on_boundary(
                    self.face_neighbors@,
                    b as usize,
                ),
    {
        let n_bnd = self.boundary_names.len();
        let mut out: Vec<Vec<usize>> = Vec::new();
        let mut b: usize = 0;
        while b < n_bnd
            invariant
                0 <= b <= n_bnd,
                n_bnd == self.boundary_names@.len(),
                out@.len() == b,
                forall|j: int|
                    0 <= j < b ==> (#[trigger] out@[j])@ == faces_on_boundary(
                        self.face_neighbors@,
                        j as usize,
                    ),
            decreases n_bnd - b,
        {
            let mut faces: Vec<usize> = Vec::new();
            let mut i_pair: usize = 0;
            while i_pair < self.face_neighbors.len()
                invariant
                    0 <= i_pair <= self.face_neighbors@.len(),
                    faces@ == faces_on_boundary(self.face_neighbors@.take(i_pair as int), b),
                decreases self.face_neighbors@.len() - i_pair,
            {
                let neighbors = self.face_neighbors[i_pair];
                proof {
                    let t = self.face_neighbors@.take(i_pair as int + 1);
                    assert(t.drop_last() =~= self.face_neighbors@.take(i_pair as int));
                    assert(t.last() == neighbors);
                }
                if neighbors[0] == Patch::Boundary(b) {
                    faces.push(i_pair);
                }
                if neighbors[1] == Patch::Boundary(b) {
                    faces.push(i_pair);
                }
                proof {
                    let t = self.face_neighbors@.take(i_pair as int + 1);
                    assert(faces@ =~= faces_on_boundary(t, b));
                }
                i_pair = i_pair + 1;
            }
            assert(self.face_neighbors@.take(i_pair as int) =~= self.face_neighbors@);
            out.push(faces);
            b = b + 1;
        }
        out
    }

    /// Walks around `i_node`: the faces ending at it, in turning order from
    /// its first face, and the patches around it (cells and boundaries) in
    /// the order met. `None` when the connectivity does not let the walk go
    /// on (a mesh core with wrong connectivity).
    pub fn node_ring(&self, i_node: usize) -> (r: Option<(Vec<usize>, Vec<Patch>)>)
        requires
            self.wf(),
        ensures
            match node_ring_spec(*self, i_node) {
                None => r is None,
                Some((ps, cs)) => r matches Some((p, c)) && p@ == ps && c@ == cs,
            },
    {
        let mut i_pairs = self.node_to_faces(i_node);
        let n_faces = self.face_nodes.len();
        proof {
            lemma_faces_at_node(self.face_nodes@, i_node);
        }
        if i_pairs.len() == 0 {
            return None;
        }
        let i_cells = self.node_to_cells(i_node);
        let ghost around = i_cells@;
        let ghost target = node_ring_spec(*self, i_node);

        let mut pairs: Vec<usize> = Vec::new();
        let mut cells: Vec<Patch> = Vec::new();
        let ghost faces = i_pairs@;
        let mut current_pair = i_pairs.swap_remove(0);
        pairs.push(current_pair);
        proof {
            assert forall|j: int| 0 <= j < faces.len() implies #[trigger] faces[j] < n_faces by {
            }
            lemma_swap_removed_elems(faces, 0, n_faces as nat);
            assert(pairs@ =~= seq![faces[0]]);
            assert(cells@ =~= Seq::<Patch>::empty());
        }
        loop
            invariant
                self.wf(),
                n_faces == self.face_nodes@.len(),
                pairs@.len() > 0,
                pairs@.last() == current_pair,
                current_pair < n_faces,
                forall|j: int| 0 <= j < i_pairs@.len() ==> #[trigger] i_pairs@[j] < n_faces,
                i_cells@ == around,
                ring_walk(*self, i_node, i_pairs@, pairs@, cells@, around) == target,
                target == node_ring_spec(*self, i_node),
            decreases i_pairs@.len(),
        {
            let ghost rem = i_pairs@;
            let ghost pairs0 = pairs@;
            let ghost cells0 = cells@;
            let current_cell = if self.face_nodes[current_pair][0] == i_node {
                self.face_neighbors[current_pair][0]
            } else {
                self.face_neighbors[current_pair][1]
            };
            cells.push(current_cell);
            let ghost cells1 = cells@;

            if i_pairs.len() == 0 {
                let mut k: usize = 0;
                while k < i_cells.len()
                    invariant
                        0 <= k <= i_cells@.len(),
                        i_cells@ == around,
                        cells@ == append_missing(cells1, around.take(k as int)),
                    decreases i_cells@.len() - k,
                {
                    let cell = i_cells[k];
                    proof {
                        let t = around.take(k as int + 1);
                        assert(t.drop_last() =~= around.take(k as int));
                        assert(t.last() == cell);
                    }
                    if !contains_patch(&cells, &cell) {
                        cells.push(cell);
                    }
                    k = k + 1;
                }
                proof {
                    assert(around.take(k as int) =~= around);
                }
                return Some((pairs, cells));
            }

            match current_cell {
                Patch::Cell(i_cell) => {
                    let cell_faces = &self.cell_faces[i_cell];
                    let mut i: usize = 0;
                    let mut found = false;
                    while i < i_pairs.len()
                        invariant
                            0 <= i <= i_pairs@.len(),
                            i_pairs@ == rem,
                            cell_faces@ == self.cell_faces@[i_cell as int]@,
                            first_face_of_cell(rem, cell_faces@, 0) == first_face_of_cell(
                                rem,
                                cell_faces@,
                                i as int,
                            ),
                            found ==> i < rem.len() && cell_faces@.contains(rem[i as int]),
                        ensures
                            found ==> i < rem.len() && cell_faces@.contains(rem[i as int]),
                            !found ==> i == rem.len(),
                            first_face_of_cell(rem, cell_faces@, 0) == first_face_of_cell(
                                rem,
                                cell_faces@,
                                i as int,
                            ),
                        decreases i_pairs@.len() - i + (if found {
                            0int
                        } else {
                            1int
                        }),
                    {
                        if crate::topology::contains_usize(cell_faces, i_pairs[i]) {
                            found = true;
                            break;
                        }
                        i = i + 1;
                    }
                    if !found {
                        assert(first_face_of_cell(rem, cell_faces@, i as int) is None);
                        return None;
                    }
                    assert(first_face_of_cell(rem, cell_faces@, i as int) == Some(i as int));
                    current_pair = i_pairs.swap_remove(i);
                    proof {
                        lemma_swap_removed_elems(rem, i as int, n_faces as nat);
                    }
                },
                Patch::Boundary(_) => {
                    let mut i: usize = 0;
                    let mut found = false;
                    while i < i_pairs.len()
                        invariant
                            0 <= i <= i_pairs@.len(),
                            i_pairs@ == rem,
                            self.wf(),
                            n_faces == self.face_nodes@.len(),
                            forall|j: int| 0 <= j < rem.len() ==> #[trigger] rem[j] < n_faces,
                            first_boundary_face(rem, self.face_neighbors@, 0)
                                == first_boundary_face(rem, self.face_neighbors@, i as int),
                            found ==> i < rem.len() && touches_boundary(
                                self.face_neighbors@[rem[i as int] as int],
                            ),
                        ensures
                            found ==> i < rem.len() && touches_boundary(
                                self.face_neighbors@[rem[i as int] as int],
                            ),
                            !found ==> i == rem.len(),
                            first_boundary_face(rem, self.face_neighbors@, 0)
                                == first_boundary_face(rem, self.face_neighbors@, i as int),
                        decreases i_pairs@.len() - i + (if found {
                            0int
                        } else {
                            1int
                        }),
                    {
                        let neighbors = self.face_neighbors[i_pairs[i]];
                        if let Patch::Boundary(_) = neighbors[0] {
                            found = true;
                            break;
                        }
                        if let Patch::Boundary(_) = neighbors[1] {
                            found = true;
                            break;
                        }
                        i = i + 1;
                    }
                    if !found {
                        assert(first_boundary_face(rem, self.face_neighbors@, i as int) is None);
                        return None;
                    }
                    assert(first_boundary_face(rem, self.face_neighbors@, i as int) == Some(
                        i as int,
                    ));
                    let neighbors = self.face_neighbors[i_pairs[i]];
                    let neighbor = if let Patch::Boundary(_) = neighbors[0] {
                        neighbors[0]
                    } else {
                        neighbors[1]
                    };
                    if !contains_patch(&cells, &neighbor) {
                        cells.push(neighbor);
                    }
                    current_pair = i_pairs.swap_remove(i);
                    proof {
                        lemma_swap_removed_elems(rem, i as int, n_faces as nat);
                    }
                },
            }
            pairs.push(current_pair);
        }
    }
}

/// Every node can be walked around.
pub open spec fn all_rings_succeed(t: MeshTopology) -> bool {
    forall|i: int| 0 <= i < t.n_nodes ==> #[trigger] node_ring_spec(t, i as usize) is Some
}

/// The cells across the faces of boundary `b`, one per face of it.
pub open spec fn cells_on_boundary(t: MeshTopology, b: usize) -> Seq<usize> {
    faces_on_boundary(t.face_neighbors@, b).map_values(
        |f: usize| cell_across(t.face_neighbors@[f as int], b),
    )
}

proof fn lemma_faces_on_boundary_range(face_neighbors: Seq<[Patch; 2]>, b: usize)
    requires
        face_neighbors.len() <= usize::MAX,
    ensures
        forall|k: int|
            0 <= k < faces_on_boundary(face_neighbors, b).len() ==> #[trigger] faces_on_boundary(
                face_neighbors,
                b,
            )[k] < face_neighbors.len(),
    decreases face_neighbors.len(),
{
    if face_neighbors.len() > 0 {
        lemma_faces_on_boundary_range(face_neighbors.drop_last(), b);
        let a = faces_on_boundary(face_neighbors.drop_last(), b);
        let r = faces_on_boundary(face_neighbors, b);
        let fl = (face_neighbors.len() - 1) as usize;
        let m = a + (if face_neighbors.last()[0] == Patch::Boundary(b) {
            seq![fl]
        } else {
            Seq::empty()
        });
        assert(r == m + (if face_neighbors.last()[1] == Patch::Boundary(b) {
            seq![fl]
        } else {
            Seq::empty()
        }));
        assert forall|k: int| 0 <= k < r.len() implies #[trigger] r[k] < face_neighbors.len() by {
            if k < a.len() {
                assert(r[k] == a[k]);
            } else if k < m.len() {
                assert(r[k] == m[k]);
            }
        }
    }
}

impl MeshTopology {
    /// Assembles the connectivity of the mesh: the walk around every node
    /// (its faces and patches in turning order), the neighbour nodes of each
    /// node, the nodes, faces and neighbours of each cell, the nodes and
    /// neighbours of each face, and for each boundary its name, faces, the
    /// nodes whose walk meets it and the cells across its faces. `None` when
    /// the walk around some node fails.
    pub fn assemble(&self) -> (r: Option<MeshConnectivity>)
        requires
            self.wf(),
            self.cells_consistent(),
        ensures
            r is Some <==> all_rings_succeed(*self),
            r matches Some(m) ==> {
                &&& m.nodes_neighboring_nodes@.len() == self.n_nodes
                &&& m.nodes_neighboring_pairs@.len() == self.n_nodes
                &&& m.nodes_neighboring_cells@.len() == self.n_nodes
                &&& forall|i: int|
                    0 <= i < self.n_nodes ==> {
                        &&& (#[trigger] m.nodes_neighboring_nodes@[i])@ == nodes_through(
                            self.face_nodes@,
                            faces_at_node(self.face_nodes@, i as usize),
                            i as usize,
                        )
                        &&& node_ring_spec(*self, i as usize) == Some(
                            (m.nodes_neighboring_pairs@[i]@, m.nodes_neighboring_cells@[i]@),
                        )
                    }
                &&& m.cells_neighboring_nodes@.len() == self.cell_faces@.len()
                &&& m.cells_neighboring_pairs@.len() == self.cell_faces@.len()
                &&& m.cells_neighboring_cells@.len() == self.cell_faces@.len()
                &&& forall|c: int|
                    0 <= c < self.cell_faces@.len() ==> {
                        &&& (#[trigger] m.cells_neighboring_nodes@[c])@ == dedup(
                            end_nodes(self.face_nodes@, self.cell_faces@[c]@),
                        )
                        &&& m.cells_neighboring_pairs@[c]@ == self.cell_faces@[c]@
                        &&& m.cells_neighboring_cells@[c]@ == patches_across(
                            self.face_neighbors@,
                            self.cell_faces@[c]@,
                            c as usize,
                        )
                    }
                &&& m.pairs_nodes@ == self.face_nodes@
                &&& m.pairs_neighboring_cells@ == self.face_neighbors@
                &&& m.boundaries.wf()
                &&& m.boundaries.spec_n() == self.boundary_names@.len()
                &&& forall|b: int|
                    0 <= b < self.boundary_names@.len() ==> {
                        &&& (#[trigger] m.boundaries.spec_names()[b])@
                            == self.boundary_names@[b]@
                        &&& m.boundaries.spec_faces()[b]@ == faces_on_boundary(
                            self.face_neighbors@,
                            b as usize,
                        )
                        &&& m.boundaries.spec_nodes()[b]@ == nodes_on_boundary(
                            *self,
                            b as usize,
                            self.n_nodes as nat,
                        )
                        &&& m.boundaries.spec_cells()[b]@ == cells_on_boundary(*self, b as usize)
                    }
            },
    {
        let n_nodes = self.n_nodes;
        let n_cells = self.cell_faces.len();
        let n_bnd = self.boundary_names.len();
        let n_pairs = self.face_nodes.len();

        // Walks around the nodes
        let mut nodes_neighboring_nodes: Vec<Vec<usize>> = Vec::new();
        let mut nodes_neighboring_pairs: Vec<Vec<usize>> = Vec::new();
        let mut nodes_neighboring_cells: Vec<Vec<Patch>> = Vec::new();
        let mut i_node: usize = 0;
        while i_node < n_nodes
            invariant
                0 <= i_node <= n_nodes,
                n_nodes == self.n_nodes,
                self.wf(),
                nodes_neighboring_nodes@.len() == i_node,
                nodes_neighboring_pairs@.len() == i_node,
                nodes_neighboring_cells@.len() == i_node,
                forall|i: int|
                    0 <= i < i_node ==> (#[trigger] nodes_neighboring_nodes@[i])@ == nodes_through(
                        self.face_nodes@,
                        faces_at_node(self.face_nodes@, i as usize),
                        i as usize,
                    ),
                forall|i: int|
                    0 <= i < i_node ==> #[trigger] node_ring_spec(*self, i as usize) == Some(
                        (nodes_neighboring_pairs@[i]@, nodes_neighboring_cells@[i]@),
                    ),
            decreases n_nodes - i_node,
        {
            match self.node_ring(i_node) {
                None => {
                    assert(node_ring_spec(*self, (i_node as int) as usize) is None);
                    return None;
                },
                Some((pairs, cells)) => {
                    nodes_neighboring_nodes.push(self.node_to_nodes(i_node));
                    nodes_neighboring_pairs.push(pairs);
                    nodes_neighboring_cells.push(cells);
                },
            }
            i_node = i_node + 1;
        }
        assert(all_rings_succeed(*self)) by {
            assert forall|i: int| 0 <= i < self.n_nodes implies #[trigger] node_ring_spec(
                *self,
                i as usize,
            ) is Some by {
                assert(node_ring_spec(*self, i as usize) == Some(
                    (nodes_neighboring_pairs@[i]@, nodes_neighboring_cells@[i]@),
                ));
            }
        }

        // Cells
        let mut cells_neighboring_nodes: Vec<Vec<usize>> = Vec::new();
        let mut cells_neighboring_pairs: Vec<Vec<usize>> = Vec::new();
        let mut cells_neighboring_cells: Vec<Vec<Patch>> = Vec::new();
        let mut i_cell: usize = 0;
        while i_cell < n_cells
            invariant
                0 <= i_cell <= n_cells,
                n_cells == self.cell_faces@.len(),
                self.wf(),
                self.cells_consistent(),
                cells_neighboring_nodes@.len() == i_cell,
                cells_neighboring_pairs@.len() == i_cell,
                cells_neighboring_cells@.len() == i_cell,
                forall|c: int|
                    0 <= c < i_cell ==> {
                        &&& (#[trigger] cells_neighboring_nodes@[c])@ == dedup(
                            end_nodes(self.face_nodes@, self.cell_faces@[c]@),
                        )
                        &&& cells_neighboring_pairs@[c]@ == self.cell_faces@[c]@
                        &&& cells_neighboring_cells@[c]@ == patches_across(
                            self.face_neighbors@,
                            self.cell_faces@[c]@,
                            c as usize,
                        )
                    },
            decreases n_cells - i_cell,
        {
            assert(self.cell_consistent(i_cell as int));
            cells_neighboring_nodes.push(self.cell_to_nodes(i_cell));
            cells_neighboring_pairs.push(self.cell_to_faces(i_cell));
            cells_neighboring_cells.push(self.cell_to_neighbors(i_cell));
            i_cell = i_cell + 1;
        }

        // Pairs
        let mut pairs_nodes: Vec<[usize; 2]> = Vec::new();
        let mut pairs_neighboring_cells: Vec<[Patch; 2]> = Vec::new();
        let mut i_pair: usize = 0;
        while i_pair < n_pairs
            invariant
                0 <= i_pair <= n_pairs,
                n_pairs == self.face_nodes@.len(),
                self.wf(),
                pairs_nodes@ == self.face_nodes@.take(i_pair as int),
                pairs_neighboring_cells@ == self.face_neighbors@.take(i_pair as int),
            decreases n_pairs - i_pair,
        {
            pairs_nodes.push(self.face_nodes[i_pair]);
            pairs_neighboring_cells.push(self.face_neighbors[i_pair]);
            assert(pairs_nodes@ =~= self.face_nodes@.take(i_pair as int + 1));
            assert(pairs_neighboring_cells@ =~= self.face_neighbors@.take(i_pair as int + 1));
            i_pair = i_pair + 1;
        }
        assert(pairs_nodes@ =~= self.face_nodes@);
        assert(pairs_neighboring_cells@ =~= self.face_neighbors@);

        // Boundaries
        let mut boundaries_names: Vec<String> = Vec::new();
        let mut b: usize = 0;
        while b < n_bnd
            invariant
                0 <= b <= n_bnd,
                n_bnd == self.boundary_names@.len(),
                boundaries_names@.len() == b,
                forall|j: int|
                    0 <= j < b ==> (#[trigger] boundaries_names@[j])@
                        == self.boundary_names@[j]@,
            decreases n_bnd - b,
        {
            boundaries_names.push(self.boundary(b));
            b = b + 1;
        }
        let boundaries_faces = self.boundary_faces();
        let ghost fnb = self.face_neighbors@;

        let mut boundaries_nodes: Vec<Vec<usize>> = Vec::new();
        let mut boundaries_cells: Vec<Vec<usize>> = Vec::new();
        let mut b: usize = 0;
        while b < n_bnd
            invariant
                0 <= b <= n_bnd,
                n_bnd == self.boundary_names@.len(),
                n_nodes == self.n_nodes,
                n_pairs == self.face_nodes@.len(),
                self.wf(),
                fnb == self.face_neighbors@,
                nodes_neighboring_cells@.len() == n_nodes,
                nodes_neighboring_pairs@.len() == n_nodes,
                all_rings_succeed(*self),
                forall|i: int|
                    0 <= i < n_nodes ==> #[trigger] node_ring_spec(*self, i as usize) == Some(
                        (nodes_neighboring_pairs@[i]@, nodes_neighboring_cells@[i]@),
                    ),
                boundaries_faces@.len() == n_bnd,
                forall|j: int|
                    0 <= j < n_bnd ==> (#[trigger] boundaries_faces@[j])@ == faces_on_boundary(
                        fnb,
                        j as usize,
                    ),
                boundaries_nodes@.len() == b,
                boundaries_cells@.len() == b,
                forall|j: int|
                    0 <= j < b ==> {
                        &&& (#[trigger] boundaries_nodes@[j])@ == nodes_on_boundary(
                            *self,
                            j as usize,
                            n_nodes as nat,
                        )
                        &&& boundaries_cells@[j]@ == cells_on_boundary(*self, j as usize)
                    },
            decreases n_bnd - b,
        {
            let mut bnd_nodes: Vec<usize> = Vec::new();
            let mut i: usize = 0;
            while i < n_nodes
                invariant
                    0 <= i <= n_nodes,
                    n_nodes == self.n_nodes,
                    nodes_neighboring_cells@.len() == n_nodes,
                    nodes_neighboring_pairs@.len() == n_nodes,
                    forall|k: int|
                        0 <= k < n_nodes ==> #[trigger] node_ring_spec(*self, k as usize) == Some(
                            (nodes_neighboring_pairs@[k]@, nodes_neighboring_cells@[k]@),
                        ),
                    bnd_nodes@ == nodes_on_boundary(*self, b, i as nat),
                decreases n_nodes - i,
            {
                assert(ring_cells(*self, i as int) == nodes_neighboring_cells@[i as int]@);
                if contains_patch(&nodes_neighboring_cells[i], &Patch::Boundary(b)) {
                    bnd_nodes.push(i);
                }
                assert(bnd_nodes@ =~= nodes_on_boundary(*self, b, (i + 1) as nat));
                i = i + 1;
            }
            let faces = &boundaries_faces[b];
            assert(faces@ == faces_on_boundary(fnb, b));
            proof {
                lemma_faces_on_boundary_range(fnb, b);
            }
            let ghost target = cells_on_boundary(*self, b);
            let mut bnd_cells: Vec<usize> = Vec::new();
            let mut k: usize = 0;
            while k < faces.len()
                invariant
                    0 <= k <= faces@.len(),
                    faces@ == faces_on_boundary(fnb, b),
                    fnb == self.face_neighbors@,
                    forall|j: int| 0 <= j < faces@.len() ==> #[trigger] faces@[j] < fnb.len(),
                    target == cells_on_boundary(*self, b),
                    bnd_cells@ == target.take(k as int),
                decreases faces@.len() - k,
            {
                let f = faces[k];
                assert(faces@[k as int] == f);
                let neighbors = self.face_neighbors[f];
                let other = if neighbors[0] == Patch::Boundary(b) {
                    neighbors[1]
                } else {
                    neighbors[0]
                };
                let cell = match other {
                    Patch::Cell(c) => c,
                    Patch::Boundary(_) => 0,
                };
                bnd_cells.push(cell);
                assert(bnd_cells@ =~= target.take(k as int + 1));
                k = k + 1;
            }
            assert(target.take(k as int) =~= target);
            boundaries_nodes.push(bnd_nodes);
            boundaries_cells.push(bnd_cells);
            b = b + 1;
        }

        let boundaries = Boundaries::new(
            boundaries_names,
            boundaries_faces,
            boundaries_nodes,
            boundaries_cells,
        );

        Some(
            MeshConnectivity {
                nodes_neighboring_nodes,
                nodes_neighboring_cells,
                nodes_neighboring_pairs,
                cells_neighboring_nodes,
                cells_neighboring_cells,
                cells_neighboring_pairs,
                pairs_nodes,
                pairs_neighboring_cells,
                boundaries,
            },
        )
    }
}


broadcast use vstd::multiset::group_multiset_axioms;

proof fn lemma_swap_removed_multiset(s: Seq<usize>, i: int)
    requires
        0 <= i < s.len(),
    ensures
        swap_removed(s, i).to_multiset().insert(s[i]) == s.to_multiset(),
{
    let last = s.last();
    let u = s.update(i, last);
    let d = swap_removed(s, i);
    vstd::seq_lib::to_multiset_update(s, i, last);
    assert(u =~= d.push(last));
    vstd::seq_lib::to_multiset_build(d, last);
    vstd::seq_lib::to_multiset_contains(s, s[i]);
    assert(s.contains(s[i]));
    assert(d.to_multiset().insert(last) =~= s.to_multiset().insert(last).remove(s[i]));
    assert forall|v: usize| #[trigger] d.to_multiset().count(v) == s.to_multiset().remove(
        s[i],
    ).count(v) by {
        assert(d.to_multiset().insert(last).count(v) == s.to_multiset().insert(last).remove(
            s[i],
        ).count(v));
    }
    assert(d.to_multiset() =~= s.to_multiset().remove(s[i]));
    assert(d.to_multiset().insert(s[i]) =~= s.to_multiset());
}

proof fn lemma_append_missing_contains(cells: Seq<Patch>, around: Seq<Patch>)
    ensures
        forall|p: Patch| cells.contains(p) ==> #[trigger] append_missing(cells, around).contains(p),
        forall|p: Patch| around.contains(p) ==> #[trigger] append_missing(cells, around).contains(p),
    decreases around.len(),
{
    if around.len() > 0 {
        lemma_append_missing_contains(cells, around.drop_last());
        let c = append_missing(cells, around.drop_last());
        let l = around.last();
        assert forall|p: Patch| c.contains(p) implies #[trigger] append_missing(
            cells,
            around,
        ).contains(p) by {
            if !c.contains(l) {
                let k = choose|k: int| 0 <= k < c.len() && c[k] == p;
                assert(c.push(l)[k] == p);
            }
        }
        if !c.contains(l) {
            assert(c.push(l)[c.len() as int] == l);
        }
        assert forall|p: Patch| around.contains(p) implies #[trigger] append_missing(
            cells,
            around,
        ).contains(p) by {
            let k = choose|k: int| 0 <= k < around.len() && around[k] == p;
            if k < around.len() - 1 {
                assert(around.drop_last()[k] == p);
                assert(c.contains(p));
            }
        }
    }
}

proof fn lemma_ring_walk_faces(
    t: MeshTopology,
    node: usize,
    rem: Seq<usize>,
    pairs: Seq<usize>,
    cells: Seq<Patch>,
    around: Seq<Patch>,
)
    requires
        pairs.len() > 0,
        ring_walk(t, node, rem, pairs, cells, around) is Some,
    ensures
        ring_walk(t, node, rem, pairs, cells, around).unwrap().0.to_multiset()
            == pairs.to_multiset().add(rem.to_multiset()),
        forall|p: Patch|
            around.contains(p) ==> #[trigger] ring_walk(
                t,
                node,
                rem,
                pairs,
                cells,
                around,
            ).unwrap().1.contains(p),
    decreases rem.len(),
{
    let last = pairs.last() as int;
    let current = side_patch(t.face_nodes@[last], t.face_neighbors@[last], node);
    let cells1 = cells.push(current);
    if rem.len() == 0 {
        vstd::seq_lib::to_multiset_len(rem);
        vstd::multiset::lemma_multiset_empty_len(rem.to_multiset());
        assert(rem.to_multiset() =~= Multiset::empty());
        lemma_append_missing_contains(cells1, around);
    } else {
        let i = match current {
            Patch::Cell(c) => {
                lemma_first_face_of_cell_range(rem, t.cell_faces@[c as int]@, 0);
                first_face_of_cell(rem, t.cell_faces@[c as int]@, 0).unwrap()
            },
            Patch::Boundary(_) => {
                lemma_first_boundary_face_range(rem, t.face_neighbors@, 0);
                first_boundary_face(rem, t.face_neighbors@, 0).unwrap()
            },
        };
        let next_cells = match current {
            Patch::Cell(_) => cells1,
            Patch::Boundary(_) => {
                let b = boundary_side(t.face_neighbors@[rem[i] as int]);
                if cells1.contains(b) {
                    cells1
                } else {
                    cells1.push(b)
                }
            },
        };
        assert(ring_walk(t, node, rem, pairs, cells, around) == ring_walk(
            t,
            node,
            swap_removed(rem, i),
            pairs.push(rem[i]),
            next_cells,
            around,
        ));
        lemma_ring_walk_faces(
            t,
            node,
            swap_removed(rem, i),
            pairs.push(rem[i]),
            next_cells,
            around,
        );
        lemma_swap_removed_multiset(rem, i);
        vstd::seq_lib::to_multiset_build(pairs, rem[i]);
        assert(pairs.push(rem[i]).to_multiset().add(swap_removed(rem, i).to_multiset())
            =~= pairs.to_multiset().add(rem.to_multiset()));
    }
}

/// The walk around a node visits each face of the node exactly as often as
/// the node is an end of it (so each ordinary face once), and meets every
/// patch beside the node.
pub proof fn lemma_node_ring_complete(t: MeshTopology, node: usize)
    requires
        node_ring_spec(t, node) is Some,
    ensures
        node_ring_spec(t, node).unwrap().0.to_multiset() == faces_at_node(
            t.face_nodes@,
            node,
        ).to_multiset(),
        forall|p: Patch|
            patches_beside(
                t.face_nodes@,
                t.face_neighbors@,
                faces_at_node(t.face_nodes@, node),
                node,
            ).contains(p) ==> #[trigger] node_ring_spec(t, node).unwrap().1.contains(p),
{
    let faces = faces_at_node(t.face_nodes@, node);
    let around = dedup(patches_beside(t.face_nodes@, t.face_neighbors@, faces, node));
    crate::topology::lemma_dedup(patches_beside(t.face_nodes@, t.face_neighbors@, faces, node));
    lemma_ring_walk_faces(
        t,
        node,
        swap_removed(faces, 0),
        seq![faces[0]],
        Seq::empty(),
        around,
    );
    lemma_swap_removed_multiset(faces, 0);
    vstd::seq_lib::to_multiset_build(Seq::<usize>::empty(), faces[0]);
    assert(seq![faces[0]] =~= Seq::<usize>::empty().push(faces[0]));
    vstd::seq_lib::to_multiset_len(Seq::<usize>::empty());
    vstd::multiset::lemma_multiset_empty_len(Seq::<usize>::empty().to_multiset());
    assert(Seq::<usize>::empty().to_multiset() =~= Multiset::empty());
    assert(seq![faces[0]].to_multiset().add(swap_removed(faces, 0).to_multiset())
        =~= faces.to_multiset());
}

/// `p` is on a side of one of `faces`.
pub open spec fn on_side_of(face_neighbors: Seq<[Patch; 2]>, faces: Seq<usize>, p: Patch) -> bool {
    exists|k: int|
        #![trigger faces[k]]
        0 <= k < faces.len() && (face_neighbors[faces[k] as int][0] == p
            || face_neighbors[faces[k] as int][1] == p)
}

proof fn lemma_append_missing_from(cells: Seq<Patch>, around: Seq<Patch>)
    ensures
        forall|p: Patch| #[trigger]
            append_missing(cells, around).contains(p) ==> cells.contains(p) || around.contains(p),
    decreases around.len(),
{
    if around.len() > 0 {
        lemma_append_missing_from(cells, around.drop_last());
        let c = append_missing(cells, around.drop_last());
        let l = around.last();
        assert forall|p: Patch| #[trigger]
            append_missing(cells, around).contains(p) implies cells.contains(p) || around.contains(
            p,
        ) by {
            if c.contains(p) {
                if around.drop_last().contains(p) {
                    let k = choose|k: int| 0 <= k < around.drop_last().len() && around.drop_last()[k] == p;
                    assert(around[k] == p);
                }
            } else {
                assert(!c.contains(l));
                let k = choose|k: int| 0 <= k < c.push(l).len() && c.push(l)[k] == p;
                if k < c.len() {
                    assert(c[k] == p);
                }
                assert(around[around.len() - 1] == l);
            }
        }
    }
}

proof fn lemma_on_side_of_face(face_neighbors: Seq<[Patch; 2]>, faces: Seq<usize>, f: usize, p: Patch)
    requires
        faces.contains(f),
        face_neighbors[f as int][0] == p || face_neighbors[f as int][1] == p,
    ensures
        on_side_of(face_neighbors, faces, p),
{
    let k = choose|k: int| 0 <= k < faces.len() && faces[k] == f;
    assert(faces[k] == f);
}

proof fn lemma_ring_walk_sides(
    t: MeshTopology,
    node: usize,
    rem: Seq<usize>,
    pairs: Seq<usize>,
    cells: Seq<Patch>,
    around: Seq<Patch>,
    faces: Seq<usize>,
)
    requires
        pairs.len() > 0,
        forall|j: int| 0 <= j < pairs.len() ==> faces.contains(#[trigger] pairs[j]),
        forall|j: int| 0 <= j < rem.len() ==> faces.contains(#[trigger] rem[j]),
        forall|p: Patch| #[trigger] cells.contains(p) ==> on_side_of(t.face_neighbors@, faces, p),
        forall|p: Patch| #[trigger] around.contains(p) ==> on_side_of(t.face_neighbors@, faces, p),
    ensures
        ring_walk(t, node, rem, pairs, cells, around) matches Some((ps, cs)) ==> forall|p: Patch|
            #[trigger] cs.contains(p) ==> on_side_of(t.face_neighbors@, faces, p),
    decreases rem.len(),
{
    let last = pairs.last() as int;
    let current = side_patch(t.face_nodes@[last], t.face_neighbors@[last], node);
    let cells1 = cells.push(current);
    assert(pairs[pairs.len() - 1] == pairs.last());
    lemma_on_side_of_face(t.face_neighbors@, faces, pairs.last(), current);
    assert forall|p: Patch| #[trigger] cells1.contains(p) implies on_side_of(
        t.face_neighbors@,
        faces,
        p,
    ) by {
        if p != current {
            let k = choose|k: int| 0 <= k < cells1.len() && cells1[k] == p;
            assert(cells1[cells.len() as int] == current);
            assert(k < cells.len());
            assert(cells[k] == p);
            assert(cells.contains(p));
        }
    }
    if rem.len() == 0 {
        lemma_append_missing_from(cells1, around);
    } else {
        let i = match current {
            Patch::Cell(c) => {
                lemma_first_face_of_cell_range(rem, t.cell_faces@[c as int]@, 0);
                first_face_of_cell(rem, t.cell_faces@[c as int]@, 0)
            },
            Patch::Boundary(_) => {
                lemma_first_boundary_face_range(rem, t.face_neighbors@, 0);
                first_boundary_face(rem, t.face_neighbors@, 0)
            },
        };
        if i is Some {
            let i = i.unwrap();
            let next_cells = match current {
                Patch::Cell(_) => cells1,
                Patch::Boundary(_) => {
                    let b = boundary_side(t.face_neighbors@[rem[i] as int]);
                    if cells1.contains(b) {
                        cells1
                    } else {
                        cells1.push(b)
                    }
                },
            };
            assert(faces.contains(rem[i]));
            if current is Boundary {
                let b = boundary_side(t.face_neighbors@[rem[i] as int]);
                lemma_on_side_of_face(t.face_neighbors@, faces, rem[i], b);
                assert forall|p: Patch| #[trigger] next_cells.contains(p) implies on_side_of(
                    t.face_neighbors@,
                    faces,
                    p,
                ) by {
                    if p != b {
                        let k = choose|k: int| 0 <= k < next_cells.len() && next_cells[k] == p;
                        if !cells1.contains(b) {
                            assert(next_cells[cells1.len() as int] == b);
                            assert(k < cells1.len());
                            assert(cells1[k] == p);
                        }
                        assert(cells1.contains(p));
                    }
                }
            }
            let np = pairs.push(rem[i]);
            assert forall|j: int| 0 <= j < np.len() implies faces.contains(#[trigger] np[j]) by {
                if j < pairs.len() {
                    assert(np[j] == pairs[j]);
                }
            }
            let nr = swap_removed(rem, i);
            assert forall|j: int| 0 <= j < nr.len() implies faces.contains(#[trigger] nr[j]) by {
                if j == i {
                    assert(nr[j] == rem[rem.len() - 1]);
                } else {
                    assert(nr[j] == rem[j]);
                }
            }
            assert(ring_walk(t, node, rem, pairs, cells, around) == ring_walk(
                t,
                node,
                nr,
                np,
                next_cells,
                around,
            ));
            lemma_ring_walk_sides(t, node, nr, np, next_cells, around, faces);
        }
    }
}

/// Every patch that the walk around a node meets is on a side of one of
/// the node's faces.
pub proof fn lemma_node_ring_sides(t: MeshTopology, node: usize)
    requires
        node_ring_spec(t, node) is Some,
    ensures
        forall|p: Patch|
            #[trigger] node_ring_spec(t, node).unwrap().1.contains(p) ==> on_side_of(
                t.face_neighbors@,
                faces_at_node(t.face_nodes@, node),
                p,
            ),
{
    let faces = faces_at_node(t.face_nodes@, node);
    let beside = patches_beside(t.face_nodes@, t.face_neighbors@, faces, node);
    let around = dedup(beside);
    crate::topology::lemma_dedup(beside);
    assert forall|p: Patch| #[trigger] around.contains(p) implies on_side_of(
        t.face_neighbors@,
        faces,
        p,
    ) by {
        let k = choose|k: int| 0 <= k < beside.len() && beside[k] == p;
        assert(faces.contains(faces[k]));
        lemma_on_side_of_face(t.face_neighbors@, faces, faces[k], p);
    }
    let rem = swap_removed(faces, 0);
    let pairs = seq![faces[0]];
    assert forall|j: int| 0 <= j < pairs.len() implies faces.contains(#[trigger] pairs[j]) by {
        assert(faces[0] == pairs[j]);
    }
    assert forall|j: int| 0 <= j < rem.len() implies faces.contains(#[trigger] rem[j]) by {
        if j == 0 {
            assert(rem[j] == faces[faces.len() - 1]);
        } else {
            assert(rem[j] == faces[j]);
        }
    }
    lemma_ring_walk_sides(t, node, rem, pairs, Seq::empty(), around, faces);
}

/// A node that an assembled mesh lists on boundary `b` is an end of a face
/// that has `b` on one of its sides.
pub proof fn lemma_boundary_nodes_on_boundary_faces(t: MeshTopology, b: usize, n: nat)
    requires
        forall|i: int| 0 <= i < n ==> #[trigger] node_ring_spec(t, i as usize) is Some,
    ensures
        forall|j: int|
            0 <= j < nodes_on_boundary(t, b, n).len() ==> on_side_of(
                t.face_neighbors@,
                faces_at_node(t.face_nodes@, #[trigger] nodes_on_boundary(t, b, n)[j]),
                Patch::Boundary(b),
            ),
    decreases n,
{
    if n > 0 {
        lemma_boundary_nodes_on_boundary_faces(t, b, (n - 1) as nat);
        let prev = nodes_on_boundary(t, b, (n - 1) as nat);
        let v = (n - 1) as usize;
        let all = nodes_on_boundary(t, b, n);
        if ring_cells(t, n - 1).contains(Patch::Boundary(b)) {
            assert(node_ring_spec(t, ((n - 1) as int) as usize) is Some);
            lemma_node_ring_sides(t, v);
            assert(all == prev + seq![v]);
            assert forall|j: int| 0 <= j < all.len() implies on_side_of(
                t.face_neighbors@,
                faces_at_node(t.face_nodes@, #[trigger] all[j]),
                Patch::Boundary(b),
            ) by {
                if j < prev.len() {
                    assert(all[j] == prev[j]);
                } else {
                    assert(all[j] == v);
                }
            }
        } else {
            assert(all =~= prev);
        }
    }
}

} // verus!
