use vstd::prelude::*;

verus! {

/// What lies on one side of a face: a mesh cell, or a boundary patch.
#[derive(Clone, Copy, Debug, PartialEq, Eq, Structural, Hash)]
pub enum Patch {
    Cell(usize),
    Boundary(usize),
}

/// The connectivity of a two-dimensional mesh, as a mesh core gives it:
/// the two end nodes of every face, the patches on both sides of every face,
/// the faces of every cell, the number of nodes and the boundary names.
/// (Node coordinates are geometry and live with the floating-point code.)
#[derive(Debug)]
pub struct MeshTopology {
    pub n_nodes: usize,
    pub boundary_names: Vec<String>,
    pub face_nodes: Vec<[usize; 2]>,
    pub face_neighbors: Vec<[Patch; 2]>,
    pub cell_faces: Vec<Vec<usize>>,
}

/// The other end of face nodes `nodes` seen from `node`.
pub open spec fn other_node(nodes: [usize; 2], node: usize) -> usize {
    if nodes[0] == node {
        nodes[1]
    } else {
        nodes[0]
    }
}

/// The patch on the other side of a face seen from `cell`.
pub open spec fn other_patch(neighbors: [Patch; 2], cell: usize) -> Patch {
    if neighbors[0] == Patch::Cell(cell) {
        neighbors[1]
    } else {
        neighbors[0]
    }
}

/// The patch that the face `f`, walked from its end `node`, has on its side:
/// the first neighbour when `node` is the first end, the second otherwise.
pub open spec fn side_patch(nodes: [usize; 2], neighbors: [Patch; 2], node: usize) -> Patch {
    if nodes[0] == node {
        neighbors[0]
    } else {
        neighbors[1]
    }
}

/// The faces among `face_nodes` that end at `node`, in increasing order, a
/// face listed once for each of its ends that is `node`.
pub open spec fn faces_at_node(face_nodes: Seq<[usize; 2]>, node: usize) -> Seq<usize>
    decreases face_nodes.len(),
{
    if face_nodes.len() == 0 {
        Seq::empty()
    } else {
        let f = (face_nodes.len() - 1) as usize;
        faces_at_node(face_nodes.drop_last(), node) + (if face_nodes.last()[0] == node {
            seq![f]
        } else {
            Seq::empty()
        }) + (if face_nodes.last()[1] == node {
            seq![f]
        } else {
            Seq::empty()
        })
    }
}

/// The end nodes of the listed faces, two per face, in order.
pub open spec fn end_nodes(face_nodes: Seq<[usize; 2]>, faces: Seq<usize>) -> Seq<usize>
    decreases faces.len(),
{
    if faces.len() == 0 {
        Seq::empty()
    } else {
        end_nodes(face_nodes, faces.drop_last()) + seq![
            face_nodes[faces.last() as int][0],
            face_nodes[faces.last() as int][1],
        ]
    }
}

/// The values of `s` without repetitions, each at its first occurrence.
pub open spec fn dedup<T>(s: Seq<T>) -> Seq<T>
    decreases s.len(),
{
    if s.len() == 0 {
        Seq::empty()
    } else {
        let d = dedup(s.drop_last());
        if d.contains(s.last()) {
            d
        } else {
            d.push(s.last())
        }
    }
}

/// `s` holds no value twice.
pub open spec fn no_duplicates<T>(s: Seq<T>) -> bool {
    forall|i: int, j: int| 0 <= i < j < s.len() ==> s[i] != s[j]
}

/// Removing repetitions keeps exactly the values of the sequence, each once.
pub proof fn lemma_dedup<T>(s: Seq<T>)
    ensures
        no_duplicates(dedup(s)),
        forall|x: T| #[trigger] dedup(s).contains(x) <==> s.contains(x),
    decreases s.len(),
{
    if s.len() > 0 {
        lemma_dedup(s.drop_last());
        let d = dedup(s.drop_last());
        let l = s.last();
        assert forall|x: T| #[trigger] dedup(s).contains(x) <==> s.contains(x) by {
            if d.contains(x) {
                let i = choose|i: int| 0 <= i < d.len() && d[i] == x;
                if !d.contains(l) {
                    assert(d.push(l)[i] == x);
                }
            }
            if !d.contains(l) {
                assert(d.push(l)[d.len() as int] == l);
            }
            if s.contains(x) {
                let i = choose|i: int| 0 <= i < s.len() && s[i] == x;
                if i < s.len() - 1 {
                    assert(s.drop_last()[i] == x);
                }
            }
            if s.drop_last().contains(x) {
                let i = choose|i: int| 0 <= i < s.drop_last().len() && s.drop_last()[i] == x;
                assert(s[i] == x);
            }
            if dedup(s).contains(x) && !d.contains(x) {
                let i = choose|i: int| 0 <= i < dedup(s).len() && dedup(s)[i] == x;
                assert(i == d.len());
                assert(s[s.len() - 1] == x);
            }
        }
    }
}

/// Every face listed at a node is a face that ends at that node.
pub proof fn lemma_faces_at_node(face_nodes: Seq<[usize; 2]>, node: usize)
    requires
        face_nodes.len() <= usize::MAX,
    ensures
        forall|k: int|
            0 <= k < faces_at_node(face_nodes, node).len() ==> {
                let f = #[trigger] faces_at_node(face_nodes, node)[k];
                &&& f < face_nodes.len()
                &&& face_nodes[f as int][0] == node || face_nodes[f as int][1] == node
            },
    decreases face_nodes.len(),
{
    if face_nodes.len() > 0 {
        lemma_faces_at_node(face_nodes.drop_last(), node);
        let a = faces_at_node(face_nodes.drop_last(), node);
        let r = faces_at_node(face_nodes, node);
        assert forall|k: int| 0 <= k < r.len() implies {
            let f = #[trigger] r[k];
            &&& f < face_nodes.len()
            &&& face_nodes[f as int][0] == node || face_nodes[f as int][1] == node
        } by {
            let fl = (face_nodes.len() - 1) as usize;
            let b = a + (if face_nodes.last()[0] == node {
                seq![fl]
            } else {
                Seq::empty()
            });
            assert(r == b + (if face_nodes.last()[1] == node {
                seq![fl]
            } else {
                Seq::empty()
            }));
            if k < a.len() {
                assert(r[k] == a[k]);
                assert(face_nodes.drop_last()[a[k] as int] == face_nodes[a[k] as int]);
            } else if k < b.len() {
                assert(r[k] == b[k]);
                assert(b[k] == fl);
                assert(face_nodes.last()[0] == node);
            } else {
                assert(r[k] == fl);
                assert(face_nodes.last()[1] == node);
            }
        }
    }
}

/// The neighbour nodes of `node` through the listed faces, in order.
pub open spec fn nodes_through(face_nodes: Seq<[usize; 2]>, faces: Seq<usize>, node: usize) -> Seq<
    usize,
> {
    faces.map_values(|f: usize| other_node(face_nodes[f as int], node))
}

/// The patches on the other side of the listed faces, seen from `cell`.
pub open spec fn patches_across(face_neighbors: Seq<[Patch; 2]>, faces: Seq<usize>, cell: usize) -> Seq<
    Patch,
> {
    faces.map_values(|f: usize| other_patch(face_neighbors[f as int], cell))
}

/// The patches on the side of `node` of each listed face.
pub open spec fn patches_beside(
    face_nodes: Seq<[usize; 2]>,
    face_neighbors: Seq<[Patch; 2]>,
    faces: Seq<usize>,
    node: usize,
) -> Seq<Patch> {
    faces.map_values(
        |f: usize| side_patch(face_nodes[f as int], face_neighbors[f as int], node),
    )
}

/// Whether `v` holds `x`.
pub(crate) fn contains_usize(v: &Vec<usize>, x: usize) -> (r: bool)
    ensures
        r == v@.contains(x),
{
    let mut i: usize = 0;
    while i < v.len()
        invariant
            0 <= i <= v@.len(),
            forall|j: int| 0 <= j < i ==> v@[j] != x,
        decreases v@.len() - i,
    {
        if v[i] == x {
            assert(v@[i as int] == x);
            return true;
        }
        i = i + 1;
    }
    false
}

/// Whether `v` holds `x`.
pub fn contains_patch(v: &Vec<Patch>, x: &Patch) -> (r: bool)
    ensures
        r == v@.contains(*x),
{
    let mut i: usize = 0;
    while i < v.len()
        invariant
            0 <= i <= v@.len(),
            forall|j: int| 0 <= j < i ==> v@[j] != *x,
        decreases v@.len() - i,
    {
        if v[i] == *x {
            assert(v@[i as int] == *x);
            return true;
        }
        i = i + 1;
    }
    false
}

proof fn lemma_dedup_push<T>(s: Seq<T>, x: T)
    ensures
        dedup(s.push(x)) == (if dedup(s).contains(x) {
            dedup(s)
        } else {
            dedup(s).push(x)
        }),
{
    assert(s.push(x).drop_last() =~= s);
}

impl MeshTopology {
    /// Every index in the connectivity is in range: face ends are nodes,
    /// face sides are cells or boundaries, cell faces are faces.
    pub open spec fn wf(&self) -> bool {
        &&& self.face_nodes@.len() == self.face_neighbors@.len()
        &&& forall|f: int, k: int|
            0 <= f < self.face_nodes@.len() && 0 <= k < 2 ==> #[trigger] self.face_nodes@[f][k]
                < self.n_nodes
        &&& forall|f: int, k: int|
            0 <= f < self.face_neighbors@.len() && 0 <= k < 2 ==> patch_in_range(
                #[trigger] self.face_neighbors@[f][k],
                self.cell_faces@.len(),
                self.boundary_names@.len(),
            )
        &&& forall|c: int, k: int|
            0 <= c < self.cell_faces@.len() && 0 <= k < self.cell_faces@[c]@.len()
                ==> #[trigger] self.cell_faces@[c]@[k] < self.face_nodes@.len()
    }

    /// Every face of `cell` is below `n`.
    pub open spec fn cell_faces_below(&self, cell: int, n: nat) -> bool {
        forall|k: int|
            0 <= k < self.cell_faces@[cell]@.len() ==> #[trigger] self.cell_faces@[cell]@[k] < n
    }

    /// Every face of `cell` has `cell` on one of its sides.
    pub open spec fn cell_consistent(&self, cell: int) -> bool {
        forall|k: int|
            0 <= k < self.cell_faces@[cell]@.len() ==> {
                let nb = self.face_neighbors@[#[trigger] self.cell_faces@[cell]@[k] as int];
                nb[0] == Patch::Cell(cell as usize) || nb[1] == Patch::Cell(cell as usize)
            }
    }

    pub fn n_nodes(&self) -> (n: usize)
        ensures
            n == self.n_nodes,
    {
        self.n_nodes
    }

    pub fn n_faces(&self) -> (n: usize)
        ensures
            n == self.face_nodes@.len(),
    {
        self.face_nodes.len()
    }

    pub fn n_cells(&self) -> (n: usize)
        ensures
            n == self.cell_faces@.len(),
    {
        self.cell_faces.len()
    }

    pub fn n_boundaries(&self) -> (n: usize)
        ensures
            n == self.boundary_names@.len(),
    {
        self.boundary_names.len()
    }

    pub fn face_to_nodes(&self, i_face: usize) -> (r: [usize; 2])
        requires
            i_face < self.face_nodes@.len(),
        ensures
            r == self.face_nodes@[i_face as int],
    {
        self.face_nodes[i_face]
    }

    pub fn face_to_neighbors(&self, i_face: usize) -> (r: [Patch; 2])
        requires
            i_face < self.face_neighbors@.len(),
        ensures
            r == self.face_neighbors@[i_face as int],
    {
        self.face_neighbors[i_face]
    }

    pub fn cell_to_faces(&self, i_cell: usize) -> (r: Vec<usize>)
        requires
            i_cell < self.cell_faces@.len(),
        ensures
            r@ == self.cell_faces@[i_cell as int]@,
    {
        self.cell_faces[i_cell].clone()
    }

    pub fn boundary(&self, i_bnd: usize) -> (r: String)
        requires
            i_bnd < self.boundary_names@.len(),
        ensures
            r@ == self.boundary_names@[i_bnd as int]@,
    {
        self.boundary_names[i_bnd].clone()
    }

    /// The faces that end at `i_node`, in increasing order (a face whose two
    /// ends are `i_node` is listed twice).
    pub fn node_to_faces(&self, i_node: usize) -> (r: Vec<usize>)
        ensures
            r@ == faces_at_node(self.face_nodes@, i_node),
    {
        let mut node_to_faces: Vec<usize> = Vec::new();
        let mut i_face: usize = 0;
        while i_face < self.face_nodes.len()
            invariant
                0 <= i_face <= self.face_nodes@.len(),
                node_to_faces@ == faces_at_node(self.face_nodes@.take(i_face as int), i_node),
            decreases self.face_nodes@.len() - i_face,
        {
            let face_to_nodes = self.face_nodes[i_face];
            proof {
                let t = self.face_nodes@.take(i_face as int + 1);
                assert(t.drop_last() =~= self.face_nodes@.take(i_face as int));
                assert(t.last() == face_to_nodes);
            }
            if face_to_nodes[0] == i_node {
                node_to_faces.push(i_face);
            }
            if face_to_nodes[1] == i_node {
                node_to_faces.push(i_face);
            }
            proof {
                let t = self.face_nodes@.take(i_face as int + 1);
                let a = faces_at_node(self.face_nodes@.take(i_face as int), i_node);
                assert(node_to_faces@ =~= faces_at_node(t, i_node));
            }
            i_face = i_face + 1;
        }
        assert(self.face_nodes@.take(i_face as int) =~= self.face_nodes@);
        node_to_faces
    }

    /// The nodes joined to `i_node` by a face, one per face that ends at
    /// `i_node`, in the order of `node_to_faces`.
    pub fn node_to_nodes(&self, i_node: usize) -> (r: Vec<usize>)
        ensures
            r@ == nodes_through(self.face_nodes@, faces_at_node(self.face_nodes@, i_node), i_node),
    {
        let faces = self.node_to_faces(i_node);
        let n_faces = self.face_nodes.len();
        proof {
            lemma_faces_at_node(self.face_nodes@, i_node);
        }
        let ghost target = nodes_through(self.face_nodes@, faces@, i_node);
        let mut node_to_nodes: Vec<usize> = Vec::new();
        let mut k: usize = 0;
        while k < faces.len()
            invariant
                0 <= k <= faces@.len(),
                faces@ == faces_at_node(self.face_nodes@, i_node),
                forall|j: int|
                    0 <= j < faces@.len() ==> {
                        let f = #[trigger] faces@[j];
                        &&& f < self.face_nodes@.len()
                        &&& self.face_nodes@[f as int][0] == i_node || self.face_nodes@[f as int][1]
                            == i_node
                    },
                target == nodes_through(self.face_nodes@, faces@, i_node),
                node_to_nodes@ == target.take(k as int),
            decreases faces@.len() - k,
        {
            let i_face = faces[k];
            assert(faces@[k as int] == i_face);
            let nodes = self.face_nodes[i_face];
            let adjoint = if nodes[0] == i_node {
                Some(nodes[1])
            } else if nodes[1] == i_node {
                Some(nodes[0])
            } else {
                None
            };
            match adjoint {
                None => {
                    return unreached();
                },
                Some(neighbor) => {
                    node_to_nodes.push(neighbor);
                },
            }
            assert(node_to_nodes@ =~= target.take(k as int + 1));
            k = k + 1;
        }
        assert(target.take(k as int) =~= target);
        node_to_nodes
    }

    /// The patches across the faces of `i_cell`, in the order of its faces.
    /// Every face of the cell must have the cell on one of its sides.
    pub fn cell_to_neighbors(&self, i_cell: usize) -> (r: Vec<Patch>)
        requires
            i_cell < self.cell_faces@.len(),
            self.cell_faces_below(i_cell as int, self.face_neighbors@.len()),
            self.cell_consistent(i_cell as int),
        ensures
            r@ == patches_across(self.face_neighbors@, self.cell_faces@[i_cell as int]@, i_cell),
    {
        let faces = self.cell_to_faces(i_cell);
        let ghost target = patches_across(self.face_neighbors@, faces@, i_cell);
        let mut cell_to_neighbors: Vec<Patch> = Vec::new();
        let mut k: usize = 0;
        while k < faces.len()
            invariant
                0 <= k <= faces@.len(),
                i_cell < self.cell_faces@.len(),
                self.cell_faces_below(i_cell as int, self.face_neighbors@.len()),
                self.cell_consistent(i_cell as int),
                faces@ == self.cell_faces@[i_cell as int]@,
                target == patches_across(self.face_neighbors@, faces@, i_cell),
                cell_to_neighbors@ == target.take(k as int),
            decreases faces@.len() - k,
        {
            let i_face = faces[k];
            assert(self.cell_faces@[i_cell as int]@[k as int] == i_face);
            let neighbors = self.face_neighbors[i_face];
            let adjoint = if Patch::Cell(i_cell) == neighbors[0] {
                Some(neighbors[1])
            } else if Patch::Cell(i_cell) == neighbors[1] {
                Some(neighbors[0])
            } else {
                None
            };
            match adjoint {
                None => {
                    return unreached();
                },
                Some(neighbor) => {
                    cell_to_neighbors.push(neighbor);
                },
            }
            assert(cell_to_neighbors@ =~= target.take(k as int + 1));
            k = k + 1;
        }
        assert(target.take(k as int) =~= target);
        cell_to_neighbors
    }

    /// The nodes of `i_cell`: the ends of its faces, in the order of its
    /// faces, each node once, at its first appearance.
    pub fn cell_to_nodes(&self, i_cell: usize) -> (r: Vec<usize>)
        requires
            i_cell < self.cell_faces@.len(),
            self.cell_faces_below(i_cell as int, self.face_nodes@.len()),
        ensures
            r@ == dedup(end_nodes(self.face_nodes@, self.cell_faces@[i_cell as int]@)),
    {
        let faces = self.cell_to_faces(i_cell);
        let mut cell_to_nodes: Vec<usize> = Vec::new();
        let mut k: usize = 0;
        while k < faces.len()
            invariant
                0 <= k <= faces@.len(),
                i_cell < self.cell_faces@.len(),
                self.cell_faces_below(i_cell as int, self.face_nodes@.len()),
                faces@ == self.cell_faces@[i_cell as int]@,
                cell_to_nodes@ == dedup(end_nodes(self.face_nodes@, faces@.take(k as int))),
            decreases faces@.len() - k,
        {
            let i_face = faces[k];
            assert(self.cell_faces@[i_cell as int]@[k as int] == i_face);
            let nodes = self.face_nodes[i_face];
            let ghost prefix = end_nodes(self.face_nodes@, faces@.take(k as int));
            proof {
                let t = faces@.take(k as int + 1);
                assert(t.drop_last() =~= faces@.take(k as int));
                assert(t.last() == i_face);
                assert(end_nodes(self.face_nodes@, t) =~= prefix.push(nodes[0]).push(nodes[1]));
                lemma_dedup_push(prefix, nodes[0]);
                lemma_dedup_push(prefix.push(nodes[0]), nodes[1]);
            }
            if !contains_usize(&cell_to_nodes, nodes[0]) {
                cell_to_nodes.push(nodes[0]);
            }
            if !contains_usize(&cell_to_nodes, nodes[1]) {
                cell_to_nodes.push(nodes[1]);
            }
            k = k + 1;
        }
        assert(faces@.take(k as int) =~= faces@);
        cell_to_nodes
    }

    /// The patches around `i_node`: for each face ending at `i_node`, the
    /// patch on the side of that end, each patch once. (The patches come in
    /// the order of their first appearance.)
    pub fn node_to_cells(&self, i_node: usize) -> (r: Vec<Patch>)
        requires
            self.face_nodes@.len() <= self.face_neighbors@.len(),
        ensures
            r@ == dedup(
                patches_beside(
                    self.face_nodes@,
                    self.face_neighbors@,
                    faces_at_node(self.face_nodes@, i_node),
                    i_node,
                ),
            ),
    {
        let faces = self.node_to_faces(i_node);
        let n_faces = self.face_nodes.len();
        proof {
            lemma_faces_at_node(self.face_nodes@, i_node);
        }
        let ghost all = patches_beside(self.face_nodes@, self.face_neighbors@, faces@, i_node);
        let mut cells: Vec<Patch> = Vec::new();
        let mut k: usize = 0;
        while k < faces.len()
            invariant
                0 <= k <= faces@.len(),
                self.face_nodes@.len() <= self.face_neighbors@.len(),
                faces@ == faces_at_node(self.face_nodes@, i_node),
                forall|j: int|
                    0 <= j < faces@.len() ==> #[trigger] faces@[j] < self.face_nodes@.len(),
                all == patches_beside(self.face_nodes@, self.face_neighbors@, faces@, i_node),
                cells@ == dedup(all.take(k as int)),
            decreases faces@.len() - k,
        {
            let i_face = faces[k];
            assert(faces@[k as int] == i_face);
            let patch = if self.face_nodes[i_face][0] == i_node {
                self.face_neighbors[i_face][0]
            } else {
                self.face_neighbors[i_face][1]
            };
            proof {
                assert(all[k as int] == patch);
                assert(all.take(k as int + 1) =~= all.take(k as int).push(patch));
                lemma_dedup_push(all.take(k as int), patch);
            }
            if !contains_patch(&cells, &patch) {
                cells.push(patch);
            }
            k = k + 1;
        }
        assert(all.take(k as int) =~= all);
        cells
    }
}

/// `p` names an existing cell or boundary.
pub open spec fn patch_in_range(p: Patch, n_cells: nat, n_boundaries: nat) -> bool {
    match p {
        Patch::Cell(c) => c < n_cells,
        Patch::Boundary(b) => b < n_boundaries,
    }
}


/// A face is listed at a node exactly when the node is one of its ends.
pub proof fn lemma_faces_at_node_contains(face_nodes: Seq<[usize; 2]>, node: usize, f: usize)
    requires
        face_nodes.len() <= usize::MAX,
    ensures
        faces_at_node(face_nodes, node).contains(f) <==> (f < face_nodes.len() && (
        face_nodes[f as int][0] == node || face_nodes[f as int][1] == node)),
    decreases face_nodes.len(),
{
    lemma_faces_at_node(face_nodes, node);
    if face_nodes.len() > 0 {
        lemma_faces_at_node_contains(face_nodes.drop_last(), node, f);
        let a = faces_at_node(face_nodes.drop_last(), node);
        let fl = (face_nodes.len() - 1) as usize;
        let m = a + (if face_nodes.last()[0] == node {
            seq![fl]
        } else {
            Seq::empty()
        });
        let r = faces_at_node(face_nodes, node);
        assert(r == m + (if face_nodes.last()[1] == node {
            seq![fl]
        } else {
            Seq::empty()
        }));
        if f < face_nodes.len() && (face_nodes[f as int][0] == node || face_nodes[f as int][1]
            == node) {
            if f < fl {
                assert(face_nodes.drop_last()[f as int] == face_nodes[f as int]);
                let k = choose|k: int| 0 <= k < a.len() && a[k] == f;
                assert(r[k] == f);
            } else {
                assert(f == fl);
                if face_nodes.last()[0] == node {
                    assert(r[a.len() as int] == f);
                } else {
                    assert(r[m.len() as int] == f);
                }
            }
        }
    }
}

/// Being joined by a face is symmetric: when `m` is a neighbour node of `n`,
/// `n` is a neighbour node of `m`.
pub proof fn lemma_node_neighbors_symmetric(face_nodes: Seq<[usize; 2]>, n: usize, m: usize)
    requires
        face_nodes.len() <= usize::MAX,
        nodes_through(face_nodes, faces_at_node(face_nodes, n), n).contains(m),
    ensures
        nodes_through(face_nodes, faces_at_node(face_nodes, m), m).contains(n),
{
    let fa = faces_at_node(face_nodes, n);
    let k = choose|k: int|
        0 <= k < fa.len() && nodes_through(face_nodes, fa, n)[k] == m;
    lemma_faces_at_node(face_nodes, n);
    let f = fa[k];
    assert(fa.contains(f));
    lemma_faces_at_node_contains(face_nodes, n, f);
    lemma_faces_at_node_contains(face_nodes, m, f);
    let fb = faces_at_node(face_nodes, m);
    let j = choose|j: int| 0 <= j < fb.len() && fb[j] == f;
    assert(nodes_through(face_nodes, fb, m)[j] == other_node(face_nodes[f as int], m));
}

} // verus!
