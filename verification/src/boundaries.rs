use vstd::prelude::*;

verus! {

/// The boundary patches of an assembled mesh: for each patch its name, its
/// faces, its nodes, and the cells along it.
#[derive(Debug, Clone)]
pub struct Boundaries {
    pub n: usize,
    names: Vec<String>,
    faces: Vec<Vec<usize>>,
    nodes: Vec<Vec<usize>>,
    cells: Vec<Vec<usize>>,
}

impl Boundaries {
    /// There is one entry per patch in every list.
    pub closed spec fn wf(&self) -> bool {
        &&& self.n == self.names@.len()
        &&& self.n == self.faces@.len()
        &&& self.n == self.nodes@.len()
        &&& self.n == self.cells@.len()
    }

    pub closed spec fn spec_n(&self) -> usize {
        self.n
    }

    pub closed spec fn spec_names(&self) -> Seq<String> {
        self.names@
    }

    pub closed spec fn spec_faces(&self) -> Seq<Vec<usize>> {
        self.faces@
    }

    pub closed spec fn spec_nodes(&self) -> Seq<Vec<usize>> {
        self.nodes@
    }

    pub closed spec fn spec_cells(&self) -> Seq<Vec<usize>> {
        self.cells@
    }

    /// Groups the per-patch lists; all four must have one entry per patch.
    pub fn new(
        names: Vec<String>,
        faces: Vec<Vec<usize>>,
        nodes: Vec<Vec<usize>>,
        cells: Vec<Vec<usize>>,
    ) -> (b: Self)
        requires
            names@.len() == faces@.len(),
            names@.len() == nodes@.len(),
            names@.len() == cells@.len(),
        ensures
            b.wf(),
            b.spec_n() == names@.len(),
            b.spec_names() == names@,
            b.spec_faces() == faces@,
            b.spec_nodes() == nodes@,
            b.spec_cells() == cells@,
    {
        let n = names.len();
        Self { n, names, faces, nodes, cells }
    }

    /// The number of boundary patches.
    pub fn n(&self) -> (r: usize)
        ensures
            r == self.spec_n(),
    {
        self.n
    }

    pub fn names(&self) -> (r: &[String])
        ensures
            r@ == self.spec_names(),
    {
        self.names.as_slice()
    }

    pub fn faces(&self) -> (r: &[Vec<usize>])
        ensures
            r@ == self.spec_faces(),
    {
        self.faces.as_slice()
    }

    pub fn nodes(&self) -> (r: &[Vec<usize>])
        ensures
            r@ == self.spec_nodes(),
    {
        self.nodes.as_slice()
    }

    pub fn cells(&self) -> (r: &[Vec<usize>])
        ensures
            r@ == self.spec_cells(),
    {
        self.cells.as_slice()
    }
}

} // verus!
