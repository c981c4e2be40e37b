use vstd::prelude::*;

verus! {

/// Number of components carried by a variable.
#[derive(Clone, Copy, Debug, PartialEq, Eq, Structural, Hash)]
pub enum Dimension {
    Scalar,
    Vector2,
}

/// One component of a two-dimensional vector variable.
#[derive(Clone, Copy, Debug, PartialEq, Eq, Structural, Hash)]
pub enum Component {
    X,
    Y,
}

/// Where the unknowns of a variable live: on the dual control volumes
/// around mesh nodes, or on the mesh cells.
#[derive(Clone, Copy, Debug, PartialEq, Eq, Structural, Hash)]
pub enum ControlVolumeType {
    Nodes,
    Cells,
}

/// The control-volume type under its shorter name.
pub type ControlVolume = ControlVolumeType;

/// Whether a term of an equation is treated implicitly (it goes into the
/// matrix) or explicitly (it goes into the right-hand side).
#[derive(Clone, Copy, Debug, PartialEq, Eq, Structural, Hash)]
pub enum IntegrationCategory {
    Implicit,
    Explicit,
}

/// What identifies a variable in specifications: its name as characters,
/// its dimension and its control-volume type.
pub type VariableView = (Seq<char>, Dimension, ControlVolumeType);

/// A named field variable of a case.
#[derive(Debug, Hash)]
pub struct Variable {
    name: String,
    dim: Dimension,
    cvt: ControlVolumeType,
}

impl View for Variable {
    type V = VariableView;

    closed spec fn view(&self) -> VariableView {
        (self.name@, self.dim, self.cvt)
    }
}

impl Variable {
    pub fn new(name: String, dim: Dimension, cvt: ControlVolumeType) -> (v: Self)
        ensures
            v@ == (name@, dim, cvt),
    {
        Variable { name, dim, cvt }
    }

    pub fn name(&self) -> (s: &str)
        ensures
            s@ == self@.0,
    {
        self.name.as_str()
    }

    pub fn dim(&self) -> (d: &Dimension)
        ensures
            *d == self@.1,
    {
        &self.dim
    }

    pub fn cvt(&self) -> (c: &ControlVolumeType)
        ensures
            *c == self@.2,
    {
        &self.cvt
    }

    /// The control volumes of the variable, under their shorter name.
    pub fn cv(&self) -> (c: &ControlVolume)
        ensures
            *c == self@.2,
    {
        &self.cvt
    }
}

impl Clone for Variable {
    fn clone(&self) -> (v: Self)
        ensures
            v == *self,
    {
        Variable { name: self.name.clone(), dim: self.dim, cvt: self.cvt }
    }
}

impl PartialEq for Variable {
    fn eq(&self, other: &Self) -> (r: bool) {
        self.name == other.name && self.dim == other.dim && self.cvt == other.cvt
    }
}

impl vstd::std_specs::cmp::PartialEqSpecImpl for Variable {
    open spec fn obeys_eq_spec() -> bool {
        true
    }

    open spec fn eq_spec(&self, other: &Self) -> bool {
        self@ == other@
    }
}

impl Eq for Variable {
}

} // verus!
