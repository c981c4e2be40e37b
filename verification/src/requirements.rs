use vstd::prelude::*;

verus! {

/// Which gradients of a field a discretisation needs: at the control-volume
/// centres (`cell`) and/or at the faces (`face`).
#[derive(Clone, Copy, Debug, PartialEq, Eq, Structural)]
pub struct GradRequirements {
    pub cell: bool,
    pub face: bool,
}

/// The requirement that asks for both gradients whenever either of the two
/// given requirements asks for it.
pub open spec fn join(a: GradRequirements, b: GradRequirements) -> GradRequirements {
    GradRequirements::spec_new(a.spec_cell() || b.spec_cell(), a.spec_face() || b.spec_face())
}

/// `a` asks for no gradient that `b` does not ask for.
pub open spec fn weaker(a: GradRequirements, b: GradRequirements) -> bool {
    (a.spec_cell() ==> b.spec_cell()) && (a.spec_face() ==> b.spec_face())
}

impl GradRequirements {
    pub open spec fn spec_new(cell: bool, face: bool) -> GradRequirements {
        GradRequirements { cell, face }
    }

    pub open spec fn spec_cell(self) -> bool {
        self.cell
    }

    pub open spec fn spec_face(self) -> bool {
        self.face
    }

    pub fn new(cell: bool, face: bool) -> (r: Self)
        ensures
            r == Self::spec_new(cell, face),
    {
        Self { cell, face }
    }

    pub fn cell(&self) -> (b: bool)
        ensures
            b == self.spec_cell(),
    {
        self.cell
    }

    pub fn face(&self) -> (b: bool)
        ensures
            b == self.spec_face(),
    {
        self.face
    }

    /// Keeps the most restrictive requirement: a gradient is required after
    /// the update when either side required it.
    pub fn update_requirements(&mut self, other: &Self)
        ensures
            *final(self) == join(*old(self), *other),
    {
        self.cell = self.cell || other.cell;
        self.face = self.face || other.face;
    }
}

/// Merging requirements does not depend on the order of the two sides.
pub proof fn lemma_join_commutative(a: GradRequirements, b: GradRequirements)
    ensures
        join(a, b) == join(b, a),
{
}

/// Merging three requirements does not depend on how they are grouped.
pub proof fn lemma_join_associative(a: GradRequirements, b: GradRequirements, c: GradRequirements)
    ensures
        join(join(a, b), c) == join(a, join(b, c)),
{
}

/// Merging a requirement with itself changes nothing.
pub proof fn lemma_join_idempotent(a: GradRequirements)
    ensures
        join(a, a) == a,
{
}

/// Merging never drops a requirement: the result asks for at least what
/// each side asked for, and it is the least such requirement.
pub proof fn lemma_join_least_upper_bound(a: GradRequirements, b: GradRequirements, c: GradRequirements)
    ensures
        weaker(a, join(a, b)),
        weaker(b, join(a, b)),
        weaker(a, c) && weaker(b, c) ==> weaker(join(a, b), c),
{
}

/// The requirement that asks for nothing is neutral for merging.
pub proof fn lemma_join_none(a: GradRequirements)
    ensures
        join(GradRequirements::spec_new(false, false), a) == a,
{
}

} // verus!
