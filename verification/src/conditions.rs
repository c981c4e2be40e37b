use vstd::prelude::*;
use crate::layout::{strong_bc_rows, strong_rows};
use crate::operators::VectorBits;
use crate::terms::component_bits;
use crate::variables::{Component, ControlVolumeType};
use crate::reals::{real_eq, reals_equal};
use vstd::std_specs::cmp::PartialEqSpecImpl;

verus! {

/// The value a boundary condition imposes: a scalar or a two-dimensional
/// vector, each real carried as the IEEE-754 bits of its `f64`.
#[derive(Clone, Copy, Debug)]
pub enum BoundaryValue {
    Scalar(u64),
    Vector2(VectorBits),
}

/// A boundary condition of a field on one boundary: the normal gradient
/// (Neumann) or the value (Dirichlet) it imposes there.
#[derive(Clone, Copy, Debug, PartialEq)]
pub enum BoundaryCondition {
    Neumann(BoundaryValue),
    Dirichlet(BoundaryValue),
}

/// Two values are equal when they are both scalars or both vectors, with
/// components equal as `f64` values.
pub open spec fn boundary_value_eq(a: BoundaryValue, b: BoundaryValue) -> bool {
    match (a, b) {
        (BoundaryValue::Scalar(x), BoundaryValue::Scalar(y)) => real_eq(x, y),
        (BoundaryValue::Vector2(v), BoundaryValue::Vector2(w)) => real_eq(v.x, w.x) && real_eq(
            v.y,
            w.y,
        ),
        _ => false,
    }
}

impl PartialEq for BoundaryValue {
    fn eq(&self, other: &Self) -> (r: bool) {
        match (self, other) {
            (BoundaryValue::Scalar(x), BoundaryValue::Scalar(y)) => reals_equal(*x, *y),
            (BoundaryValue::Vector2(v), BoundaryValue::Vector2(w)) => reals_equal(v.x, w.x)
                && reals_equal(v.y, w.y),
            _ => false,
        }
    }
}

impl PartialEqSpecImpl for BoundaryValue {
    open spec fn obeys_eq_spec() -> bool {
        true
    }

    open spec fn eq_spec(&self, other: &Self) -> bool {
        boundary_value_eq(*self, *other)
    }
}

impl BoundaryValue {
    /// A scalar value has an `X` component only; a vector has both.
    pub open spec fn has_component(self, c: Component) -> bool {
        !(self is Scalar && c is Y)
    }

    /// The component `c` of the value; a scalar is its own `X` component.
    pub open spec fn spec_value(self, c: Component) -> u64 {
        match self {
            BoundaryValue::Scalar(v) => v,
            BoundaryValue::Vector2(v) => component_bits(v, c),
        }
    }

    /// Whether the value has a `component` component.
    pub fn has(&self, component: &Component) -> (r: bool)
        ensures
            r == self.has_component(*component),
    {
        match (self, component) {
            (BoundaryValue::Scalar(_), Component::Y) => false,
            _ => true,
        }
    }

    /// The `component` component of the value. A scalar value has no `Y`
    /// component: asking for it is an error of the caller.
    pub fn get_value(&self, component: &Component) -> (r: u64)
        requires
            self.has_component(*component),
        ensures
            r == self.spec_value(*component),
    {
        match self {
            BoundaryValue::Scalar(value) => *value,
            BoundaryValue::Vector2(value) => match component {
                Component::X => value.x,
                Component::Y => value.y,
            },
        }
    }
}

impl BoundaryCondition {
    pub open spec fn spec_value(self) -> BoundaryValue {
        match self {
            BoundaryCondition::Neumann(v) => v,
            BoundaryCondition::Dirichlet(v) => v,
        }
    }

    /// Whether the condition imposes the value itself.
    pub fn is_dirichlet(&self) -> (r: bool)
        ensures
            r == self is Dirichlet,
    {
        match self {
            BoundaryCondition::Dirichlet(_) => true,
            BoundaryCondition::Neumann(_) => false,
        }
    }

    /// The value the condition imposes.
    pub fn value(&self) -> (r: &BoundaryValue)
        ensures
            *r == self.spec_value(),
    {
        match self {
            BoundaryCondition::Neumann(v) => v,
            BoundaryCondition::Dirichlet(v) => v,
        }
    }
}

/// Which of the conditions are Dirichlet ones.
pub open spec fn dirichlet_flags(bcs: Seq<BoundaryCondition>) -> Seq<bool> {
    bcs.map_values(|b: BoundaryCondition| b is Dirichlet)
}

/// Every Dirichlet condition among `bcs` has a `c` component.
pub open spec fn dirichlet_values_have(bcs: Seq<BoundaryCondition>, c: Component) -> bool {
    forall|b: int|
        0 <= b < bcs.len() && (#[trigger] bcs[b]) is Dirichlet ==> bcs[b].spec_value().has_component(c)
}

/// The rows that strong conditions overwrite for the component `c` of an
/// unknown on `cvt`, each with the value it takes: for node unknowns, the
/// nodes of each Dirichlet boundary in turn with the `c` component of its
/// value; none for cell unknowns.
pub open spec fn strong_values(
    cvt: ControlVolumeType,
    bnd_nodes: Seq<Seq<usize>>,
    bcs: Seq<BoundaryCondition>,
    c: Component,
) -> Seq<(usize, u64)> {
    match cvt {
        ControlVolumeType::Cells => Seq::empty(),
        ControlVolumeType::Nodes => strong_rows(bnd_nodes, dirichlet_flags(bcs), bcs.len() as int).map_values(
            |row: (usize, usize)| (row.0, bcs[row.1 as int].spec_value().spec_value(c)),
        ),
    }
}

/// Every row of the first `n` boundaries belongs to a Dirichlet boundary
/// among them.
proof fn lemma_strong_rows_dirichlet(bnd_nodes: Seq<Seq<usize>>, dirichlet: Seq<bool>, n: int)
    requires
        n <= dirichlet.len(),
        n <= bnd_nodes.len(),
        n <= usize::MAX,
    ensures
        forall|k: int|
            0 <= k < strong_rows(bnd_nodes, dirichlet, n).len() ==> {
                let b = (#[trigger] strong_rows(bnd_nodes, dirichlet, n)[k]).1 as int;
                0 <= b < n && dirichlet[b]
            },
    decreases n,
{
    if n > 0 {
        lemma_strong_rows_dirichlet(bnd_nodes, dirichlet, n - 1);
        let prev = strong_rows(bnd_nodes, dirichlet, n - 1);
        let tail = if dirichlet[n - 1] {
            bnd_nodes[n - 1].map_values(|cv: usize| (cv, (n - 1) as usize))
        } else {
            Seq::empty()
        };
        assert(strong_rows(bnd_nodes, dirichlet, n) == prev + tail);
        assert forall|k: int| 0 <= k < (prev + tail).len() implies {
            let b = (#[trigger] (prev + tail)[k]).1 as int;
            0 <= b < n && dirichlet[b]
        } by {
            if k >= prev.len() {
                assert((prev + tail)[k] == tail[k - prev.len()]);
                assert(dirichlet[n - 1]);
                assert(tail[k - prev.len()].1 == (n - 1) as usize);
            } else {
                assert((prev + tail)[k] == prev[k]);
            }
        }
    }
}

/// The rows that strong (Dirichlet) conditions overwrite for `component` of
/// an unknown on `cvt` control volumes, each with the value (bits) that the
/// row takes, in the order they are written.
pub fn strong_bc_values(
    cvt: ControlVolumeType,
    bnd_nodes: &[Vec<usize>],
    bcs: &Vec<BoundaryCondition>,
    component: &Component,
) -> (r: Vec<(usize, u64)>)
    requires
        bcs@.len() <= bnd_nodes@.len(),
        cvt is Nodes ==> dirichlet_values_have(bcs@, *component),
    ensures
        r@ == strong_values(cvt, bnd_nodes@.map_values(|v: Vec<usize>| v@), bcs@, *component),
{
    let mut dirichlet: Vec<bool> = Vec::new();
    let mut b: usize = 0;
    while b < bcs.len()
        invariant
            0 <= b <= bcs@.len(),
            dirichlet@ == dirichlet_flags(bcs@).take(b as int),
        decreases bcs@.len() - b,
    {
        dirichlet.push(bcs[b].is_dirichlet());
        proof {
            assert(dirichlet_flags(bcs@).take(b as int + 1) =~= dirichlet_flags(bcs@).take(
                b as int,
            ).push(bcs@[b as int] is Dirichlet));
        }
        b = b + 1;
    }
    assert(dirichlet_flags(bcs@).take(b as int) =~= dirichlet_flags(bcs@));
    let rows = strong_bc_rows(cvt, bnd_nodes, &dirichlet);
    let ghost nb = bnd_nodes@.map_values(|v: Vec<usize>| v@);
    let ghost spec_rows = match cvt {
        ControlVolumeType::Cells => Seq::<(usize, usize)>::empty(),
        ControlVolumeType::Nodes => strong_rows(nb, dirichlet@, dirichlet@.len() as int),
    };
    proof {
        if cvt is Cells {
            assert(rows@ =~= spec_rows);
        }
        lemma_strong_rows_dirichlet(nb, dirichlet@, dirichlet@.len() as int);
    }
    let mut out: Vec<(usize, u64)> = Vec::new();
    let mut k: usize = 0;
    while k < rows.len()
        invariant
            0 <= k <= rows@.len(),
            rows@ == spec_rows,
            dirichlet@ == dirichlet_flags(bcs@),
            spec_rows == (match cvt {
                ControlVolumeType::Cells => Seq::<(usize, usize)>::empty(),
                ControlVolumeType::Nodes => strong_rows(nb, dirichlet@, dirichlet@.len() as int),
            }),
            cvt is Nodes ==> dirichlet_values_have(bcs@, *component),
            forall|j: int|
                0 <= j < strong_rows(nb, dirichlet@, dirichlet@.len() as int).len() ==> {
                    let b = (#[trigger] strong_rows(nb, dirichlet@, dirichlet@.len() as int)[j]).1 as int;
                    0 <= b < dirichlet@.len() && dirichlet@[b]
                },
            out@ == spec_rows.take(k as int).map_values(
                |row: (usize, usize)| (row.0, bcs@[row.1 as int].spec_value().spec_value(*component)),
            ),
        decreases rows@.len() - k,
    {
        let (cv, i_bnd) = rows[k];
        assert(cvt is Nodes);
        assert(spec_rows[k as int] == (cv, i_bnd));
        let bc = &bcs[i_bnd];
        assert(bcs@[i_bnd as int] is Dirichlet);
        let value = bc.value().get_value(component);
        out.push((cv, value));
        proof {
            assert(spec_rows.take(k as int + 1) =~= spec_rows.take(k as int).push(spec_rows[k as int]));
            assert(out@ =~= spec_rows.take(k as int + 1).map_values(
                |row: (usize, usize)| (row.0, bcs@[row.1 as int].spec_value().spec_value(*component)),
            ));
        }
        k = k + 1;
    }
    assert(spec_rows.take(k as int) =~= spec_rows);
    assert(out@ =~= strong_values(cvt, nb, bcs@, *component));
    out
}

} // verus!
