use vstd::prelude::*;
use crate::operators::{FieldOperator, Op, VectorBits};
use crate::variables::Component;

verus! {

/// One step of the coefficient of a term, as met on the way from the root
/// of the operator tree down to the term: a change of sign, or a product or
/// quotient by a real given as the IEEE-754 bits of an `f64`.
#[derive(Clone, Copy, Debug, PartialEq, Eq, Structural)]
pub enum Factor {
    Negate,
    Multiply(u64),
    Divide(u64),
}

/// What a term adds to the system of one component of an equation: a field
/// operator, or a constant source (the bits of an `f64`).
#[derive(Debug, PartialEq)]
pub enum TermKind {
    Operator(FieldOperator),
    Source(u64),
}

/// A term of one component of an equation: the factors of its coefficient,
/// root first, and what it adds.
#[derive(Debug, PartialEq)]
pub struct LinearTerm {
    pub factors: Vec<Factor>,
    pub kind: TermKind,
}

/// The component `c` of a vector coefficient.
pub open spec fn component_bits(v: VectorBits, c: Component) -> u64 {
    match c {
        Component::X => v.x,
        Component::Y => v.y,
    }
}

/// A term as its factors and what it adds.
pub open spec fn term_view(t: LinearTerm) -> (Seq<Factor>, TermKind) {
    (t.factors@, t.kind)
}

/// The terms of `op` for the component `c`, left to right, each with the
/// factors met from the root: a difference negates its right side, a scalar
/// product or quotient and a vector product (by the component `c` of the
/// vector) scale their operand; `prefix` holds the factors met above `op`.
pub open spec fn op_terms(op: Op, c: Component, prefix: Seq<Factor>) -> Seq<
    (Seq<Factor>, TermKind),
>
    decreases op,
{
    match op {
        Op::Add(pair) => op_terms(pair.0, c, prefix) + op_terms(pair.1, c, prefix),
        Op::Sub(pair) => op_terms(pair.0, c, prefix) + op_terms(
            pair.1,
            c,
            prefix.push(Factor::Negate),
        ),
        Op::MulScalar(s, inner) => op_terms(*inner, c, prefix.push(Factor::Multiply(s))),
        Op::DivScalar(s, inner) => op_terms(*inner, c, prefix.push(Factor::Divide(s))),
        Op::MulVector(v, inner) => op_terms(
            *inner,
            c,
            prefix.push(Factor::Multiply(component_bits(v, c))),
        ),
        Op::FieldOperator(f) => seq![(prefix, TermKind::Operator(f))],
        Op::Scalar(s) => seq![(prefix, TermKind::Source(s))],
        Op::Vector2(v) => seq![(prefix, TermKind::Source(component_bits(v, c)))],
    }
}

/// The field operators among `terms`, in order.
pub open spec fn term_operators(terms: Seq<(Seq<Factor>, TermKind)>) -> Seq<FieldOperator>
    decreases terms.len(),
{
    if terms.len() == 0 {
        Seq::empty()
    } else {
        term_operators(terms.drop_last()) + match terms.last().1 {
            TermKind::Operator(f) => seq![f],
            TermKind::Source(_) => Seq::empty(),
        }
    }
}

/// `terms` with `prefix` put before the factors of each.
pub open spec fn prefixed(terms: Seq<(Seq<Factor>, TermKind)>, prefix: Seq<Factor>) -> Seq<
    (Seq<Factor>, TermKind),
> {
    terms.map_values(|t: (Seq<Factor>, TermKind)| (prefix + t.0, t.1))
}

fn copy_factors(v: &Vec<Factor>) -> (r: Vec<Factor>)
    ensures
        r@ == v@,
{
    let mut out: Vec<Factor> = Vec::new();
    let mut i: usize = 0;
    while i < v.len()
        invariant
            0 <= i <= v@.len(),
            out@ == v@.take(i as int),
        decreases v@.len() - i,
    {
        out.push(v[i]);
        proof {
            assert(v@.take(i as int + 1) =~= v@.take(i as int).push(v@[i as int]));
        }
        i = i + 1;
    }
    assert(v@.take(i as int) =~= v@);
    out
}

fn with_factor(prefix: &Vec<Factor>, f: Factor) -> (r: Vec<Factor>)
    ensures
        r@ == prefix@.push(f),
{
    let mut p = copy_factors(prefix);
    p.push(f);
    p
}

fn vector_component(v: VectorBits, c: Component) -> (r: u64)
    ensures
        r == component_bits(v, c),
{
    match c {
        Component::X => v.x,
        Component::Y => v.y,
    }
}

impl Op {
    /// Appends to `out` the terms of the tree for `component`, left to
    /// right, each with `prefix` before its own factors.
    fn collect_terms(&self, component: Component, prefix: &Vec<Factor>, out: &mut Vec<LinearTerm>)
        ensures
            final(out)@.map_values(|t: LinearTerm| term_view(t)) == old(out)@.map_values(
                |t: LinearTerm| term_view(t),
            ) + op_terms(*self, component, prefix@),
        decreases self,
    {
        let ghost before = out@.map_values(|t: LinearTerm| term_view(t));
        match self {
            Op::Add(pair) => {
                pair.0.collect_terms(component, prefix, out);
                pair.1.collect_terms(component, prefix, out);
            },
            Op::Sub(pair) => {
                pair.0.collect_terms(component, prefix, out);
                let p = with_factor(prefix, Factor::Negate);
                pair.1.collect_terms(component, &p, out);
            },
            Op::MulScalar(s, inner) => {
                let p = with_factor(prefix, Factor::Multiply(*s));
                inner.collect_terms(component, &p, out);
            },
            Op::DivScalar(s, inner) => {
                let p = with_factor(prefix, Factor::Divide(*s));
                inner.collect_terms(component, &p, out);
            },
            Op::MulVector(v, inner) => {
                let p = with_factor(prefix, Factor::Multiply(vector_component(*v, component)));
                inner.collect_terms(component, &p, out);
            },
            Op::FieldOperator(f_op) => {
                out.push(LinearTerm { factors: copy_factors(prefix), kind: TermKind::Operator(f_op.clone()) });
            },
            Op::Scalar(s) => {
                out.push(LinearTerm { factors: copy_factors(prefix), kind: TermKind::Source(*s) });
            },
            Op::Vector2(v) => {
                out.push(
                    LinearTerm {
                        factors: copy_factors(prefix),
                        kind: TermKind::Source(vector_component(*v, component)),
                    },
                );
            },
        }
        assert(out@.map_values(|t: LinearTerm| term_view(t)) =~= before + op_terms(
            *self,
            component,
            prefix@,
        ));
    }

    /// The terms that the tree adds to the system of `component`, left to
    /// right. The coefficient of a term is 1 with its factors applied in
    /// order: a negation, then products and quotients, as met from the root.
    pub fn linear_terms(&self, component: Component) -> (r: Vec<LinearTerm>)
        ensures
            r@.map_values(|t: LinearTerm| term_view(t)) == op_terms(*self, component, Seq::empty()),
    {
        let mut out: Vec<LinearTerm> = Vec::new();
        let prefix: Vec<Factor> = Vec::new();
        self.collect_terms(component, &prefix, &mut out);
        assert(out@.map_values(|t: LinearTerm| term_view(t)) =~= op_terms(
            *self,
            component,
            Seq::empty(),
        ));
        out
    }
}

proof fn lemma_term_operators_concat(a: Seq<(Seq<Factor>, TermKind)>, b: Seq<(Seq<Factor>, TermKind)>)
    ensures
        term_operators(a + b) == term_operators(a) + term_operators(b),
    decreases b.len(),
{
    if b.len() == 0 {
        assert(a + b =~= a);
        assert(term_operators(b) =~= Seq::<FieldOperator>::empty());
        assert(term_operators(a) + term_operators(b) =~= term_operators(a));
    } else {
        assert((a + b).drop_last() =~= a + b.drop_last());
        assert((a + b).last() == b.last());
        lemma_term_operators_concat(a, b.drop_last());
        let tail = match b.last().1 {
            TermKind::Operator(f) => seq![f],
            TermKind::Source(_) => Seq::<FieldOperator>::empty(),
        };
        assert(term_operators(a) + term_operators(b.drop_last()) + tail =~= term_operators(a) + (
        term_operators(b.drop_last()) + tail));
    }
}

proof fn lemma_prefixed_concat(
    a: Seq<(Seq<Factor>, TermKind)>,
    b: Seq<(Seq<Factor>, TermKind)>,
    prefix: Seq<Factor>,
)
    ensures
        prefixed(a + b, prefix) == prefixed(a, prefix) + prefixed(b, prefix),
{
    assert(prefixed(a + b, prefix) =~= prefixed(a, prefix) + prefixed(b, prefix));
}

proof fn lemma_prefixed_prefixed(
    terms: Seq<(Seq<Factor>, TermKind)>,
    p: Seq<Factor>,
    q: Seq<Factor>,
)
    ensures
        prefixed(prefixed(terms, q), p) == prefixed(terms, p + q),
{
    assert forall|i: int| 0 <= i < terms.len() implies #[trigger] prefixed(
        prefixed(terms, q),
        p,
    )[i] == prefixed(terms, p + q)[i] by {
        assert(p + (q + terms[i].0) =~= (p + q) + terms[i].0);
    }
    assert(prefixed(prefixed(terms, q), p) =~= prefixed(terms, p + q));
}

/// The coefficient of a term is made of the factors met above the tree and
/// then those met inside it: the terms of `op` under `prefix` are its terms
/// under no factor, each with `prefix` put first.
pub proof fn lemma_op_terms_prefixed(op: Op, c: Component, prefix: Seq<Factor>)
    ensures
        op_terms(op, c, prefix) == prefixed(op_terms(op, c, Seq::empty()), prefix),
    decreases op,
{
    let e = Seq::<Factor>::empty();
    match op {
        Op::Add(pair) => {
            lemma_op_terms_prefixed(pair.0, c, prefix);
            lemma_op_terms_prefixed(pair.1, c, prefix);
            lemma_prefixed_concat(op_terms(pair.0, c, e), op_terms(pair.1, c, e), prefix);
        },
        Op::Sub(pair) => {
            let n = seq![Factor::Negate];
            lemma_op_terms_prefixed(pair.0, c, prefix);
            lemma_op_terms_prefixed(pair.1, c, prefix.push(Factor::Negate));
            lemma_op_terms_prefixed(pair.1, c, e.push(Factor::Negate));
            assert(e.push(Factor::Negate) =~= n);
            lemma_prefixed_prefixed(op_terms(pair.1, c, e), prefix, n);
            assert(prefix + n =~= prefix.push(Factor::Negate));
            lemma_prefixed_concat(op_terms(pair.0, c, e), op_terms(pair.1, c, n), prefix);
        },
        Op::MulScalar(s, inner) => {
            let f = Factor::Multiply(s);
            lemma_op_terms_prefixed(*inner, c, prefix.push(f));
            lemma_op_terms_prefixed(*inner, c, e.push(f));
            lemma_prefixed_prefixed(op_terms(*inner, c, e), prefix, e.push(f));
            assert(prefix + e.push(f) =~= prefix.push(f));
        },
        Op::DivScalar(s, inner) => {
            let f = Factor::Divide(s);
            lemma_op_terms_prefixed(*inner, c, prefix.push(f));
            lemma_op_terms_prefixed(*inner, c, e.push(f));
            lemma_prefixed_prefixed(op_terms(*inner, c, e), prefix, e.push(f));
            assert(prefix + e.push(f) =~= prefix.push(f));
        },
        Op::MulVector(v, inner) => {
            let f = Factor::Multiply(component_bits(v, c));
            lemma_op_terms_prefixed(*inner, c, prefix.push(f));
            lemma_op_terms_prefixed(*inner, c, e.push(f));
            lemma_prefixed_prefixed(op_terms(*inner, c, e), prefix, e.push(f));
            assert(prefix + e.push(f) =~= prefix.push(f));
        },
        _ => {
            assert(prefix + e =~= prefix);
            assert(op_terms(op, c, prefix) =~= prefixed(op_terms(op, c, e), prefix));
        },
    }
}

/// The operators that the terms of a tree discretise are exactly its
/// field-reading leaves, in order, whatever the component and the factors
/// above it: the terms that an equation's unknown and gradient requirements
/// were read from are the terms that go into its system.
pub proof fn lemma_term_operators(op: Op, c: Component, prefix: Seq<Factor>)
    ensures
        term_operators(op_terms(op, c, prefix)) == op.field_operators(),
    decreases op,
{
    match op {
        Op::Add(pair) => {
            lemma_term_operators(pair.0, c, prefix);
            lemma_term_operators(pair.1, c, prefix);
            lemma_term_operators_concat(op_terms(pair.0, c, prefix), op_terms(pair.1, c, prefix));
        },
        Op::Sub(pair) => {
            lemma_term_operators(pair.0, c, prefix);
            lemma_term_operators(pair.1, c, prefix.push(Factor::Negate));
            lemma_term_operators_concat(
                op_terms(pair.0, c, prefix),
                op_terms(pair.1, c, prefix.push(Factor::Negate)),
            );
        },
        Op::MulScalar(s, inner) => {
            lemma_term_operators(*inner, c, prefix.push(Factor::Multiply(s)));
        },
        Op::DivScalar(s, inner) => {
            lemma_term_operators(*inner, c, prefix.push(Factor::Divide(s)));
        },
        Op::MulVector(v, inner) => {
            lemma_term_operators(*inner, c, prefix.push(Factor::Multiply(component_bits(v, c))));
        },
        _ => {
            let t = op_terms(op, c, prefix);
            assert(t.len() == 1);
            assert(t.drop_last().len() == 0);
            assert(term_operators(t.drop_last()) =~= Seq::<FieldOperator>::empty());
            assert(term_operators(t) =~= op.field_operators());
        },
    }
}

/// The tree has no vector coefficient and no vector source.
pub open spec fn scalar_only(op: Op) -> bool
    decreases op,
{
    match op {
        Op::Add(pair) => scalar_only(pair.0) && scalar_only(pair.1),
        Op::Sub(pair) => scalar_only(pair.0) && scalar_only(pair.1),
        Op::MulScalar(_, inner) => scalar_only(*inner),
        Op::DivScalar(_, inner) => scalar_only(*inner),
        Op::MulVector(_, _) => false,
        Op::FieldOperator(_) => true,
        Op::Scalar(_) => true,
        Op::Vector2(_) => false,
    }
}

/// The component enters the terms only through vector coefficients and
/// vector sources: a tree without them gives the same terms for both
/// components, so a scalar source `s` is the source `s` of every component.
pub proof fn lemma_scalar_terms_same_for_components(op: Op, prefix: Seq<Factor>)
    requires
        scalar_only(op),
    ensures
        op_terms(op, Component::X, prefix) == op_terms(op, Component::Y, prefix),
    decreases op,
{
    match op {
        Op::Add(pair) => {
            lemma_scalar_terms_same_for_components(pair.0, prefix);
            lemma_scalar_terms_same_for_components(pair.1, prefix);
        },
        Op::Sub(pair) => {
            lemma_scalar_terms_same_for_components(pair.0, prefix);
            lemma_scalar_terms_same_for_components(pair.1, prefix.push(Factor::Negate));
        },
        Op::MulScalar(s, inner) => {
            lemma_scalar_terms_same_for_components(*inner, prefix.push(Factor::Multiply(s)));
        },
        Op::DivScalar(s, inner) => {
            lemma_scalar_terms_same_for_components(*inner, prefix.push(Factor::Divide(s)));
        },
        _ => {},
    }
}

/// Each term carries what its leaf gives: a scalar source `s` gives the
/// source `s` for every component, a vector source its component, and a
/// field operator itself; a vector coefficient contributes its component.
pub proof fn lemma_leaf_terms(c: Component, prefix: Seq<Factor>, s: u64, v: VectorBits, f: FieldOperator)
    ensures
        op_terms(Op::Scalar(s), c, prefix) == seq![(prefix, TermKind::Source(s))],
        op_terms(Op::Vector2(v), c, prefix) == seq![
            (prefix, TermKind::Source(if c is X { v.x } else { v.y })),
        ],
        op_terms(Op::FieldOperator(f), c, prefix) == seq![(prefix, TermKind::Operator(f))],
        op_terms(Op::MulVector(v, Box::new(Op::FieldOperator(f))), c, prefix) == seq![
            (prefix.push(Factor::Multiply(if c is X { v.x } else { v.y })), TermKind::Operator(f)),
        ],
{
    reveal_with_fuel(op_terms, 2);
}

} // verus!
