use vstd::prelude::*;
use crate::maps::{
    lemma_pairs_requirements_empty, lemma_pairs_requirements_push, pairs_requirements,
    requirements_contents, RequirementsMap,
};
use crate::operators::{op_eq, DifferentialOperator, FieldOperator, Op};
use vstd::std_specs::cmp::PartialEqSpecImpl;
use crate::requirements::GradRequirements;
use crate::schemes::Schemes;
use crate::variables::{IntegrationCategory, Variable, VariableView};

verus! {

/// Errors of equation and case set-up.
#[derive(Debug, PartialEq)]
pub enum CfdError {
    Unspecified,
    /// Several variables (e.g. `var1` and `var2`) would be the unknown of the
    /// equation `lhs = rhs`.
    EquationInconsistentUnknown { lhs: Op, rhs: Op, var1: Variable, var2: Variable },
    /// No unknown was identified in `lhs = rhs`: it needs at least one
    /// implicit term or time derivative.
    EquationNoUnknown { lhs: Op, rhs: Op },
    /// An equation with this name is already present.
    EquationAlreadyAdded { name: String },
}

impl Default for CfdError {
    fn default() -> (r: Self)
        ensures
            r is Unspecified,
    {
        CfdError::Unspecified
    }
}

/// The field-reading terms of `lhs = rhs`, those of `lhs` first, each side
/// left to right.
pub open spec fn equation_terms(lhs: Op, rhs: Op) -> Seq<FieldOperator> {
    lhs.field_operators() + rhs.field_operators()
}

/// The variables that the terms, in order, would make the unknown.
pub open spec fn unknown_candidates(ops: Seq<FieldOperator>) -> Seq<Variable>
    decreases ops.len(),
{
    if ops.len() == 0 {
        Seq::empty()
    } else {
        unknown_candidates(ops.drop_last()) + match ops.last().unknown_candidate() {
            Some(v) => seq![v],
            None => Seq::empty(),
        }
    }
}

/// All candidates name the same variable as the first one.
pub open spec fn all_agree(cands: Seq<Variable>) -> bool {
    forall|j: int| 0 <= j < cands.len() ==> (#[trigger] cands[j])@ == cands[0]@
}

/// `k` is the first candidate that names another variable than the first.
pub open spec fn first_disagreement(cands: Seq<Variable>, k: int) -> bool {
    &&& 0 < k < cands.len()
    &&& cands[k]@ != cands[0]@
    &&& forall|j: int| 0 <= j < k ==> (#[trigger] cands[j])@ == cands[0]@
}

/// `lhs = rhs` names an unknown: some term makes a variable the unknown and
/// all such terms name the same one.
pub open spec fn equation_ok(lhs: Op, rhs: Op) -> bool {
    unknown_candidates(equation_terms(lhs, rhs)).len() > 0 && all_agree(
        unknown_candidates(equation_terms(lhs, rhs)),
    )
}

/// `e` is the error that building `lhs = rhs` gives: no unknown, or the
/// first variable and the first one that disagrees with it.
pub open spec fn new_error(e: CfdError, lhs: Op, rhs: Op) -> bool {
    let cands = unknown_candidates(equation_terms(lhs, rhs));
    ||| e matches CfdError::EquationNoUnknown { lhs: l, rhs: rr } && l == lhs && rr == rhs
        && cands.len() == 0
    ||| e matches CfdError::EquationInconsistentUnknown { lhs: l, rhs: rr, var1, var2 } && l == lhs
        && rr == rhs && cands.len() > 0 && var1 == cands[0] && exists|k: int|
        first_disagreement(cands, k) && var2 == cands[k]
}

/// `eq` is the equation built from `lhs = rhs` with `schemes`: these sides,
/// the first candidate as unknown, and the requirements the schemes give
/// the terms.
pub open spec fn built_from(eq: Equation, lhs: Op, rhs: Op, schemes: Schemes) -> bool {
    &&& eq.spec_lhs() == lhs
    &&& eq.spec_rhs() == rhs
    &&& eq.spec_unknown() == unknown_candidates(equation_terms(lhs, rhs))[0]
    &&& requirements_contents(eq.spec_requirements()) == terms_requirements(
        equation_terms(lhs, rhs),
        schemes,
    )
}

/// Each term's variable with the gradients of it that the term needs.
pub open spec fn requirement_pairs(ops: Seq<FieldOperator>, schemes: Schemes) -> Seq<
    (VariableView, GradRequirements),
> {
    ops.map_values(|f: FieldOperator| (f.spec_variable()@, f.spec_required_grads(schemes)))
}

/// The gradient requirements of every variable that the terms read.
pub open spec fn terms_requirements(ops: Seq<FieldOperator>, schemes: Schemes) -> Map<
    VariableView,
    GradRequirements,
> {
    pairs_requirements(requirement_pairs(ops, schemes))
}

proof fn lemma_candidates_step(ops: Seq<FieldOperator>, i: int)
    requires
        0 <= i < ops.len(),
    ensures
        unknown_candidates(ops.take(i + 1)) == unknown_candidates(ops.take(i)) + match ops[i].unknown_candidate() {
            Some(v) => seq![v],
            None => Seq::<Variable>::empty(),
        },
{
    assert(ops.take(i + 1).drop_last() =~= ops.take(i));
    assert(ops.take(i + 1).last() == ops[i]);
}

proof fn lemma_candidates_prefix(ops: Seq<FieldOperator>, i: int)
    requires
        0 <= i <= ops.len(),
    ensures
        unknown_candidates(ops).take(unknown_candidates(ops.take(i)).len() as int)
            == unknown_candidates(ops.take(i)),
        unknown_candidates(ops.take(i)).len() <= unknown_candidates(ops).len(),
    decreases ops.len() - i,
{
    if i == ops.len() {
        assert(ops.take(i) =~= ops);
        assert(unknown_candidates(ops).take(unknown_candidates(ops).len() as int)
            =~= unknown_candidates(ops));
    } else {
        lemma_candidates_prefix(ops, i + 1);
        lemma_candidates_step(ops, i);
        let a = unknown_candidates(ops.take(i));
        let b = unknown_candidates(ops.take(i + 1));
        let all = unknown_candidates(ops);
        assert(b.take(a.len() as int) =~= a);
        assert(all.take(a.len() as int) =~= all.take(b.len() as int).take(a.len() as int));
    }
}

/// The variable a term would make the unknown, as an executable check.
fn candidate(f: &FieldOperator) -> (r: Option<&Variable>)
    ensures
        r matches Some(v) ==> f.unknown_candidate() == Some(*v),
        r is None ==> f.unknown_candidate() is None,
{
    match f {
        FieldOperator::DifferentialOperator(diff_op) => match diff_op {
            DifferentialOperator::TimeDerivative(var) => Some(var),
            DifferentialOperator::Convection { var, integration, .. }
            | DifferentialOperator::Divergence(var, integration)
            | DifferentialOperator::Laplacian(var, integration) => {
                if let IntegrationCategory::Implicit = integration {
                    Some(var)
                } else {
                    None
                }
            },
        },
        FieldOperator::Gradient(_) => None,
        FieldOperator::Field(var, integration) => {
            if let IntegrationCategory::Implicit = integration {
                Some(var)
            } else {
                None
            }
        },
    }
}

/// An equation `lhs = rhs`, with its unknown and the gradient requirements
/// of every variable it reads. Implicit terms are allowed on one variable
/// only.
#[derive(Debug)]
pub struct Equation {
    lhs: Op,
    rhs: Op,
    unknown: Variable,
    variables_requirements: RequirementsMap,
}

impl Equation {
    pub closed spec fn spec_lhs(self) -> Op {
        self.lhs
    }

    pub closed spec fn spec_rhs(self) -> Op {
        self.rhs
    }

    pub closed spec fn spec_unknown(self) -> Variable {
        self.unknown
    }

    pub closed spec fn spec_requirements(self) -> RequirementsMap {
        self.variables_requirements
    }

    pub fn lhs(&self) -> (r: &Op)
        ensures
            *r == self.spec_lhs(),
    {
        &self.lhs
    }

    pub fn rhs(&self) -> (r: &Op)
        ensures
            *r == self.spec_rhs(),
    {
        &self.rhs
    }

    pub fn unknown(&self) -> (r: &Variable)
        ensures
            *r == self.spec_unknown(),
    {
        &self.unknown
    }

    /// Builds the equation `lhs = rhs`. Its unknown is the variable of the
    /// first time derivative, implicit operator or implicit field among the
    /// terms; every such term must name that same variable. The gradient
    /// requirements of each variable read are gathered from all terms.
    pub fn new(lhs: Op, rhs: Op, schemes: &Schemes) -> (r: Result<Equation, CfdError>)
        ensures
            r is Ok <==> unknown_candidates(equation_terms(lhs, rhs)).len() > 0 && all_agree(
                unknown_candidates(equation_terms(lhs, rhs)),
            ),
            r matches Ok(eq) ==> {
                &&& eq.spec_lhs() == lhs
                &&& eq.spec_rhs() == rhs
                &&& eq.spec_unknown() == unknown_candidates(equation_terms(lhs, rhs))[0]
                &&& requirements_contents(eq.spec_requirements()) == terms_requirements(
                    equation_terms(lhs, rhs),
                    *schemes,
                )
            },
            r matches Err(e) ==> (e matches CfdError::EquationNoUnknown { lhs: l, rhs: rr }
                && l == lhs && rr == rhs && unknown_candidates(equation_terms(lhs, rhs)).len()
                == 0) || (e matches CfdError::EquationInconsistentUnknown {
                lhs: l,
                rhs: rr,
                var1,
                var2,
            } && l == lhs && rr == rhs && unknown_candidates(equation_terms(lhs, rhs)).len() > 0
                && var1 == unknown_candidates(equation_terms(lhs, rhs))[0] && exists|k: int|
                first_disagreement(unknown_candidates(equation_terms(lhs, rhs)), k) && var2
                    == unknown_candidates(equation_terms(lhs, rhs))[k]),
    {
        let ghost ops = equation_terms(lhs, rhs);
        let mut collector: Vec<FieldOperator> = Vec::new();
        lhs.collect_field_operators(&mut collector);
        rhs.collect_field_operators(&mut collector);
        assert(collector@ =~= ops);

        let mut unknown_var: Option<&Variable> = None;
        let mut i: usize = 0;
        while i < collector.len()
            invariant
                0 <= i <= collector@.len(),
                collector@ == ops,
                ops == equation_terms(lhs, rhs),
                unknown_var is None <==> unknown_candidates(ops.take(i as int)).len() == 0,
                unknown_var matches Some(u) ==> *u == unknown_candidates(ops.take(i as int))[0],
                all_agree(unknown_candidates(ops.take(i as int))),
            decreases collector@.len() - i,
        {
            proof {
                lemma_candidates_step(ops, i as int);
            }
            let ghost before = unknown_candidates(ops.take(i as int));
            match candidate(&collector[i]) {
                Some(var) => match unknown_var {
                    None => {
                        unknown_var = Some(var);
                    },
                    Some(current) => {
                        if !current.eq(var) {
                            let var1 = current.clone();
                            let var2 = var.clone();
                            proof {
                                let cands = unknown_candidates(ops.take(i as int + 1));
                                let k = before.len() as int;
                                assert(cands[k] == *var);
                                assert forall|j: int| 0 <= j < k implies (#[trigger] cands[j])@
                                    == cands[0]@ by {
                                    assert(cands[j] == before[j]);
                                }
                                lemma_candidates_prefix(ops, i as int + 1);
                                let all = unknown_candidates(ops);
                                assert(all.take(cands.len() as int) == cands);
                                assert(all[k] == cands[k]);
                                assert(all[0] == cands[0]);
                                assert forall|j: int| 0 <= j < k implies (#[trigger] all[j])@
                                    == all[0]@ by {
                                    assert(all[j] == cands[j]);
                                }
                                assert(first_disagreement(all, k));
                            }
                            return Err(
                                CfdError::EquationInconsistentUnknown { lhs, rhs, var1, var2 },
                            );
                        }
                    },
                },
                None => {},
            }
            i = i + 1;
        }
        assert(ops.take(i as int) =~= ops);

        let ghost pairs = requirement_pairs(ops, *schemes);
        let mut variables_requirements = RequirementsMap::new();
        proof {
            lemma_pairs_requirements_empty(pairs.take(0));
            assert(requirements_contents(variables_requirements) =~= pairs_requirements(
                pairs.take(0),
            ));
        }
        let mut k: usize = 0;
        while k < collector.len()
            invariant
                0 <= k <= collector@.len(),
                collector@ == ops,
                pairs == requirement_pairs(ops, *schemes),
                requirements_contents(variables_requirements) == pairs_requirements(
                    pairs.take(k as int),
                ),
            decreases collector@.len() - k,
        {
            let (var, required_grad) = collector[k].required_grads(schemes);
            variables_requirements.merge(var.clone(), required_grad);
            proof {
                assert(pairs[k as int] == (var@, required_grad));
                lemma_pairs_requirements_push(pairs.take(k as int), pairs[k as int]);
                assert(pairs.take(k as int + 1) =~= pairs.take(k as int).push(pairs[k as int]));
            }
            k = k + 1;
        }
        assert(pairs.take(k as int) =~= pairs);

        match unknown_var {
            None => Err(CfdError::EquationNoUnknown { lhs, rhs }),
            Some(var) => {
                let unknown = var.clone();
                Ok(Equation { lhs, rhs, unknown, variables_requirements })
            },
        }
    }

    /// The field-reading terms of the equation, those of the left-hand side
    /// first, each side left to right.
    pub fn collect_field_operators(&self) -> (r: Vec<FieldOperator>)
        ensures
            r@ == equation_terms(self.spec_lhs(), self.spec_rhs()),
    {
        let mut collector: Vec<FieldOperator> = Vec::new();
        self.lhs.collect_field_operators(&mut collector);
        self.rhs.collect_field_operators(&mut collector);
        assert(collector@ =~= equation_terms(self.spec_lhs(), self.spec_rhs()));
        collector
    }

    /// The differential operators of the equation, those of the left-hand
    /// side first, each side left to right.
    pub fn collect_differential_operators(&self) -> (r: Vec<DifferentialOperator>)
        ensures
            r@ == self.spec_lhs().differential_operators() + self.spec_rhs().differential_operators(),
    {
        let mut collector: Vec<DifferentialOperator> = Vec::new();
        self.lhs.collect_differential_operators(&mut collector);
        self.rhs.collect_differential_operators(&mut collector);
        assert(collector@ =~= self.spec_lhs().differential_operators()
            + self.spec_rhs().differential_operators());
        collector
    }

    pub fn fields_required(&self) -> (r: &RequirementsMap)
        ensures
            *r == self.spec_requirements(),
    {
        &self.variables_requirements
    }
}


proof fn lemma_candidates_concat(a: Seq<FieldOperator>, b: Seq<FieldOperator>)
    ensures
        unknown_candidates(a + b) == unknown_candidates(a) + unknown_candidates(b),
    decreases b.len(),
{
    if b.len() == 0 {
        assert(a + b =~= a);
        assert(unknown_candidates(a) + unknown_candidates(b) =~= unknown_candidates(a));
    } else {
        lemma_candidates_concat(a, b.drop_last());
        assert((a + b).drop_last() =~= a + b.drop_last());
        assert((a + b).last() == b.last());
        assert(unknown_candidates(a + b) =~= unknown_candidates(a) + unknown_candidates(b));
    }
}

proof fn lemma_all_agree_swap(x: Seq<Variable>, y: Seq<Variable>)
    requires
        (x + y).len() > 0,
        all_agree(x + y),
    ensures
        all_agree(y + x),
        (y + x)[0]@ == (x + y)[0]@,
{
    let s = x + y;
    let t = y + x;
    assert forall|j: int| 0 <= j < t.len() implies (#[trigger] t[j])@ == s[0]@ by {
        if j < y.len() {
            assert(t[j] == s[x.len() + j]);
        } else {
            assert(t[j] == s[j - y.len()]);
        }
    }
}

proof fn lemma_pairs_requirements_same_elements(
    s: Seq<(VariableView, GradRequirements)>,
    t: Seq<(VariableView, GradRequirements)>,
)
    requires
        forall|p: (VariableView, GradRequirements)| #[trigger] s.contains(p) <==> t.contains(p),
    ensures
        pairs_requirements(s) == pairs_requirements(t),
{
    let a = pairs_requirements(s);
    let b = pairs_requirements(t);
    assert forall|v: VariableView| #[trigger] a.dom().contains(v) <==> b.dom().contains(v) by {
        if a.dom().contains(v) {
            let j = choose|j: int| 0 <= j < s.len() && (#[trigger] s[j]).0 == v;
            assert(s.contains(s[j]));
            let k = choose|k: int| 0 <= k < t.len() && t[k] == s[j];
            assert(t[k].0 == v);
        }
        if b.dom().contains(v) {
            let j = choose|j: int| 0 <= j < t.len() && (#[trigger] t[j]).0 == v;
            assert(t.contains(t[j]));
            assert(s.contains(t[j]));
            let k = choose|k: int| 0 <= k < s.len() && s[k] == t[j];
            assert(s[k].0 == v);
        }
    }
    assert forall|v: VariableView| #[trigger] a.dom().contains(v) implies a[v] == b[v] by {
        if exists|j: int| 0 <= j < s.len() && (#[trigger] s[j]).0 == v && s[j].1.cell {
            let j = choose|j: int| 0 <= j < s.len() && (#[trigger] s[j]).0 == v && s[j].1.cell;
            assert(s.contains(s[j]));
            let k = choose|k: int| 0 <= k < t.len() && t[k] == s[j];
            assert(t[k].0 == v && t[k].1.cell);
        }
        if exists|j: int| 0 <= j < t.len() && (#[trigger] t[j]).0 == v && t[j].1.cell {
            let j = choose|j: int| 0 <= j < t.len() && (#[trigger] t[j]).0 == v && t[j].1.cell;
            assert(t.contains(t[j]));
            assert(s.contains(t[j]));
            let k = choose|k: int| 0 <= k < s.len() && s[k] == t[j];
            assert(s[k].0 == v && s[k].1.cell);
        }
        if exists|j: int| 0 <= j < s.len() && (#[trigger] s[j]).0 == v && s[j].1.face {
            let j = choose|j: int| 0 <= j < s.len() && (#[trigger] s[j]).0 == v && s[j].1.face;
            assert(s.contains(s[j]));
            let k = choose|k: int| 0 <= k < t.len() && t[k] == s[j];
            assert(t[k].0 == v && t[k].1.face);
        }
        if exists|j: int| 0 <= j < t.len() && (#[trigger] t[j]).0 == v && t[j].1.face {
            let j = choose|j: int| 0 <= j < t.len() && (#[trigger] t[j]).0 == v && t[j].1.face;
            assert(t.contains(t[j]));
            assert(s.contains(t[j]));
            let k = choose|k: int| 0 <= k < s.len() && s[k] == t[j];
            assert(s[k].0 == v && s[k].1.face);
        }
    }
    assert(a =~= b);
}

proof fn lemma_concat_swap_contains<A>(x: Seq<A>, y: Seq<A>)
    ensures
        forall|p: A| #[trigger] (x + y).contains(p) <==> (y + x).contains(p),
{
    assert forall|p: A| #[trigger] (x + y).contains(p) implies (y + x).contains(p) by {
        let j = choose|j: int| 0 <= j < (x + y).len() && (x + y)[j] == p;
        if j < x.len() {
            assert((y + x)[y.len() + j] == p);
        } else {
            assert((y + x)[j - x.len()] == p);
        }
    }
    assert forall|p: A| #[trigger] (y + x).contains(p) implies (x + y).contains(p) by {
        let j = choose|j: int| 0 <= j < (y + x).len() && (y + x)[j] == p;
        if j < y.len() {
            assert((x + y)[x.len() + j] == p);
        } else {
            assert((x + y)[j - y.len()] == p);
        }
    }
}

/// Writing an equation the other way round, `rhs = lhs`, changes nothing
/// that matters: it is accepted exactly when `lhs = rhs` is, with the same
/// unknown (up to its view) and the same gradient requirements.
pub proof fn lemma_equation_sides_symmetric(lhs: Op, rhs: Op, schemes: Schemes)
    ensures
        (unknown_candidates(equation_terms(lhs, rhs)).len() > 0 && all_agree(
            unknown_candidates(equation_terms(lhs, rhs)),
        )) <==> (unknown_candidates(equation_terms(rhs, lhs)).len() > 0 && all_agree(
            unknown_candidates(equation_terms(rhs, lhs)),
        )),
        unknown_candidates(equation_terms(lhs, rhs)).len() > 0 && all_agree(
            unknown_candidates(equation_terms(lhs, rhs)),
        ) ==> unknown_candidates(equation_terms(lhs, rhs))[0]@ == unknown_candidates(
            equation_terms(rhs, lhs),
        )[0]@,
        terms_requirements(equation_terms(lhs, rhs), schemes) == terms_requirements(
            equation_terms(rhs, lhs),
            schemes,
        ),
{
    let a = lhs.field_operators();
    let b = rhs.field_operators();
    lemma_candidates_concat(a, b);
    lemma_candidates_concat(b, a);
    let ca = unknown_candidates(a);
    let cb = unknown_candidates(b);
    if (ca + cb).len() > 0 && all_agree(ca + cb) {
        lemma_all_agree_swap(ca, cb);
    }
    if (cb + ca).len() > 0 && all_agree(cb + ca) {
        lemma_all_agree_swap(cb, ca);
    }
    assert(requirement_pairs(a + b, schemes) =~= requirement_pairs(a, schemes) + requirement_pairs(
        b,
        schemes,
    ));
    assert(requirement_pairs(b + a, schemes) =~= requirement_pairs(b, schemes) + requirement_pairs(
        a,
        schemes,
    ));
    lemma_concat_swap_contains(requirement_pairs(a, schemes), requirement_pairs(b, schemes));
    lemma_pairs_requirements_same_elements(
        requirement_pairs(a, schemes) + requirement_pairs(b, schemes),
        requirement_pairs(b, schemes) + requirement_pairs(a, schemes),
    );
}

impl Clone for Equation {
    fn clone(&self) -> (r: Self)
        ensures
            r.spec_lhs() == self.spec_lhs(),
            r.spec_rhs() == self.spec_rhs(),
            r.spec_unknown() == self.spec_unknown(),
            requirements_contents(r.spec_requirements()) == requirements_contents(
                self.spec_requirements(),
            ),
    {
        Equation {
            lhs: self.lhs.clone(),
            rhs: self.rhs.clone(),
            unknown: self.unknown.clone(),
            variables_requirements: self.variables_requirements.clone(),
        }
    }
}

/// Two equations are equal when their sides are equal trees, their unknowns
/// the same variable and their requirements the same.
pub open spec fn equation_eq(a: Equation, b: Equation) -> bool {
    &&& op_eq(a.spec_lhs(), b.spec_lhs())
    &&& op_eq(a.spec_rhs(), b.spec_rhs())
    &&& a.spec_unknown()@ == b.spec_unknown()@
    &&& requirements_contents(a.spec_requirements()) == requirements_contents(b.spec_requirements())
}

impl PartialEq for Equation {
    fn eq(&self, other: &Self) -> (r: bool) {
        self.lhs.eq(&other.lhs) && self.rhs.eq(&other.rhs) && self.unknown.eq(&other.unknown)
            && self.variables_requirements.eq(&other.variables_requirements)
    }
}

impl PartialEqSpecImpl for Equation {
    open spec fn obeys_eq_spec() -> bool {
        true
    }

    open spec fn eq_spec(&self, other: &Self) -> bool {
        equation_eq(*self, *other)
    }
}

/// Every candidate for the unknown of an equation is the variable that one
/// of its terms reads, a term that names it: a time derivative or an
/// implicit term, never through a convection's speed.
pub proof fn lemma_candidates_are_term_variables(ops: Seq<FieldOperator>)
    ensures
        forall|j: int|
            0 <= j < unknown_candidates(ops).len() ==> exists|k: int|
                0 <= k < ops.len() && ops[k].unknown_candidate() == Some(
                    #[trigger] unknown_candidates(ops)[j],
                ) && unknown_candidates(ops)[j] == ops[k].spec_variable(),
    decreases ops.len(),
{
    if ops.len() > 0 {
        let prev = ops.drop_last();
        lemma_candidates_are_term_variables(prev);
        crate::operators::lemma_unknown_candidate_law(ops.last());
        let cands = unknown_candidates(ops);
        let pc = unknown_candidates(prev);
        assert forall|j: int| 0 <= j < cands.len() implies exists|k: int|
            0 <= k < ops.len() && ops[k].unknown_candidate() == Some(#[trigger] cands[j])
                && cands[j] == ops[k].spec_variable() by {
            if j < pc.len() {
                assert(cands[j] == pc[j]);
                let k = choose|k: int|
                    0 <= k < prev.len() && prev[k].unknown_candidate() == Some(pc[j])
                        && pc[j] == prev[k].spec_variable();
                assert(ops[k] == prev[k]);
            } else {
                let k = ops.len() - 1;
                assert(ops[k] == ops.last());
            }
        }
    }
}

} // verus!
