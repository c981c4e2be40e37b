use vstd::prelude::*;
use crate::equation::{built_from, equation_ok, new_error, CfdError, Equation};
use crate::operators::Op;
use crate::schemes::Schemes;
use crate::maps::{
    equations_contents, lemma_pairs_requirements_empty, lemma_pairs_requirements_push,
    merge_step, pairs_requirements, requirements_contents, EquationMap, RequirementsMap,
};
use crate::requirements::{join, weaker, GradRequirements};
use crate::variables::{Variable, VariableView};

verus! {

/// The gradient requirements that an equation records.
pub open spec fn equation_requirements(e: Equation) -> Map<VariableView, GradRequirements> {
    requirements_contents(e.spec_requirements())
}

/// `m` records `v` and asks for its cell gradient.
pub open spec fn has_cell(m: Map<VariableView, GradRequirements>, v: VariableView) -> bool {
    m.dom().contains(v) && m[v].cell
}

/// `m` records `v` and asks for its face gradient.
pub open spec fn has_face(m: Map<VariableView, GradRequirements>, v: VariableView) -> bool {
    m.dom().contains(v) && m[v].face
}

/// The requirements of every variable that any equation of `eqs` reads: a
/// gradient is required when one of the equations requires it.
pub open spec fn set_requirements(eqs: Map<Seq<char>, Equation>) -> Map<
    VariableView,
    GradRequirements,
> {
    Map::new(
        |v: VariableView|
            exists|n: Seq<char>|
                eqs.dom().contains(n) && (#[trigger] equation_requirements(eqs[n])).dom().contains(
                    v,
                ),
        |v: VariableView|
            GradRequirements::spec_new(
                exists|n: Seq<char>|
                    eqs.dom().contains(n) && has_cell(#[trigger] equation_requirements(eqs[n]), v),
                exists|n: Seq<char>|
                    eqs.dom().contains(n) && has_face(#[trigger] equation_requirements(eqs[n]), v),
            ),
    )
}

/// Requirements of two maps taken together.
pub open spec fn union2(
    a: Map<VariableView, GradRequirements>,
    b: Map<VariableView, GradRequirements>,
) -> Map<VariableView, GradRequirements> {
    Map::new(
        |v: VariableView| a.dom().contains(v) || b.dom().contains(v),
        |v: VariableView|
            GradRequirements::spec_new(
                has_cell(a, v) || has_cell(b, v),
                has_face(a, v) || has_face(b, v),
            ),
    )
}

/// Requirements of a list of maps taken together.
pub open spec fn union_all(ms: Seq<Map<VariableView, GradRequirements>>) -> Map<
    VariableView,
    GradRequirements,
> {
    Map::new(
        |v: VariableView| exists|j: int| 0 <= j < ms.len() && (#[trigger] ms[j]).dom().contains(v),
        |v: VariableView|
            GradRequirements::spec_new(
                exists|j: int| 0 <= j < ms.len() && has_cell(#[trigger] ms[j], v),
                exists|j: int| 0 <= j < ms.len() && has_face(#[trigger] ms[j], v),
            ),
    )
}

proof fn lemma_union2_merge_step(
    a: Map<VariableView, GradRequirements>,
    b: Map<VariableView, GradRequirements>,
    v: VariableView,
    r: GradRequirements,
)
    ensures
        union2(a, merge_step(b, v, r)) == merge_step(union2(a, b), v, r),
{
    let lhs = union2(a, merge_step(b, v, r));
    let rhs = merge_step(union2(a, b), v, r);
    assert(lhs.dom() =~= rhs.dom());
    assert forall|w: VariableView| #[trigger] lhs.dom().contains(w) implies lhs[w] == rhs[w] by {
        if w == v {
            assert(lhs[w] == join(union2(a, b)[w], r) || !union2(a, b).dom().contains(w));
        }
    }
    assert(lhs =~= rhs);
}

proof fn lemma_union2_empty(a: Map<VariableView, GradRequirements>, b: Map<VariableView, GradRequirements>)
    requires
        b.dom().is_empty(),
    ensures
        union2(a, b) == a,
{
    assert(b.dom() =~= Set::empty());
    assert(union2(a, b) =~= a);
}

proof fn lemma_union_all_push(
    ms: Seq<Map<VariableView, GradRequirements>>,
    m: Map<VariableView, GradRequirements>,
)
    ensures
        union_all(ms.push(m)) == union2(union_all(ms), m),
{
    let qs = ms.push(m);
    let lhs = union_all(qs);
    let rhs = union2(union_all(ms), m);
    assert(qs[ms.len() as int] == m);
    assert forall|w: VariableView| #[trigger] lhs.dom().contains(w) <==> rhs.dom().contains(w) by {
        if lhs.dom().contains(w) {
            let j = choose|j: int| 0 <= j < qs.len() && (#[trigger] qs[j]).dom().contains(w);
            if j < ms.len() {
                assert(ms[j] == qs[j]);
            }
        }
        if union_all(ms).dom().contains(w) {
            let j = choose|j: int| 0 <= j < ms.len() && (#[trigger] ms[j]).dom().contains(w);
            assert(ms[j] == qs[j]);
        }
    }
    assert forall|w: VariableView| #[trigger] lhs.dom().contains(w) implies lhs[w] == rhs[w] by {
        if exists|j: int| 0 <= j < qs.len() && has_cell(#[trigger] qs[j], w) {
            let j = choose|j: int| 0 <= j < qs.len() && has_cell(#[trigger] qs[j], w);
            if j < ms.len() {
                assert(ms[j] == qs[j]);
            }
        }
        if exists|j: int| 0 <= j < qs.len() && has_face(#[trigger] qs[j], w) {
            let j = choose|j: int| 0 <= j < qs.len() && has_face(#[trigger] qs[j], w);
            if j < ms.len() {
                assert(ms[j] == qs[j]);
            }
        }
        if exists|j: int| 0 <= j < ms.len() && has_cell(#[trigger] ms[j], w) {
            let j = choose|j: int| 0 <= j < ms.len() && has_cell(#[trigger] ms[j], w);
            assert(ms[j] == qs[j]);
        }
        if exists|j: int| 0 <= j < ms.len() && has_face(#[trigger] ms[j], w) {
            let j = choose|j: int| 0 <= j < ms.len() && has_face(#[trigger] ms[j], w);
            assert(ms[j] == qs[j]);
        }
        if union_all(ms).dom().contains(w) {
            let j = choose|j: int| 0 <= j < ms.len() && (#[trigger] ms[j]).dom().contains(w);
            assert(ms[j] == qs[j]);
        }
    }
    assert(lhs =~= rhs);
}

/// A list of pairs that holds each entry of `m` exactly once gives back `m`.
proof fn lemma_pairs_cover(
    ps: Seq<(VariableView, GradRequirements)>,
    m: Map<VariableView, GradRequirements>,
)
    requires
        forall|i: int|
            0 <= i < ps.len() ==> m.dom().contains(#[trigger] ps[i].0) && m[ps[i].0] == ps[i].1,
        forall|v: VariableView|
            #[trigger] m.dom().contains(v) ==> exists|i: int| 0 <= i < ps.len() && ps[i].0 == v,
    ensures
        pairs_requirements(ps) == m,
{
    let p = pairs_requirements(ps);
    assert forall|v: VariableView| #[trigger] p.dom().contains(v) <==> m.dom().contains(v) by {
        if p.dom().contains(v) {
            let j = choose|j: int| 0 <= j < ps.len() && (#[trigger] ps[j]).0 == v;
        }
        if m.dom().contains(v) {
            let j = choose|j: int| 0 <= j < ps.len() && ps[j].0 == v;
            assert(ps[j].0 == v);
        }
    }
    assert forall|v: VariableView| #[trigger] p.dom().contains(v) implies p[v] == m[v] by {
        let j = choose|j: int| 0 <= j < ps.len() && ps[j].0 == v;
        assert(ps[j].0 == v);
        if exists|k: int| 0 <= k < ps.len() && (#[trigger] ps[k]).0 == v && ps[k].1.cell {
            let k = choose|k: int| 0 <= k < ps.len() && (#[trigger] ps[k]).0 == v && ps[k].1.cell;
        }
        if exists|k: int| 0 <= k < ps.len() && (#[trigger] ps[k]).0 == v && ps[k].1.face {
            let k = choose|k: int| 0 <= k < ps.len() && (#[trigger] ps[k]).0 == v && ps[k].1.face;
        }
    }
    assert(p =~= m);
}

/// The maps of a list that holds each equation of `eqs` once, taken
/// together, are the requirements of the whole set.
proof fn lemma_union_all_cover(
    ms: Seq<Map<VariableView, GradRequirements>>,
    names: Seq<Seq<char>>,
    eqs: Map<Seq<char>, Equation>,
)
    requires
        ms.len() == names.len(),
        forall|i: int|
            0 <= i < names.len() ==> eqs.dom().contains(#[trigger] names[i]) && ms[i]
                == equation_requirements(eqs[names[i]]),
        forall|n: Seq<char>|
            #[trigger] eqs.dom().contains(n) ==> exists|i: int| 0 <= i < names.len() && names[i] == n,
    ensures
        union_all(ms) == set_requirements(eqs),
{
    let u = union_all(ms);
    let s = set_requirements(eqs);
    assert forall|v: VariableView| #[trigger] u.dom().contains(v) <==> s.dom().contains(v) by {
        if u.dom().contains(v) {
            let j = choose|j: int| 0 <= j < ms.len() && (#[trigger] ms[j]).dom().contains(v);
            assert(names[j] == names[j]);
            assert(equation_requirements(eqs[names[j]]).dom().contains(v));
        }
        if s.dom().contains(v) {
            let n = choose|n: Seq<char>|
                eqs.dom().contains(n) && (#[trigger] equation_requirements(eqs[n])).dom().contains(
                    v,
                );
            let i = choose|i: int| 0 <= i < names.len() && names[i] == n;
            assert(ms[i].dom().contains(v));
        }
    }
    assert forall|v: VariableView| #[trigger] u.dom().contains(v) implies u[v] == s[v] by {
        if exists|j: int| 0 <= j < ms.len() && has_cell(#[trigger] ms[j], v) {
            let j = choose|j: int| 0 <= j < ms.len() && has_cell(#[trigger] ms[j], v);
            assert(names[j] == names[j]);
            assert(has_cell(equation_requirements(eqs[names[j]]), v));
        }
        if exists|j: int| 0 <= j < ms.len() && has_face(#[trigger] ms[j], v) {
            let j = choose|j: int| 0 <= j < ms.len() && has_face(#[trigger] ms[j], v);
            assert(names[j] == names[j]);
            assert(has_face(equation_requirements(eqs[names[j]]), v));
        }
        if exists|n: Seq<char>|
            eqs.dom().contains(n) && has_cell(#[trigger] equation_requirements(eqs[n]), v) {
            let n = choose|n: Seq<char>|
                eqs.dom().contains(n) && has_cell(#[trigger] equation_requirements(eqs[n]), v);
            let i = choose|i: int| 0 <= i < names.len() && names[i] == n;
            assert(has_cell(ms[i], v));
        }
        if exists|n: Seq<char>|
            eqs.dom().contains(n) && has_face(#[trigger] equation_requirements(eqs[n]), v) {
            let n = choose|n: Seq<char>|
                eqs.dom().contains(n) && has_face(#[trigger] equation_requirements(eqs[n]), v);
            let i = choose|i: int| 0 <= i < names.len() && names[i] == n;
            assert(has_face(ms[i], v));
        }
    }
    assert(u =~= s);
}

/// What adding `lhs = rhs` under `name` with `schemes` does to a set that
/// held `old` and now holds `new`, answering `r`: it succeeds exactly when
/// the equation names one unknown and the name is free, and then records
/// the built equation under `name`, keeping every other one; otherwise the
/// set is unchanged, and the error is the equation's building error, or
/// `EquationAlreadyAdded` for a valid equation whose name is taken.
pub open spec fn add_outcome(
    old: Map<Seq<char>, Equation>,
    new: Map<Seq<char>, Equation>,
    r: Result<(), CfdError>,
    name: Seq<char>,
    lhs: Op,
    rhs: Op,
    schemes: Schemes,
) -> bool {
    &&& r is Ok <==> (equation_ok(lhs, rhs) && !old.dom().contains(name))
    &&& r is Ok ==> {
        &&& new.dom() == old.dom().insert(name)
        &&& forall|n: Seq<char>| #[trigger] old.dom().contains(n) ==> new[n] == old[n]
        &&& built_from(new[name], lhs, rhs, schemes)
    }
    &&& r is Err ==> new == old
    &&& !equation_ok(lhs, rhs) ==> (r matches Err(e) && new_error(e, lhs, rhs))
    &&& equation_ok(lhs, rhs) && old.dom().contains(name) ==> (r matches Err(e)
        && e matches CfdError::EquationAlreadyAdded { name: n } && n@ == name)
}

/// The equations of a case, by name.
#[derive(Debug, Clone, PartialEq)]
pub struct EquationsSet {
    pub map: EquationMap,
}

impl EquationsSet {
    /// A set with no equation.
    pub fn new() -> (r: Self)
        ensures
            equations_contents(r.map).dom().is_empty(),
    {
        EquationsSet { map: EquationMap::new() }
    }

    /// Adds `equation` under `name`. Fails, leaving the set unchanged, when an
    /// equation with the same name is already present. Fields are to be
    /// initialised only once all equations are added.
    pub fn add_eq(&mut self, name: String, equation: Equation) -> (r: Result<(), CfdError>)
        ensures
            r is Ok <==> !equations_contents(old(self).map).dom().contains(name@),
            r is Ok ==> equations_contents(final(self).map) == equations_contents(
                old(self).map,
            ).insert(name@, equation),
            r matches Err(e) ==> e == (CfdError::EquationAlreadyAdded { name })
                && equations_contents(final(self).map) == equations_contents(old(self).map),
    {
        let key = name.clone();
        if self.map.try_insert(key, equation) {
            Ok(())
        } else {
            Err(CfdError::EquationAlreadyAdded { name })
        }
    }

    /// Builds `lhs = rhs` with `schemes` and adds it under `name`. An equation
    /// that names no unknown, or several, gives its building error; a valid
    /// one whose name is taken gives `EquationAlreadyAdded`; either way the
    /// set is unchanged.
    pub fn add_eq_from_parts(&mut self, name: String, lhs: Op, rhs: Op, schemes: &Schemes) -> (r:
        Result<(), CfdError>)
        ensures
            add_outcome(
                equations_contents(old(self).map),
                equations_contents(final(self).map),
                r,
                name@,
                lhs,
                rhs,
                *schemes,
            ),
    {
        let equation = match Equation::new(lhs, rhs, schemes) {
            Ok(eq) => eq,
            Err(e) => {
                return Err(e);
            },
        };
        let key = name.clone();
        if self.map.try_insert(key, equation) {
            Ok(())
        } else {
            Err(CfdError::EquationAlreadyAdded { name })
        }
    }

    /// The gradient requirements of every variable read by any equation of
    /// the set, each gradient required when one of the equations requires it.
    pub fn variables_requirements(&self) -> (r: RequirementsMap)
        ensures
            requirements_contents(r) == set_requirements(equations_contents(self.map)),
    {
        let eqs = self.map.entries();
        let ghost names = eqs@.map_values(|e: (String, &Equation)| e.0@);
        let ghost ms = eqs@.map_values(|e: (String, &Equation)| equation_requirements(*e.1));
        let mut variables_glob = RequirementsMap::new();
        proof {
            assert(requirements_contents(variables_glob) =~= union_all(ms.take(0)));
        }
        let mut i: usize = 0;
        while i < eqs.len()
            invariant
                0 <= i <= eqs@.len(),
                ms == eqs@.map_values(|e: (String, &Equation)| equation_requirements(*e.1)),
                requirements_contents(variables_glob) == union_all(ms.take(i as int)),
            decreases eqs@.len() - i,
        {
            let eq: &Equation = eqs[i].1;
            let entries = eq.fields_required().entries();
            let ghost ps = entries@.map_values(|e: (Variable, GradRequirements)| (e.0@, e.1));
            let ghost base = union_all(ms.take(i as int));
            proof {
                lemma_pairs_requirements_empty(ps.take(0));
                lemma_union2_empty(base, pairs_requirements(ps.take(0)));
            }
            let mut t: usize = 0;
            while t < entries.len()
                invariant
                    0 <= t <= entries@.len(),
                    ps == entries@.map_values(|e: (Variable, GradRequirements)| (e.0@, e.1)),
                    requirements_contents(variables_glob) == union2(
                        base,
                        pairs_requirements(ps.take(t as int)),
                    ),
                decreases entries@.len() - t,
            {
                let variable = entries[t].0.clone();
                let grad = entries[t].1;
                variables_glob.merge(variable, grad);
                proof {
                    assert(ps[t as int] == (variable@, grad));
                    lemma_pairs_requirements_push(ps.take(t as int), ps[t as int]);
                    assert(ps.take(t as int + 1) =~= ps.take(t as int).push(ps[t as int]));
                    lemma_union2_merge_step(
                        base,
                        pairs_requirements(ps.take(t as int)),
                        variable@,
                        grad,
                    );
                }
                t = t + 1;
            }
            proof {
                assert(ps.take(t as int) =~= ps);
                let m = ms[i as int];
                assert(m == requirements_contents(eq.spec_requirements()));
                assert forall|v: VariableView| #[trigger] m.dom().contains(v) implies exists|k: int|
                    0 <= k < ps.len() && ps[k].0 == v by {
                    let k = choose|k: int| 0 <= k < entries@.len() && entries@[k].0@ == v;
                    assert(ps[k].0 == v);
                }
                lemma_pairs_cover(ps, m);
                lemma_union_all_push(ms.take(i as int), ms[i as int]);
                assert(ms.take(i as int + 1) =~= ms.take(i as int).push(ms[i as int]));
            }
            i = i + 1;
        }
        proof {
            assert(ms.take(i as int) =~= ms);
            assert forall|n: Seq<char>| #[trigger]
                equations_contents(self.map).dom().contains(n) implies exists|k: int|
                0 <= k < names.len() && names[k] == n by {
                let k = choose|k: int| 0 <= k < eqs@.len() && eqs@[k].0@ == n;
                assert(names[k] == n);
            }
            lemma_union_all_cover(ms, names, equations_contents(self.map));
        }
        variables_glob
    }
}

/// No equation's need is dropped: every variable an equation of the set
/// reads is in the set's requirements, which ask for at least every gradient
/// that equation asks for.
pub proof fn lemma_set_requirements_cover(
    eqs: Map<Seq<char>, Equation>,
    n: Seq<char>,
    v: VariableView,
)
    requires
        eqs.dom().contains(n),
        equation_requirements(eqs[n]).dom().contains(v),
    ensures
        set_requirements(eqs).dom().contains(v),
        weaker(equation_requirements(eqs[n])[v], set_requirements(eqs)[v]),
{
    assert(has_cell(equation_requirements(eqs[n]), v) ==> exists|m: Seq<char>|
        eqs.dom().contains(m) && has_cell(#[trigger] equation_requirements(eqs[m]), v));
    assert(has_face(equation_requirements(eqs[n]), v) ==> exists|m: Seq<char>|
        eqs.dom().contains(m) && has_face(#[trigger] equation_requirements(eqs[m]), v));
}

} // verus!
