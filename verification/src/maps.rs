use vstd::prelude::*;
use crate::equation::{equation_eq, Equation};
use crate::requirements::{join, GradRequirements};
use crate::variables::{Variable, VariableView};
use vstd::std_specs::cmp::PartialEqSpecImpl;

verus! {

/// The gradient requirements of each variable, held in a
/// `hashbrown::HashMap` keyed by the variable.
#[verifier::external_body]
#[derive(Debug)]
pub struct RequirementsMap {
    inner: hashbrown::HashMap<Variable, GradRequirements>,
}

/// What a `RequirementsMap` holds: the requirement of each variable, keyed
/// by the variable's view.
pub uninterp spec fn requirements_contents(m: RequirementsMap) -> Map<VariableView, GradRequirements>;

/// The named equations of a case, held in a `hashbrown::HashMap` keyed by
/// the equation's name.
#[verifier::external_body]
#[derive(Debug)]
pub struct EquationMap {
    inner: hashbrown::HashMap<String, Equation>,
}

/// What an `EquationMap` holds: each equation, keyed by its name.
pub uninterp spec fn equations_contents(m: EquationMap) -> Map<Seq<char>, Equation>;

/// The map after `r` is merged into the requirement of `v`: a variable not
/// yet present gets `r`, a present one keeps the most restrictive of both.
pub open spec fn merge_step(
    m: Map<VariableView, GradRequirements>,
    v: VariableView,
    r: GradRequirements,
) -> Map<VariableView, GradRequirements> {
    if m.dom().contains(v) {
        m.insert(v, join(m[v], r))
    } else {
        m.insert(v, r)
    }
}

/// The requirement of each variable named in a list of
/// (variable, requirement) pairs: a variable is required to have a gradient
/// when any of its pairs asks for it.
pub open spec fn pairs_requirements(ps: Seq<(VariableView, GradRequirements)>) -> Map<
    VariableView,
    GradRequirements,
> {
    Map::new(
        |v: VariableView| exists|j: int| 0 <= j < ps.len() && (#[trigger] ps[j]).0 == v,
        |v: VariableView|
            GradRequirements::spec_new(
                exists|j: int| 0 <= j < ps.len() && (#[trigger] ps[j]).0 == v && ps[j].1.cell,
                exists|j: int| 0 <= j < ps.len() && (#[trigger] ps[j]).0 == v && ps[j].1.face,
            ),
    )
}

/// No pair, no requirement.
pub proof fn lemma_pairs_requirements_empty(ps: Seq<(VariableView, GradRequirements)>)
    requires
        ps.len() == 0,
    ensures
        pairs_requirements(ps).dom().is_empty(),
{
    assert(pairs_requirements(ps).dom() =~= Set::empty());
}

/// Merging one more pair into the requirements of a list is the
/// requirements of the list with that pair appended.
pub proof fn lemma_pairs_requirements_push(
    ps: Seq<(VariableView, GradRequirements)>,
    p: (VariableView, GradRequirements),
)
    ensures
        pairs_requirements(ps.push(p)) == merge_step(pairs_requirements(ps), p.0, p.1),
{
    let qs = ps.push(p);
    let a = pairs_requirements(qs);
    let m = pairs_requirements(ps);
    let b = merge_step(m, p.0, p.1);
    assert(qs[ps.len() as int] == p);
    assert forall|v: VariableView| #[trigger] a.dom().contains(v) <==> b.dom().contains(v) by {
        if a.dom().contains(v) {
            let j = choose|j: int| 0 <= j < qs.len() && (#[trigger] qs[j]).0 == v;
            if j < ps.len() {
                assert(ps[j] == qs[j]);
            }
        }
        if m.dom().contains(v) {
            let j = choose|j: int| 0 <= j < ps.len() && (#[trigger] ps[j]).0 == v;
            assert(ps[j] == qs[j]);
        }
    }
    assert forall|v: VariableView| #[trigger] a.dom().contains(v) implies a[v] == b[v] by {
        let ac = exists|j: int| 0 <= j < qs.len() && (#[trigger] qs[j]).0 == v && qs[j].1.cell;
        let af = exists|j: int| 0 <= j < qs.len() && (#[trigger] qs[j]).0 == v && qs[j].1.face;
        let mc = exists|j: int| 0 <= j < ps.len() && (#[trigger] ps[j]).0 == v && ps[j].1.cell;
        let mf = exists|j: int| 0 <= j < ps.len() && (#[trigger] ps[j]).0 == v && ps[j].1.face;
        if ac {
            let j = choose|j: int| 0 <= j < qs.len() && (#[trigger] qs[j]).0 == v && qs[j].1.cell;
            if j < ps.len() {
                assert(ps[j] == qs[j]);
            }
        }
        if af {
            let j = choose|j: int| 0 <= j < qs.len() && (#[trigger] qs[j]).0 == v && qs[j].1.face;
            if j < ps.len() {
                assert(ps[j] == qs[j]);
            }
        }
        if mc {
            let j = choose|j: int| 0 <= j < ps.len() && (#[trigger] ps[j]).0 == v && ps[j].1.cell;
            assert(ps[j] == qs[j]);
        }
        if mf {
            let j = choose|j: int| 0 <= j < ps.len() && (#[trigger] ps[j]).0 == v && ps[j].1.face;
            assert(ps[j] == qs[j]);
        }
        if m.dom().contains(v) {
            let j = choose|j: int| 0 <= j < ps.len() && (#[trigger] ps[j]).0 == v;
            assert(ps[j] == qs[j]);
        }
    }
    assert(a =~= b);
}

impl RequirementsMap {
    /// `hashbrown::HashMap::new`: the map starts empty.
    #[verifier::external_body]
    fn empty_raw() -> (m: Self)
        ensures
            requirements_contents(m).dom().is_empty(),
    {
        RequirementsMap { inner: hashbrown::HashMap::new() }
    }

    /// `hashbrown::HashMap::get`: the requirement stored for a variable
    /// whose view equals that of `var`, if any. Keys compare by the
    /// `PartialEq` of `Variable`, which compares views, and hash by the
    /// derived `Hash`, which agrees with it.
    #[verifier::external_body]
    fn get_raw(&self, var: &Variable) -> (r: Option<GradRequirements>)
        ensures
            r == (if requirements_contents(*self).dom().contains(var@) {
                Some(requirements_contents(*self)[var@])
            } else {
                None
            }),
    {
        self.inner.get(var).copied()
    }

    /// `hashbrown::HashMap::insert`: afterwards `var` maps to `req` and every
    /// other entry is unchanged.
    #[verifier::external_body]
    fn insert_raw(&mut self, var: Variable, req: GradRequirements)
        ensures
            requirements_contents(*final(self)) == requirements_contents(*old(self)).insert(
                var@,
                req,
            ),
    {
        self.inner.insert(var, req);
    }

    /// `hashbrown::HashMap::iter`, each entry copied out: every entry once,
    /// in an order that the hasher decides.
    #[verifier::external_body]
    fn entries_raw(&self) -> (r: Vec<(Variable, GradRequirements)>)
        ensures
            forall|i: int|
                0 <= i < r@.len() ==> requirements_contents(*self).dom().contains(
                    #[trigger] r@[i].0@,
                ) && requirements_contents(*self)[r@[i].0@] == r@[i].1,
            forall|i: int, j: int|
                0 <= i < j < r@.len() ==> (#[trigger] r@[i]).0@ != (#[trigger] r@[j]).0@,
            forall|v: VariableView|
                #[trigger] requirements_contents(*self).dom().contains(v) ==> exists|i: int|
                    0 <= i < r@.len() && r@[i].0@ == v,
    {
        let mut out = Vec::new();
        for (k, v) in self.inner.iter() {
            out.push((k.clone(), *v));
        }
        out
    }

    /// `hashbrown::HashMap::clone`: a map with the same entries (a key is
    /// copied by `Variable::clone`, which keeps its view; a requirement is
    /// copied as is).
    #[verifier::external_body]
    fn clone_raw(&self) -> (r: Self)
        ensures
            requirements_contents(r) == requirements_contents(*self),
    {
        RequirementsMap { inner: self.inner.clone() }
    }

    /// `PartialEq` of `hashbrown::HashMap`: the maps have the same number of
    /// entries and every key of one holds an equal requirement in the other,
    /// that is, they hold the same requirements.
    #[verifier::external_body]
    fn eq_raw(&self, other: &Self) -> (r: bool)
        ensures
            r == (requirements_contents(*self) == requirements_contents(*other)),
    {
        self.inner == other.inner
    }

    /// An empty map.
    pub fn new() -> (m: Self)
        ensures
            requirements_contents(m).dom().is_empty(),
    {
        Self::empty_raw()
    }

    /// The requirement recorded for `var`, if any.
    pub fn get(&self, var: &Variable) -> (r: Option<GradRequirements>)
        ensures
            r == (if requirements_contents(*self).dom().contains(var@) {
                Some(requirements_contents(*self)[var@])
            } else {
                None
            }),
    {
        self.get_raw(var)
    }

    /// Every variable with its requirement, each once, in the map's order.
    pub fn entries(&self) -> (r: Vec<(Variable, GradRequirements)>)
        ensures
            forall|i: int|
                0 <= i < r@.len() ==> requirements_contents(*self).dom().contains(
                    #[trigger] r@[i].0@,
                ) && requirements_contents(*self)[r@[i].0@] == r@[i].1,
            forall|i: int, j: int|
                0 <= i < j < r@.len() ==> (#[trigger] r@[i]).0@ != (#[trigger] r@[j]).0@,
            forall|v: VariableView|
                #[trigger] requirements_contents(*self).dom().contains(v) ==> exists|i: int|
                    0 <= i < r@.len() && r@[i].0@ == v,
    {
        self.entries_raw()
    }

    /// Records that `var` needs `req`: a new variable gets `req`, a known one
    /// keeps the most restrictive of its requirement and `req`.
    pub fn merge(&mut self, var: Variable, req: GradRequirements)
        ensures
            requirements_contents(*final(self)) == merge_step(
                requirements_contents(*old(self)),
                var@,
                req,
            ),
    {
        match self.get_raw(&var) {
            Some(current) => {
                let mut updated = current;
                updated.update_requirements(&req);
                self.insert_raw(var, updated);
            },
            None => {
                self.insert_raw(var, req);
            },
        }
    }
}

impl Clone for RequirementsMap {
    fn clone(&self) -> (r: Self)
        ensures
            requirements_contents(r) == requirements_contents(*self),
    {
        self.clone_raw()
    }
}

/// Two maps are equal when they hold the same requirement for the same
/// variables.
impl PartialEq for RequirementsMap {
    fn eq(&self, other: &Self) -> (r: bool) {
        self.eq_raw(other)
    }
}

impl PartialEqSpecImpl for RequirementsMap {
    open spec fn obeys_eq_spec() -> bool {
        true
    }

    open spec fn eq_spec(&self, other: &Self) -> bool {
        requirements_contents(*self) == requirements_contents(*other)
    }
}

impl EquationMap {
    /// `hashbrown::HashMap::new`: the map starts empty.
    #[verifier::external_body]
    fn empty_raw() -> (m: Self)
        ensures
            equations_contents(m).dom().is_empty(),
    {
        EquationMap { inner: hashbrown::HashMap::new() }
    }

    /// `hashbrown::HashMap::clone`: the same names, each with a copy made by
    /// `Equation::clone` (same sides, unknown and requirements).
    #[verifier::external_body]
    fn clone_raw(&self) -> (r: Self)
        ensures
            equations_contents(r).dom() == equations_contents(*self).dom(),
            forall|n: Seq<char>|
                #[trigger] equations_contents(r).dom().contains(n) ==> {
                    let (a, b) = (equations_contents(r)[n], equations_contents(*self)[n]);
                    &&& a.spec_lhs() == b.spec_lhs()
                    &&& a.spec_rhs() == b.spec_rhs()
                    &&& a.spec_unknown() == b.spec_unknown()
                    &&& requirements_contents(a.spec_requirements()) == requirements_contents(
                        b.spec_requirements(),
                    )
                },
    {
        EquationMap { inner: self.inner.clone() }
    }

    /// `PartialEq` of `hashbrown::HashMap`: the maps have the same number of
    /// entries and every name of one holds, in the other, an equation equal
    /// to its own by `Equation::eq`.
    #[verifier::external_body]
    fn eq_raw(&self, other: &Self) -> (r: bool)
        ensures
            r == (equations_contents(*self).dom() == equations_contents(*other).dom() && forall|
                n: Seq<char>,
            |
                #[trigger] equations_contents(*self).dom().contains(n) ==> equation_eq(
                    equations_contents(*self)[n],
                    equations_contents(*other)[n],
                )),
    {
        self.inner == other.inner
    }

    /// `hashbrown::HashMap::try_insert`: when no equation has this name the
    /// equation is added and `true` returned; otherwise the map is unchanged
    /// and `false` returned.
    #[verifier::external_body]
    fn try_insert_raw(&mut self, name: String, equation: Equation) -> (added: bool)
        ensures
            added == !equations_contents(*old(self)).dom().contains(name@),
            added ==> equations_contents(*final(self)) == equations_contents(*old(self)).insert(
                name@,
                equation,
            ),
            !added ==> equations_contents(*final(self)) == equations_contents(*old(self)),
    {
        match self.inner.try_insert(name, equation) {
            Ok(_) => true,
            Err(_) => false,
        }
    }

    /// `hashbrown::HashMap::get`: the equation of that name, if any.
    #[verifier::external_body]
    fn get_raw(&self, name: &str) -> (r: Option<&Equation>)
        ensures
            r == (if equations_contents(*self).dom().contains(name@) {
                Some(&equations_contents(*self)[name@])
            } else {
                None
            }),
    {
        self.inner.get(name)
    }

    /// `hashbrown::HashMap::iter`: every equation once, with its name, in an
    /// order that the hasher decides.
    #[verifier::external_body]
    fn entries_raw(&self) -> (r: Vec<(String, &Equation)>)
        ensures
            forall|i: int|
                0 <= i < r@.len() ==> equations_contents(*self).dom().contains(
                    #[trigger] r@[i].0@,
                ) && equations_contents(*self)[r@[i].0@] == *r@[i].1,
            forall|i: int, j: int|
                0 <= i < j < r@.len() ==> (#[trigger] r@[i]).0@ != (#[trigger] r@[j]).0@,
            forall|n: Seq<char>|
                #[trigger] equations_contents(*self).dom().contains(n) ==> exists|i: int|
                    0 <= i < r@.len() && r@[i].0@ == n,
    {
        let mut out = Vec::new();
        for (k, v) in self.inner.iter() {
            out.push((k.clone(), v));
        }
        out
    }

    /// An empty map.
    pub fn new() -> (m: Self)
        ensures
            equations_contents(m).dom().is_empty(),
    {
        Self::empty_raw()
    }

    /// Adds `equation` under `name` when the name is free; says whether it
    /// was added.
    pub fn try_insert(&mut self, name: String, equation: Equation) -> (added: bool)
        ensures
            added == !equations_contents(*old(self)).dom().contains(name@),
            added ==> equations_contents(*final(self)) == equations_contents(*old(self)).insert(
                name@,
                equation,
            ),
            !added ==> equations_contents(*final(self)) == equations_contents(*old(self)),
    {
        self.try_insert_raw(name, equation)
    }

    /// The equation of that name, if any.
    pub fn get(&self, name: &str) -> (r: Option<&Equation>)
        ensures
            r == (if equations_contents(*self).dom().contains(name@) {
                Some(&equations_contents(*self)[name@])
            } else {
                None
            }),
    {
        self.get_raw(name)
    }

    /// Every equation once, with its name, in the map's order.
    pub fn entries(&self) -> (r: Vec<(String, &Equation)>)
        ensures
            forall|i: int|
                0 <= i < r@.len() ==> equations_contents(*self).dom().contains(
                    #[trigger] r@[i].0@,
                ) && equations_contents(*self)[r@[i].0@] == *r@[i].1,
            forall|i: int, j: int|
                0 <= i < j < r@.len() ==> (#[trigger] r@[i]).0@ != (#[trigger] r@[j]).0@,
            forall|n: Seq<char>|
                #[trigger] equations_contents(*self).dom().contains(n) ==> exists|i: int|
                    0 <= i < r@.len() && r@[i].0@ == n,
    {
        self.entries_raw()
    }
}

impl Clone for EquationMap {
    fn clone(&self) -> (r: Self)
        ensures
            equations_contents(r).dom() == equations_contents(*self).dom(),
            forall|n: Seq<char>|
                #[trigger] equations_contents(r).dom().contains(n) ==> {
                    let (a, b) = (equations_contents(r)[n], equations_contents(*self)[n]);
                    &&& a.spec_lhs() == b.spec_lhs()
                    &&& a.spec_rhs() == b.spec_rhs()
                    &&& a.spec_unknown() == b.spec_unknown()
                    &&& requirements_contents(a.spec_requirements()) == requirements_contents(
                        b.spec_requirements(),
                    )
                },
    {
        self.clone_raw()
    }
}

/// Two equation maps are equal when they have the same names, each with
/// equal equations.
impl PartialEq for EquationMap {
    fn eq(&self, other: &Self) -> (r: bool) {
        self.eq_raw(other)
    }
}

impl PartialEqSpecImpl for EquationMap {
    open spec fn obeys_eq_spec() -> bool {
        true
    }

    open spec fn eq_spec(&self, other: &Self) -> bool {
        equations_contents(*self).dom() == equations_contents(*other).dom() && forall|n: Seq<char>|
            #[trigger] equations_contents(*self).dom().contains(n) ==> equation_eq(
                equations_contents(*self)[n],
                equations_contents(*other)[n],
            )
    }
}

} // verus!
