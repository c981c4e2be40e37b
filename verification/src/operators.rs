use vstd::prelude::*;
use crate::requirements::GradRequirements;
use crate::schemes::{ConvectionScheme, DivergenceScheme, LaplacianScheme, Schemes, TimeIntegration};
use crate::variables::{IntegrationCategory, Variable};
use crate::reals::{real_eq, reals_equal};
use vstd::std_specs::cmp::PartialEqSpecImpl;

verus! {

/// A differential operator applied to a variable.
#[derive(Debug)]
pub enum DifferentialOperator {
    Laplacian(Variable, IntegrationCategory),
    Convection { var: Variable, speed: Variable, integration: IntegrationCategory },
    Divergence(Variable, IntegrationCategory),
    TimeDerivative(Variable),
}

/// A leaf of an operator tree that reads a field.
#[derive(Debug)]
pub enum FieldOperator {
    DifferentialOperator(DifferentialOperator),
    Field(Variable, IntegrationCategory),
    Gradient(Variable),
}

/// A two-dimensional vector coefficient, each component carried as the
/// IEEE-754 bit pattern of its `f64` value.
#[derive(Clone, Copy, Debug)]
pub struct VectorBits {
    pub x: u64,
    pub y: u64,
}

/// The calculation graph of one side of an equation.
///
/// Scalar coefficients are carried as the IEEE-754 bit pattern of the `f64`
/// they stand for (`f64::to_bits`), and vector coefficients as a
/// `VectorBits`; the logic here never reads them.
#[derive(Debug)]
pub enum Op {
    Add(Box<(Op, Op)>),
    Sub(Box<(Op, Op)>),
    FieldOperator(FieldOperator),
    MulScalar(u64, Box<Op>),
    MulVector(VectorBits, Box<Op>),
    DivScalar(u64, Box<Op>),
    Scalar(u64),
    Vector2(VectorBits),
}

/// Two vectors are equal when both components are, as `f64` values.
impl PartialEq for VectorBits {
    fn eq(&self, other: &Self) -> (r: bool) {
        reals_equal(self.x, other.x) && reals_equal(self.y, other.y)
    }
}

impl PartialEqSpecImpl for VectorBits {
    open spec fn obeys_eq_spec() -> bool {
        true
    }

    open spec fn eq_spec(&self, other: &Self) -> bool {
        real_eq(self.x, other.x) && real_eq(self.y, other.y)
    }
}

/// Two differential operators are equal when they are the same operator on
/// equal variables with the same integration.
pub open spec fn differential_eq(a: DifferentialOperator, b: DifferentialOperator) -> bool {
    match (a, b) {
        (DifferentialOperator::Laplacian(v, i), DifferentialOperator::Laplacian(w, j)) => v@ == w@
            && i == j,
        (
            DifferentialOperator::Convection { var: v, speed: s, integration: i },
            DifferentialOperator::Convection { var: w, speed: t, integration: j },
        ) => v@ == w@ && s@ == t@ && i == j,
        (DifferentialOperator::Divergence(v, i), DifferentialOperator::Divergence(w, j)) => v@
            == w@ && i == j,
        (DifferentialOperator::TimeDerivative(v), DifferentialOperator::TimeDerivative(w)) => v@
            == w@,
        _ => false,
    }
}

impl PartialEq for DifferentialOperator {
    fn eq(&self, other: &Self) -> (r: bool) {
        match (self, other) {
            (DifferentialOperator::Laplacian(v, i), DifferentialOperator::Laplacian(w, j)) => v.eq(
                w,
            ) && *i == *j,
            (
                DifferentialOperator::Convection { var: v, speed: s, integration: i },
                DifferentialOperator::Convection { var: w, speed: t, integration: j },
            ) => v.eq(w) && s.eq(t) && *i == *j,
            (DifferentialOperator::Divergence(v, i), DifferentialOperator::Divergence(w, j)) => v.eq(
                w,
            ) && *i == *j,
            (DifferentialOperator::TimeDerivative(v), DifferentialOperator::TimeDerivative(w)) =>
                v.eq(w),
            _ => false,
        }
    }
}

impl PartialEqSpecImpl for DifferentialOperator {
    open spec fn obeys_eq_spec() -> bool {
        true
    }

    open spec fn eq_spec(&self, other: &Self) -> bool {
        differential_eq(*self, *other)
    }
}

/// Two field-reading leaves are equal when they are the same kind of leaf
/// on equal operators or variables.
pub open spec fn field_operator_eq(a: FieldOperator, b: FieldOperator) -> bool {
    match (a, b) {
        (FieldOperator::DifferentialOperator(d), FieldOperator::DifferentialOperator(e)) =>
            differential_eq(d, e),
        (FieldOperator::Field(v, i), FieldOperator::Field(w, j)) => v@ == w@ && i == j,
        (FieldOperator::Gradient(v), FieldOperator::Gradient(w)) => v@ == w@,
        _ => false,
    }
}

impl PartialEq for FieldOperator {
    fn eq(&self, other: &Self) -> (r: bool) {
        match (self, other) {
            (FieldOperator::DifferentialOperator(d), FieldOperator::DifferentialOperator(e)) => d.eq(
                e,
            ),
            (FieldOperator::Field(v, i), FieldOperator::Field(w, j)) => v.eq(w) && *i == *j,
            (FieldOperator::Gradient(v), FieldOperator::Gradient(w)) => v.eq(w),
            _ => false,
        }
    }
}

impl PartialEqSpecImpl for FieldOperator {
    open spec fn obeys_eq_spec() -> bool {
        true
    }

    open spec fn eq_spec(&self, other: &Self) -> bool {
        field_operator_eq(*self, *other)
    }
}

/// Two operator trees are equal when they have the same shape, equal leaves
/// and coefficients equal as `f64` values.
pub open spec fn op_eq(a: Op, b: Op) -> bool
    decreases a,
{
    match (a, b) {
        (Op::Add(p), Op::Add(q)) => op_eq(p.0, q.0) && op_eq(p.1, q.1),
        (Op::Sub(p), Op::Sub(q)) => op_eq(p.0, q.0) && op_eq(p.1, q.1),
        (Op::FieldOperator(f), Op::FieldOperator(g)) => field_operator_eq(f, g),
        (Op::MulScalar(s, x), Op::MulScalar(t, y)) => real_eq(s, t) && op_eq(*x, *y),
        (Op::MulVector(v, x), Op::MulVector(w, y)) => real_eq(v.x, w.x) && real_eq(v.y, w.y)
            && op_eq(*x, *y),
        (Op::DivScalar(s, x), Op::DivScalar(t, y)) => real_eq(s, t) && op_eq(*x, *y),
        (Op::Scalar(s), Op::Scalar(t)) => real_eq(s, t),
        (Op::Vector2(v), Op::Vector2(w)) => real_eq(v.x, w.x) && real_eq(v.y, w.y),
        _ => false,
    }
}

fn ops_equal(a: &Op, b: &Op) -> (r: bool)
    ensures
        r == op_eq(*a, *b),
    decreases a,
{
    match (a, b) {
        (Op::Add(p), Op::Add(q)) => ops_equal(&p.0, &q.0) && ops_equal(&p.1, &q.1),
        (Op::Sub(p), Op::Sub(q)) => ops_equal(&p.0, &q.0) && ops_equal(&p.1, &q.1),
        (Op::FieldOperator(f), Op::FieldOperator(g)) => f.eq(g),
        (Op::MulScalar(s, x), Op::MulScalar(t, y)) => reals_equal(*s, *t) && ops_equal(x, y),
        (Op::MulVector(v, x), Op::MulVector(w, y)) => reals_equal(v.x, w.x) && reals_equal(v.y, w.y)
            && ops_equal(x, y),
        (Op::DivScalar(s, x), Op::DivScalar(t, y)) => reals_equal(*s, *t) && ops_equal(x, y),
        (Op::Scalar(s), Op::Scalar(t)) => reals_equal(*s, *t),
        (Op::Vector2(v), Op::Vector2(w)) => reals_equal(v.x, w.x) && reals_equal(v.y, w.y),
        _ => false,
    }
}

impl PartialEq for Op {
    fn eq(&self, other: &Self) -> (r: bool) {
        ops_equal(self, other)
    }
}

impl PartialEqSpecImpl for Op {
    open spec fn obeys_eq_spec() -> bool {
        true
    }

    open spec fn eq_spec(&self, other: &Self) -> bool {
        op_eq(*self, *other)
    }
}

impl DifferentialOperator {
    pub open spec fn spec_variable(self) -> Variable {
        match self {
            DifferentialOperator::Laplacian(var, _) => var,
            DifferentialOperator::Convection { var, .. } => var,
            DifferentialOperator::Divergence(var, _) => var,
            DifferentialOperator::TimeDerivative(var) => var,
        }
    }

    pub open spec fn spec_integration(self) -> Option<IntegrationCategory> {
        match self {
            DifferentialOperator::Laplacian(_, ic) => Some(ic),
            DifferentialOperator::Convection { integration, .. } => Some(integration),
            DifferentialOperator::Divergence(_, ic) => Some(ic),
            DifferentialOperator::TimeDerivative(_) => None,
        }
    }

    pub open spec fn spec_required_grads(self, schemes: Schemes) -> GradRequirements {
        match self {
            DifferentialOperator::Laplacian(..) => schemes.laplacian.spec_required_grads(),
            DifferentialOperator::Convection { .. } => schemes.convection.spec_required_grads(),
            DifferentialOperator::Divergence(..) => schemes.divergence.spec_required_grads(),
            DifferentialOperator::TimeDerivative(..) => schemes.transient.spec_required_grads(),
        }
    }

    /// The variable the operator is applied to (for convection, the
    /// transported variable, not the speed).
    pub fn variable(&self) -> (v: &Variable)
        ensures
            *v == self.spec_variable(),
    {
        match self {
            DifferentialOperator::Laplacian(var, _) => var,
            DifferentialOperator::Convection { var, .. } => var,
            DifferentialOperator::Divergence(var, _) => var,
            DifferentialOperator::TimeDerivative(var) => var,
        }
    }

    /// How the operator is integrated; a time derivative has no category.
    pub fn integration(&self) -> (r: Option<IntegrationCategory>)
        ensures
            r == self.spec_integration(),
    {
        match self {
            DifferentialOperator::Laplacian(_, ic) => Some(*ic),
            DifferentialOperator::Convection { integration, .. } => Some(*integration),
            DifferentialOperator::Divergence(_, ic) => Some(*ic),
            DifferentialOperator::TimeDerivative(_) => None,
        }
    }

    /// The variable the operator reads and the gradients of it that the
    /// chosen scheme needs.
    pub fn required_grads(&self, schemes: &Schemes) -> (r: (&Variable, GradRequirements))
        ensures
            *r.0 == self.spec_variable(),
            r.1 == self.spec_required_grads(*schemes),
    {
        match self {
            DifferentialOperator::Laplacian(var, _) => (var, schemes.laplacian.required_grads()),
            DifferentialOperator::Convection { var, .. } => (
                var,
                schemes.convection.required_grads(),
            ),
            DifferentialOperator::Divergence(var, _) => (var, schemes.divergence.required_grads()),
            DifferentialOperator::TimeDerivative(var) => (var, schemes.transient.required_grads()),
        }
    }
}

/// The discretisation that runs for a differential operator under the
/// chosen schemes, with the variables it reads.
#[derive(Debug, PartialEq)]
pub enum Discretization {
    OrthogonalCorrection(Variable, IntegrationCategory),
    UpwindSecondOrder { var: Variable, speed: Variable, integration: IntegrationCategory },
    CentralDifference { var: Variable, speed: Variable, integration: IntegrationCategory },
    BasicDivergence(Variable, IntegrationCategory),
    ForwardEuler(Variable),
}

impl DifferentialOperator {
    /// The Laplacian, convection, divergence or time scheme of `schemes`
    /// applied to the operator's variables.
    pub open spec fn spec_discretization(self, schemes: Schemes) -> Discretization {
        match self {
            DifferentialOperator::Laplacian(var, ic) => match schemes.laplacian {
                LaplacianScheme::OrthogonalCorrection => Discretization::OrthogonalCorrection(var, ic),
            },
            DifferentialOperator::Convection { var, speed, integration } => match schemes.convection {
                ConvectionScheme::UpwindSecondOrder => Discretization::UpwindSecondOrder {
                    var,
                    speed,
                    integration,
                },
                ConvectionScheme::CentralDifference => Discretization::CentralDifference {
                    var,
                    speed,
                    integration,
                },
            },
            DifferentialOperator::Divergence(var, ic) => match schemes.divergence {
                DivergenceScheme::Basic => Discretization::BasicDivergence(var, ic),
            },
            DifferentialOperator::TimeDerivative(var) => match schemes.transient {
                TimeIntegration::ForwardEuler => Discretization::ForwardEuler(var),
            },
        }
    }

    /// Chooses the discretisation of the operator under `schemes`.
    pub fn discretization(&self, schemes: &Schemes) -> (r: Discretization)
        ensures
            r == self.spec_discretization(*schemes),
    {
        match self {
            DifferentialOperator::Laplacian(var, ic) => match schemes.laplacian {
                LaplacianScheme::OrthogonalCorrection => Discretization::OrthogonalCorrection(
                    var.clone(),
                    *ic,
                ),
            },
            DifferentialOperator::Convection { var, speed, integration } => match schemes.convection {
                ConvectionScheme::UpwindSecondOrder => Discretization::UpwindSecondOrder {
                    var: var.clone(),
                    speed: speed.clone(),
                    integration: *integration,
                },
                ConvectionScheme::CentralDifference => Discretization::CentralDifference {
                    var: var.clone(),
                    speed: speed.clone(),
                    integration: *integration,
                },
            },
            DifferentialOperator::Divergence(var, ic) => match schemes.divergence {
                DivergenceScheme::Basic => Discretization::BasicDivergence(var.clone(), *ic),
            },
            DifferentialOperator::TimeDerivative(var) => match schemes.transient {
                TimeIntegration::ForwardEuler => Discretization::ForwardEuler(var.clone()),
            },
        }
    }
}

impl Clone for DifferentialOperator {
    fn clone(&self) -> (r: Self)
        ensures
            r == *self,
    {
        match self {
            DifferentialOperator::Laplacian(var, ic) => DifferentialOperator::Laplacian(
                var.clone(),
                *ic,
            ),
            DifferentialOperator::Convection { var, speed, integration } =>
                DifferentialOperator::Convection {
                var: var.clone(),
                speed: speed.clone(),
                integration: *integration,
            },
            DifferentialOperator::Divergence(var, ic) => DifferentialOperator::Divergence(
                var.clone(),
                *ic,
            ),
            DifferentialOperator::TimeDerivative(var) => DifferentialOperator::TimeDerivative(
                var.clone(),
            ),
        }
    }
}

impl FieldOperator {
    pub open spec fn spec_variable(self) -> Variable {
        match self {
            FieldOperator::DifferentialOperator(d) => d.spec_variable(),
            FieldOperator::Gradient(var) => var,
            FieldOperator::Field(var, _) => var,
        }
    }

    pub open spec fn spec_required_grads(self, schemes: Schemes) -> GradRequirements {
        match self {
            FieldOperator::DifferentialOperator(d) => d.spec_required_grads(schemes),
            FieldOperator::Gradient(_) => GradRequirements::spec_new(true, false),
            FieldOperator::Field(..) => GradRequirements::spec_new(false, false),
        }
    }

    /// The variable this term makes the unknown of its equation, if any:
    /// time derivatives, and implicit operators and fields, do; gradients
    /// and explicit terms do not.
    pub open spec fn unknown_candidate(self) -> Option<Variable> {
        match self {
            FieldOperator::DifferentialOperator(d) => match d {
                DifferentialOperator::TimeDerivative(var) => Some(var),
                DifferentialOperator::Convection { var, integration, .. } => if integration
                    == IntegrationCategory::Implicit {
                    Some(var)
                } else {
                    None
                },
                DifferentialOperator::Divergence(var, integration) => if integration
                    == IntegrationCategory::Implicit {
                    Some(var)
                } else {
                    None
                },
                DifferentialOperator::Laplacian(var, integration) => if integration
                    == IntegrationCategory::Implicit {
                    Some(var)
                } else {
                    None
                },
            },
            FieldOperator::Gradient(_) => None,
            FieldOperator::Field(var, integration) => if integration
                == IntegrationCategory::Implicit {
                Some(var)
            } else {
                None
            },
        }
    }

    /// The variable the term reads.
    pub fn variable(&self) -> (v: &Variable)
        ensures
            *v == self.spec_variable(),
    {
        match self {
            FieldOperator::DifferentialOperator(diff_op) => diff_op.variable(),
            FieldOperator::Gradient(var) => var,
            FieldOperator::Field(var, _) => var,
        }
    }

    /// The variable the term reads and the gradients of it that it needs.
    pub fn required_grads(&self, schemes: &Schemes) -> (r: (&Variable, GradRequirements))
        ensures
            *r.0 == self.spec_variable(),
            r.1 == self.spec_required_grads(*schemes),
    {
        match self {
            FieldOperator::DifferentialOperator(diff_op) => diff_op.required_grads(schemes),
            FieldOperator::Gradient(var) => (var, GradRequirements::new(true, false)),
            FieldOperator::Field(var, _) => (var, GradRequirements::new(false, false)),
        }
    }
}

impl Clone for FieldOperator {
    fn clone(&self) -> (r: Self)
        ensures
            r == *self,
    {
        match self {
            FieldOperator::DifferentialOperator(d) => FieldOperator::DifferentialOperator(d.clone()),
            FieldOperator::Field(var, ic) => FieldOperator::Field(var.clone(), *ic),
            FieldOperator::Gradient(var) => FieldOperator::Gradient(var.clone()),
        }
    }
}

/// A deep copy of an operator tree.
fn clone_op(op: &Op) -> (r: Op)
    ensures
        r == *op,
    decreases op,
{
    match op {
        Op::Add(pair) => Op::Add(Box::new((clone_op(&pair.0), clone_op(&pair.1)))),
        Op::Sub(pair) => Op::Sub(Box::new((clone_op(&pair.0), clone_op(&pair.1)))),
        Op::FieldOperator(f) => Op::FieldOperator(f.clone()),
        Op::MulScalar(s, inner) => Op::MulScalar(*s, Box::new(clone_op(inner))),
        Op::MulVector(v, inner) => Op::MulVector(*v, Box::new(clone_op(inner))),
        Op::DivScalar(s, inner) => Op::DivScalar(*s, Box::new(clone_op(inner))),
        Op::Scalar(s) => Op::Scalar(*s),
        Op::Vector2(v) => Op::Vector2(*v),
    }
}

impl Clone for Op {
    fn clone(&self) -> (r: Self)
        ensures
            r == *self,
    {
        clone_op(self)
    }
}

impl Op {
    /// The field-reading leaves of the tree, left to right.
    pub open spec fn field_operators(self) -> Seq<FieldOperator>
        decreases self,
    {
        match self {
            Op::Add(pair) => pair.0.field_operators() + pair.1.field_operators(),
            Op::Sub(pair) => pair.0.field_operators() + pair.1.field_operators(),
            Op::MulScalar(_, inner) => inner.field_operators(),
            Op::DivScalar(_, inner) => inner.field_operators(),
            Op::MulVector(_, inner) => inner.field_operators(),
            Op::FieldOperator(f) => seq![f],
            Op::Scalar(_) => Seq::empty(),
            Op::Vector2(_) => Seq::empty(),
        }
    }

    /// Appends the field-reading leaves of the tree to `collector`, left to
    /// right.
    pub fn collect_field_operators(&self, collector: &mut Vec<FieldOperator>)
        ensures
            final(collector)@ == old(collector)@ + self.field_operators(),
        decreases self,
    {
        match self {
            Op::Add(pair) => {
                pair.0.collect_field_operators(collector);
                pair.1.collect_field_operators(collector);
            },
            Op::Sub(pair) => {
                pair.0.collect_field_operators(collector);
                pair.1.collect_field_operators(collector);
            },
            Op::MulScalar(_, inner) => {
                inner.collect_field_operators(collector);
            },
            Op::DivScalar(_, inner) => {
                inner.collect_field_operators(collector);
            },
            Op::MulVector(_, inner) => {
                inner.collect_field_operators(collector);
            },
            Op::FieldOperator(f_op) => {
                collector.push(f_op.clone());
            },
            Op::Scalar(_) => {},
            Op::Vector2(_) => {},
        }
        assert(final(collector)@ =~= old(collector)@ + self.field_operators());
    }
}

impl Op {
    /// The differential operators among the leaves of the tree, left to
    /// right.
    pub open spec fn differential_operators(self) -> Seq<DifferentialOperator>
        decreases self,
    {
        match self {
            Op::Add(pair) => pair.0.differential_operators() + pair.1.differential_operators(),
            Op::Sub(pair) => pair.0.differential_operators() + pair.1.differential_operators(),
            Op::MulScalar(_, inner) => inner.differential_operators(),
            Op::DivScalar(_, inner) => inner.differential_operators(),
            Op::MulVector(_, inner) => inner.differential_operators(),
            Op::FieldOperator(FieldOperator::DifferentialOperator(d)) => seq![d],
            Op::FieldOperator(_) => Seq::empty(),
            Op::Scalar(_) => Seq::empty(),
            Op::Vector2(_) => Seq::empty(),
        }
    }

    /// Appends the differential operators among the leaves of the tree to
    /// `collector`, left to right.
    pub fn collect_differential_operators(&self, collector: &mut Vec<DifferentialOperator>)
        ensures
            final(collector)@ == old(collector)@ + self.differential_operators(),
        decreases self,
    {
        match self {
            Op::Add(pair) => {
                pair.0.collect_differential_operators(collector);
                pair.1.collect_differential_operators(collector);
            },
            Op::Sub(pair) => {
                pair.0.collect_differential_operators(collector);
                pair.1.collect_differential_operators(collector);
            },
            Op::MulScalar(_, inner) => {
                inner.collect_differential_operators(collector);
            },
            Op::DivScalar(_, inner) => {
                inner.collect_differential_operators(collector);
            },
            Op::MulVector(_, inner) => {
                inner.collect_differential_operators(collector);
            },
            Op::FieldOperator(FieldOperator::DifferentialOperator(d)) => {
                collector.push(d.clone());
            },
            Op::FieldOperator(_) => {},
            Op::Scalar(_) => {},
            Op::Vector2(_) => {},
        }
        assert(final(collector)@ =~= old(collector)@ + self.differential_operators());
    }
}

/// `lhs + rhs` as an operator tree.
impl core::ops::Add for Op {
    type Output = Op;

    fn add(self, rhs: Op) -> (r: Op)
        ensures
            r == Op::Add(Box::new((self, rhs))),
    {
        Op::Add(Box::new((self, rhs)))
    }
}

impl vstd::std_specs::ops::AddSpecImpl for Op {
    open spec fn obeys_add_spec() -> bool {
        true
    }

    open spec fn add_req(self, rhs: Op) -> bool {
        true
    }

    open spec fn add_spec(self, rhs: Op) -> Op {
        Op::Add(Box::new((self, rhs)))
    }
}

/// `lhs - rhs` as an operator tree.
impl core::ops::Sub for Op {
    type Output = Op;

    fn sub(self, rhs: Op) -> (r: Op)
        ensures
            r == Op::Sub(Box::new((self, rhs))),
    {
        Op::Sub(Box::new((self, rhs)))
    }
}

impl vstd::std_specs::ops::SubSpecImpl for Op {
    open spec fn obeys_sub_spec() -> bool {
        true
    }

    open spec fn sub_req(self, rhs: Op) -> bool {
        true
    }

    open spec fn sub_spec(self, rhs: Op) -> Op {
        Op::Sub(Box::new((self, rhs)))
    }
}

/// The Laplacian of `var`, integrated as `integration` says.
pub fn laplacian(var: Variable, integration: IntegrationCategory) -> (r: Op)
    ensures
        r == Op::FieldOperator(
            FieldOperator::DifferentialOperator(DifferentialOperator::Laplacian(var, integration)),
        ),
{
    Op::FieldOperator(
        FieldOperator::DifferentialOperator(DifferentialOperator::Laplacian(var, integration)),
    )
}

/// The divergence of `var`, integrated as `integration` says.
pub fn divergence(var: Variable, integration: IntegrationCategory) -> (r: Op)
    ensures
        r == Op::FieldOperator(
            FieldOperator::DifferentialOperator(DifferentialOperator::Divergence(var, integration)),
        ),
{
    Op::FieldOperator(
        FieldOperator::DifferentialOperator(DifferentialOperator::Divergence(var, integration)),
    )
}

/// The gradient of `var`.
pub fn gradient(var: Variable) -> (r: Op)
    ensures
        r == Op::FieldOperator(FieldOperator::Gradient(var)),
{
    Op::FieldOperator(FieldOperator::Gradient(var))
}

/// The convection of `var` by the velocity `speed`.
pub fn convection(var: Variable, speed: Variable, integration: IntegrationCategory) -> (r: Op)
    ensures
        r == Op::FieldOperator(
            FieldOperator::DifferentialOperator(
                DifferentialOperator::Convection { var, speed, integration },
            ),
        ),
{
    Op::FieldOperator(
        FieldOperator::DifferentialOperator(
            DifferentialOperator::Convection { var: var, speed: speed, integration: integration },
        ),
    )
}

/// The time derivative of `var`.
pub fn time_derivative(var: Variable) -> (r: Op)
    ensures
        r == Op::FieldOperator(
            FieldOperator::DifferentialOperator(DifferentialOperator::TimeDerivative(var)),
        ),
{
    Op::FieldOperator(FieldOperator::DifferentialOperator(DifferentialOperator::TimeDerivative(var)))
}

/// The leaves of a difference are those of its left side followed by those
/// of its right side.
pub proof fn lemma_sub_field_operators(lhs: Op, rhs: Op)
    ensures
        Op::Sub(Box::new((lhs, rhs))).field_operators() == lhs.field_operators()
            + rhs.field_operators(),
        Op::Add(Box::new((lhs, rhs))).field_operators() == lhs.field_operators()
            + rhs.field_operators(),
{
}

/// The differential operators among `fs`, in order.
pub open spec fn differential_among(fs: Seq<FieldOperator>) -> Seq<DifferentialOperator>
    decreases fs.len(),
{
    if fs.len() == 0 {
        Seq::empty()
    } else {
        differential_among(fs.drop_last()) + match fs.last() {
            FieldOperator::DifferentialOperator(d) => seq![d],
            _ => Seq::empty(),
        }
    }
}

proof fn lemma_differential_among_concat(a: Seq<FieldOperator>, b: Seq<FieldOperator>)
    ensures
        differential_among(a + b) == differential_among(a) + differential_among(b),
    decreases b.len(),
{
    if b.len() == 0 {
        assert(a + b =~= a);
        assert(differential_among(a) + differential_among(b) =~= differential_among(a));
    } else {
        assert((a + b).drop_last() =~= a + b.drop_last());
        assert((a + b).last() == b.last());
        lemma_differential_among_concat(a, b.drop_last());
        let tail = match b.last() {
            FieldOperator::DifferentialOperator(d) => seq![d],
            _ => Seq::<DifferentialOperator>::empty(),
        };
        assert(differential_among(a) + differential_among(b.drop_last()) + tail =~= differential_among(
            a,
        ) + (differential_among(b.drop_last()) + tail));
    }
}

/// The differential operators of a tree are its field-reading leaves that
/// are differential operators, in the same order.
pub proof fn lemma_differential_operators_among_leaves(op: Op)
    ensures
        op.differential_operators() == differential_among(op.field_operators()),
    decreases op,
{
    match op {
        Op::Add(pair) => {
            lemma_differential_operators_among_leaves(pair.0);
            lemma_differential_operators_among_leaves(pair.1);
            lemma_differential_among_concat(pair.0.field_operators(), pair.1.field_operators());
        },
        Op::Sub(pair) => {
            lemma_differential_operators_among_leaves(pair.0);
            lemma_differential_operators_among_leaves(pair.1);
            lemma_differential_among_concat(pair.0.field_operators(), pair.1.field_operators());
        },
        Op::MulScalar(_, inner) => {
            lemma_differential_operators_among_leaves(*inner);
        },
        Op::DivScalar(_, inner) => {
            lemma_differential_operators_among_leaves(*inner);
        },
        Op::MulVector(_, inner) => {
            lemma_differential_operators_among_leaves(*inner);
        },
        Op::FieldOperator(f) => {
            let fs = op.field_operators();
            assert(fs.drop_last() =~= Seq::<FieldOperator>::empty());
            assert(differential_among(fs.drop_last()) =~= Seq::<DifferentialOperator>::empty());
            assert(op.differential_operators() =~= differential_among(fs));
        },
        _ => {
            assert(differential_among(op.field_operators()) =~= Seq::<DifferentialOperator>::empty());
        },
    }
}

/// The unknown a term names is the variable it reads (for a convection, the
/// transported variable, never the speed), and a term names one exactly
/// when it is a time derivative or is integrated implicitly: an explicit
/// term or a gradient names none.
pub proof fn lemma_unknown_candidate_law(f: FieldOperator)
    ensures
        f.unknown_candidate() matches Some(v) ==> v == f.spec_variable(),
        f matches FieldOperator::DifferentialOperator(d) ==> (f.unknown_candidate() is Some
            <==> d.spec_integration() != Some(IntegrationCategory::Explicit)),
        f matches FieldOperator::Field(_, ic) ==> (f.unknown_candidate() is Some <==> ic
            == IntegrationCategory::Implicit),
        f is Gradient ==> f.unknown_candidate() is None,
        f matches FieldOperator::DifferentialOperator(
            DifferentialOperator::Convection { var, speed, integration },
        ) ==> f.spec_variable() == var,
{
}

/// The discretisation of an operator keeps its variables in their roles and
/// its integration: a convection of `var` by `speed` is discretised as the
/// transport of `var` by `speed`, with the convection scheme that the
/// schemes choose; every other operator keeps its variable.
pub proof fn lemma_discretization_law(d: DifferentialOperator, schemes: Schemes)
    ensures
        d matches DifferentialOperator::Convection { var, speed, integration } ==> {
            let r = d.spec_discretization(schemes);
            &&& schemes.convection is UpwindSecondOrder ==> r == Discretization::UpwindSecondOrder {
                var,
                speed,
                integration,
            }
            &&& schemes.convection is CentralDifference ==> r == Discretization::CentralDifference {
                var,
                speed,
                integration,
            }
            &&& var == d.spec_variable()
        },
        d matches DifferentialOperator::Laplacian(v, ic) ==> d.spec_discretization(schemes)
            == Discretization::OrthogonalCorrection(d.spec_variable(), ic) && v == d.spec_variable(),
        d matches DifferentialOperator::Divergence(v, ic) ==> d.spec_discretization(schemes)
            == Discretization::BasicDivergence(d.spec_variable(), ic) && v == d.spec_variable(),
        d is TimeDerivative ==> d.spec_discretization(schemes) == Discretization::ForwardEuler(
            d.spec_variable(),
        ),
{
}

} // verus!
