use vstd::prelude::*;
use crate::equation::{equation_terms, terms_requirements, unknown_candidates, Equation};
use crate::equations_set::EquationsSet;
use crate::maps::{equations_contents, requirements_contents};
use crate::operators::{
    convection, divergence, gradient, laplacian, time_derivative, DifferentialOperator,
    FieldOperator, Op,
};
use crate::schemes::Schemes;
use crate::variables::{ControlVolumeType, Dimension, IntegrationCategory, Variable, VariableView};

verus! {

/// `op` is the implicit field of a variable with view `v`.
pub open spec fn is_implicit_field(op: Op, v: VariableView) -> bool {
    op matches Op::FieldOperator(FieldOperator::Field(x, IntegrationCategory::Implicit)) && x@ == v
}

/// `op` is the field operator `f` applied as is.
pub open spec fn is_leaf(op: Op, f: spec_fn(FieldOperator) -> bool) -> bool {
    op matches Op::FieldOperator(g) && f(g)
}

/// `op` is `s` (the bits of an `f64`) times an operator meeting `f`.
pub open spec fn is_scaled_leaf(op: Op, s: u64, f: spec_fn(FieldOperator) -> bool) -> bool {
    op matches Op::MulScalar(t, inner) && t == s && is_leaf(*inner, f)
}

/// The time derivative of a variable with view `v`.
pub open spec fn time_derivative_of(v: VariableView) -> spec_fn(FieldOperator) -> bool {
    |g: FieldOperator|
        g matches FieldOperator::DifferentialOperator(DifferentialOperator::TimeDerivative(x))
            && x@ == v
}

/// The explicit convection of `v` by the velocity `speed`.
pub open spec fn explicit_convection_of(v: VariableView, speed: VariableView) -> spec_fn(
    FieldOperator,
) -> bool {
    |g: FieldOperator|
        g matches FieldOperator::DifferentialOperator(
            DifferentialOperator::Convection { var, speed: s, integration: IntegrationCategory::Explicit },
        ) && var@ == v && s@ == speed
}

/// The Laplacian of `v`, integrated as `ic` says.
pub open spec fn laplacian_of(v: VariableView, ic: IntegrationCategory) -> spec_fn(
    FieldOperator,
) -> bool {
    |g: FieldOperator|
        g matches FieldOperator::DifferentialOperator(DifferentialOperator::Laplacian(x, i))
            && x@ == v && i == ic
}

/// The explicit divergence of `v`.
pub open spec fn explicit_divergence_of(v: VariableView) -> spec_fn(FieldOperator) -> bool {
    |g: FieldOperator|
        g matches FieldOperator::DifferentialOperator(
            DifferentialOperator::Divergence(x, IntegrationCategory::Explicit),
        ) && x@ == v
}

/// The gradient of `v`.
pub open spec fn gradient_of(v: VariableView) -> spec_fn(FieldOperator) -> bool {
    |g: FieldOperator| g matches FieldOperator::Gradient(x) && x@ == v
}

/// The variables of the pressure-velocity case on `cvt`: the pressure `P`,
/// the velocity `U`, the pressure gradient and the velocity divergence.
pub open spec fn pressure(cvt: ControlVolumeType) -> VariableView {
    ("P"@, Dimension::Scalar, cvt)
}

pub open spec fn velocity(cvt: ControlVolumeType) -> VariableView {
    ("U"@, Dimension::Vector2, cvt)
}

pub open spec fn pressure_gradient(cvt: ControlVolumeType) -> VariableView {
    ("grad(P)"@, Dimension::Vector2, cvt)
}

pub open spec fn velocity_divergence(cvt: ControlVolumeType) -> VariableView {
    ("div(U)"@, Dimension::Scalar, cvt)
}

/// The equations of the pressure-velocity case, by name:
/// - `Div`: the velocity divergence (implicit) equals the explicit
///   divergence of `U`;
/// - `Grad`: the pressure gradient (implicit) equals the gradient of `P`;
/// - `Prediction`: the time derivative of `U` plus its explicit convection
///   by itself equals the viscosity times its explicit Laplacian;
/// - `Poisson`: the implicit Laplacian of `P` equals the density over the
///   time step times the explicit divergence of `U`;
/// - `Correction`: the time derivative of `U` equals minus the inverse
///   density times the gradient of `P`;
/// each with the unknown its implicit term or time derivative names and
/// the gradient requirements that `schemes` give its terms.
pub open spec fn simple_case_equations(
    eqs: Map<Seq<char>, Equation>,
    cvt: ControlVolumeType,
    viscosity: u64,
    density_over_time_step: u64,
    minus_inverse_density: u64,
    schemes: Schemes,
) -> bool {
    let (p, u, gp, du) = (pressure(cvt), velocity(cvt), pressure_gradient(cvt), velocity_divergence(cvt));
    &&& eqs.dom() == set!["Div"@, "Grad"@, "Prediction"@, "Poisson"@, "Correction"@]
    &&& is_implicit_field(eqs["Div"@].spec_lhs(), du)
    &&& is_leaf(eqs["Div"@].spec_rhs(), explicit_divergence_of(u))
    &&& eqs["Div"@].spec_unknown()@ == du
    &&& is_implicit_field(eqs["Grad"@].spec_lhs(), gp)
    &&& is_leaf(eqs["Grad"@].spec_rhs(), gradient_of(p))
    &&& eqs["Grad"@].spec_unknown()@ == gp
    &&& eqs["Prediction"@].spec_lhs() matches Op::Add(pair) && is_leaf(
        pair.0,
        time_derivative_of(u),
    ) && is_leaf(pair.1, explicit_convection_of(u, u))
    &&& is_scaled_leaf(
        eqs["Prediction"@].spec_rhs(),
        viscosity,
        laplacian_of(u, IntegrationCategory::Explicit),
    )
    &&& eqs["Prediction"@].spec_unknown()@ == u
    &&& is_leaf(eqs["Poisson"@].spec_lhs(), laplacian_of(p, IntegrationCategory::Implicit))
    &&& is_scaled_leaf(eqs["Poisson"@].spec_rhs(), density_over_time_step, explicit_divergence_of(u))
    &&& eqs["Poisson"@].spec_unknown()@ == p
    &&& is_leaf(eqs["Correction"@].spec_lhs(), time_derivative_of(u))
    &&& is_scaled_leaf(eqs["Correction"@].spec_rhs(), minus_inverse_density, gradient_of(p))
    &&& eqs["Correction"@].spec_unknown()@ == u
    &&& built_with(eqs["Div"@], schemes)
    &&& built_with(eqs["Grad"@], schemes)
    &&& built_with(eqs["Prediction"@], schemes)
    &&& built_with(eqs["Poisson"@], schemes)
    &&& built_with(eqs["Correction"@], schemes)
}

/// The gradient requirements of `eq` are those that `schemes` give its
/// terms.
pub open spec fn built_with(eq: Equation, schemes: Schemes) -> bool {
    requirements_contents(eq.spec_requirements()) == terms_requirements(
        equation_terms(eq.spec_lhs(), eq.spec_rhs()),
        schemes,
    )
}

/// Builds and adds one equation that is known to be valid.
fn add_valid(set: &mut EquationsSet, name: &'static str, lhs: Op, rhs: Op, schemes: &Schemes)
    requires
        unknown_candidates(equation_terms(lhs, rhs)).len() > 0,
        forall|j: int|
            0 <= j < unknown_candidates(equation_terms(lhs, rhs)).len() ==> (#[trigger] unknown_candidates(
                equation_terms(lhs, rhs),
            )[j])@ == unknown_candidates(equation_terms(lhs, rhs))[0]@,
        !equations_contents(old(set).map).dom().contains(name@),
    ensures
        equations_contents(final(set).map).dom() == equations_contents(old(set).map).dom().insert(
            name@,
        ),
        forall|n: Seq<char>|
            #[trigger] equations_contents(old(set).map).dom().contains(n) ==> equations_contents(
                final(set).map,
            )[n] == equations_contents(old(set).map)[n],
        equations_contents(final(set).map)[name@].spec_lhs() == lhs,
        equations_contents(final(set).map)[name@].spec_rhs() == rhs,
        equations_contents(final(set).map)[name@].spec_unknown() == unknown_candidates(
            equation_terms(lhs, rhs),
        )[0],
        built_with(equations_contents(final(set).map)[name@], *schemes),
{
    match Equation::new(lhs, rhs, schemes) {
        Ok(eq) => {
            let added = set.map.try_insert(name.to_string(), eq);
            assert(added);
        },
        Err(_) => {
            unreached()
        },
    }
}

/// The equations of the pressure-velocity (SIMPLE) case on `cvt` control
/// volumes, with the viscosity, the density over the time step and minus
/// the inverse density given as the bits of `f64` values. Every equation is
/// valid: each names one unknown.
pub fn simple_equations(
    cvt: ControlVolumeType,
    viscosity: u64,
    density_over_time_step: u64,
    minus_inverse_density: u64,
    schemes: &Schemes,
) -> (r: EquationsSet)
    ensures
        simple_case_equations(
            equations_contents(r.map),
            cvt,
            viscosity,
            density_over_time_step,
            minus_inverse_density,
            *schemes,
        ),
{
    proof {
        reveal_strlit("Div");
        reveal_strlit("Grad");
        reveal_strlit("Prediction");
        reveal_strlit("Poisson");
        reveal_strlit("Correction");
        reveal_with_fuel(unknown_candidates, 3);
        assert("Div"@.len() == 3);
        assert("Grad"@.len() == 4);
        assert("Prediction"@.len() == 10);
        assert("Poisson"@.len() == 7);
        assert("Correction"@.len() == 10);
        assert("Prediction"@[0] != "Correction"@[0]);
    }
    let p = Variable::new("P".to_string(), Dimension::Scalar, cvt);
    let u = Variable::new("U".to_string(), Dimension::Vector2, cvt);
    let grad_p = Variable::new("grad(P)".to_string(), Dimension::Vector2, cvt);
    let div_u = Variable::new("div(U)".to_string(), Dimension::Scalar, cvt);
    let mut equations = EquationsSet::new();

    let lhs = Op::FieldOperator(FieldOperator::Field(div_u.clone(), IntegrationCategory::Implicit));
    let rhs = divergence(u.clone(), IntegrationCategory::Explicit);
    proof {
        assert(equation_terms(lhs, rhs).drop_last() =~= seq![lhs->FieldOperator_0]);
        assert(equation_terms(lhs, rhs).drop_last().drop_last() =~= Seq::<FieldOperator>::empty());
    }
    add_valid(&mut equations, "Div", lhs, rhs, schemes);
    let ghost c1 = equations_contents(equations.map);

    let lhs = Op::FieldOperator(FieldOperator::Field(grad_p.clone(), IntegrationCategory::Implicit));
    let rhs = gradient(p.clone());
    proof {
        assert(equation_terms(lhs, rhs).drop_last() =~= seq![lhs->FieldOperator_0]);
        assert(equation_terms(lhs, rhs).drop_last().drop_last() =~= Seq::<FieldOperator>::empty());
    }
    add_valid(&mut equations, "Grad", lhs, rhs, schemes);
    let ghost c2 = equations_contents(equations.map);
    assert(c1.dom().contains("Div"@));
    assert(c2["Div"@] == c1["Div"@]);

    let td = time_derivative(u.clone());
    let conv = convection(u.clone(), u.clone(), IntegrationCategory::Explicit);
    let lap = laplacian(u.clone(), IntegrationCategory::Explicit);
    proof {
        assert(td.field_operators() =~= seq![td->FieldOperator_0]);
        assert(conv.field_operators() =~= seq![conv->FieldOperator_0]);
        assert(lap.field_operators() =~= seq![lap->FieldOperator_0]);
    }
    let lhs = td + conv;
    let rhs = Op::MulScalar(viscosity, Box::new(lap));
    proof {
        let t = equation_terms(lhs, rhs);
        assert(lhs.field_operators() =~= seq![td->FieldOperator_0, conv->FieldOperator_0]);
        assert(rhs.field_operators() =~= seq![lap->FieldOperator_0]);
        assert(t.len() == 3);
        assert(t.drop_last().drop_last() =~= seq![t[0]]);
        assert(t.drop_last().drop_last().drop_last() =~= Seq::<FieldOperator>::empty());
        assert(t.drop_last().last() == t[1]);
        assert(t.last() == t[2]);
        assert(unknown_candidates(t.drop_last().drop_last()) =~= seq![u]);
    }
    add_valid(&mut equations, "Prediction", lhs, rhs, schemes);
    let ghost c3 = equations_contents(equations.map);
    assert(c2.dom().contains("Div"@) && c2.dom().contains("Grad"@));
    assert(c3["Div"@] == c1["Div"@] && c3["Grad"@] == c2["Grad"@]);

    let lhs = laplacian(p.clone(), IntegrationCategory::Implicit);
    let rhs = Op::MulScalar(
        density_over_time_step,
        Box::new(divergence(u.clone(), IntegrationCategory::Explicit)),
    );
    proof {
        assert(equation_terms(lhs, rhs).drop_last() =~= seq![lhs->FieldOperator_0]);
        assert(equation_terms(lhs, rhs).drop_last().drop_last() =~= Seq::<FieldOperator>::empty());
    }
    add_valid(&mut equations, "Poisson", lhs, rhs, schemes);
    let ghost c4 = equations_contents(equations.map);
    assert(c3.dom().contains("Div"@) && c3.dom().contains("Grad"@) && c3.dom().contains(
        "Prediction"@,
    ));
    assert(c4["Div"@] == c1["Div"@] && c4["Grad"@] == c2["Grad"@] && c4["Prediction"@]
        == c3["Prediction"@]);

    let lhs = time_derivative(u.clone());
    let rhs = Op::MulScalar(minus_inverse_density, Box::new(gradient(p.clone())));
    proof {
        assert(equation_terms(lhs, rhs).drop_last() =~= seq![lhs->FieldOperator_0]);
        assert(equation_terms(lhs, rhs).drop_last().drop_last() =~= Seq::<FieldOperator>::empty());
    }
    add_valid(&mut equations, "Correction", lhs, rhs, schemes);
    proof {
        let c5 = equations_contents(equations.map);
        assert(c4.dom().contains("Div"@) && c4.dom().contains("Grad"@) && c4.dom().contains(
            "Prediction"@,
        ) && c4.dom().contains("Poisson"@));
        assert(c5["Div"@] == c1["Div"@]);
        assert(c5["Grad"@] == c2["Grad"@]);
        assert(c5["Prediction"@] == c3["Prediction"@]);
        assert(c5["Poisson"@] == c4["Poisson"@]);
        assert(c5.dom() =~= set!["Div"@, "Grad"@, "Prediction"@, "Poisson"@, "Correction"@]);
    }
    equations
}

} // verus!
