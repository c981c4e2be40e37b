use cfd_rs::equation::{CfdError, Equation};
use cfd_rs::operators::{convection, divergence, gradient, laplacian, time_derivative, DifferentialOperator, Discretization, FieldOperator, Op, VectorBits};
use cfd_rs::requirements::GradRequirements;
use cfd_rs::schemes::{ConvectionScheme, DivergenceScheme, LaplacianScheme, Schemes, TimeIntegration};
use cfd_rs::variables::{ControlVolumeType, Dimension, IntegrationCategory, Variable};

fn schemes() -> Schemes {
    Schemes {
        transient: TimeIntegration::ForwardEuler,
        laplacian: LaplacianScheme::OrthogonalCorrection,
        convection: ConvectionScheme::UpwindSecondOrder,
        divergence: DivergenceScheme::Basic,
    }
}

fn var(name: &str, dim: Dimension) -> Variable {
    Variable::new(name.to_string(), dim, ControlVolumeType::Cells)
}

#[test]
fn poisson_equation_has_its_unknown() {
    let t = var("T", Dimension::Scalar);
    let lhs = laplacian(t.clone(), IntegrationCategory::Implicit);
    let rhs = Op::Scalar(0.0f64.to_bits());
    let eq = Equation::new(lhs, rhs, &schemes()).expect("valid equation");
    assert_eq!(eq.unknown(), &t);
    assert_eq!(eq.fields_required().get(&t), Some(GradRequirements::new(false, true)));
    assert_eq!(eq.fields_required().entries().len(), 1);
    assert_eq!(eq.rhs(), &Op::Scalar(0.0f64.to_bits()));
}

#[test]
fn equation_without_unknown_is_refused() {
    let t = var("T", Dimension::Scalar);
    let lhs = laplacian(t.clone(), IntegrationCategory::Explicit);
    let rhs = gradient(t.clone());
    match Equation::new(lhs.clone(), rhs.clone(), &schemes()) {
        Err(CfdError::EquationNoUnknown { lhs: l, rhs: r }) => {
            assert_eq!(l, lhs);
            assert_eq!(r, rhs);
        }
        other => panic!("unexpected {:?}", other),
    }
}

#[test]
fn equation_with_two_unknowns_is_refused() {
    let u = var("U", Dimension::Vector2);
    let p = var("P", Dimension::Scalar);
    let lhs = time_derivative(u.clone()) + laplacian(p.clone(), IntegrationCategory::Implicit);
    let rhs = Op::Scalar(1.0f64.to_bits());
    match Equation::new(lhs, rhs, &schemes()) {
        Err(CfdError::EquationInconsistentUnknown { var1, var2, .. }) => {
            assert_eq!(var1, u);
            assert_eq!(var2, p);
        }
        other => panic!("unexpected {:?}", other),
    }
}

#[test]
fn requirements_of_a_variable_are_merged() {
    let u = var("U", Dimension::Vector2);
    let p = var("P", Dimension::Scalar);
    // prediction step: dU/dt + conv(U, U) = nu * lap(U)
    let lhs = time_derivative(u.clone()) + convection(u.clone(), u.clone(), IntegrationCategory::Explicit);
    let rhs = Op::MulScalar(1.0f64.to_bits(), Box::new(laplacian(u.clone(), IntegrationCategory::Explicit)));
    let eq = Equation::new(lhs, rhs, &schemes()).expect("valid");
    assert_eq!(eq.unknown(), &u);
    assert_eq!(eq.fields_required().get(&u), Some(GradRequirements::new(true, true)));
    assert_eq!(eq.fields_required().get(&p), None);

    // pressure equation: lap(P) = c * div(U)
    let lhs = laplacian(p.clone(), IntegrationCategory::Implicit);
    let rhs = Op::MulScalar(2.0f64.to_bits(), Box::new(divergence(u.clone(), IntegrationCategory::Explicit)));
    let eq = Equation::new(lhs, rhs, &schemes()).expect("valid");
    assert_eq!(eq.unknown(), &p);
    assert_eq!(eq.fields_required().get(&p), Some(GradRequirements::new(false, true)));
    assert_eq!(eq.fields_required().get(&u), Some(GradRequirements::new(true, false)));
}

#[test]
fn implicit_field_and_gradient_terms() {
    let g = var("grad(P)", Dimension::Vector2);
    let p = var("P", Dimension::Scalar);
    let lhs = Op::FieldOperator(FieldOperator::Field(g.clone(), IntegrationCategory::Implicit));
    let rhs = gradient(p.clone());
    let eq = Equation::new(lhs, rhs, &schemes()).expect("valid");
    assert_eq!(eq.unknown(), &g);
    assert_eq!(eq.fields_required().get(&g), Some(GradRequirements::new(false, false)));
    assert_eq!(eq.fields_required().get(&p), Some(GradRequirements::new(true, false)));
}

#[test]
fn swapping_sides_keeps_unknown_and_requirements() {
    let u = var("U", Dimension::Vector2);
    let p = var("P", Dimension::Scalar);
    let a = time_derivative(u.clone());
    let b = Op::MulVector(VectorBits { x: 1.0f64.to_bits(), y: 0 }, Box::new(gradient(p.clone())));
    let e1 = Equation::new(a.clone(), b.clone(), &schemes()).expect("valid");
    let e2 = Equation::new(b, a, &schemes()).expect("valid");
    assert_eq!(e1.unknown(), e2.unknown());
    assert_eq!(e1.fields_required().get(&u), e2.fields_required().get(&u));
    assert_eq!(e1.fields_required().get(&p), e2.fields_required().get(&p));
    assert_eq!(e1.fields_required().entries().len(), e2.fields_required().entries().len());
}

#[test]
fn collect_field_operators_goes_left_to_right() {
    let u = var("U", Dimension::Vector2);
    let p = var("P", Dimension::Scalar);
    let op = Op::DivScalar(3.0f64.to_bits(), Box::new(gradient(p.clone()) - time_derivative(u.clone())));
    let mut collected = vec![];
    op.collect_field_operators(&mut collected);
    assert_eq!(collected.len(), 2);
    assert_eq!(collected[0], FieldOperator::Gradient(p.clone()));
    assert_eq!(collected[0].variable(), &p);
    assert_eq!(collected[1].variable(), &u);
    assert_eq!(collected[1].required_grads(&schemes()).1, GradRequirements::new(false, false));
}

#[test]
fn variable_accessors() {
    let v = Variable::new("T".to_string(), Dimension::Scalar, ControlVolumeType::Nodes);
    assert_eq!(v.name(), "T");
    assert_eq!(v.dim(), &Dimension::Scalar);
    assert_eq!(v.cvt(), &ControlVolumeType::Nodes);
    assert_eq!(v.clone(), v);
    assert_ne!(v, Variable::new("T".to_string(), Dimension::Scalar, ControlVolumeType::Cells));
}

#[test]
fn cfd_error_default_is_unspecified() {
    assert_eq!(CfdError::default(), CfdError::Unspecified);
}

#[test]
fn equation_collects_its_terms() {
    let u = var("U", Dimension::Vector2);
    let p = var("P", Dimension::Scalar);
    let lhs = time_derivative(u.clone()) + convection(u.clone(), u.clone(), IntegrationCategory::Explicit);
    let rhs = gradient(p.clone()) - divergence(u.clone(), IntegrationCategory::Explicit);
    let eq = Equation::new(lhs, rhs, &schemes()).unwrap();
    let fields = eq.collect_field_operators();
    assert_eq!(fields.len(), 4);
    assert_eq!(fields[2], FieldOperator::Gradient(p.clone()));
    let diffs = eq.collect_differential_operators();
    assert_eq!(diffs.len(), 3);
    assert_eq!(diffs[0], DifferentialOperator::TimeDerivative(u.clone()));
    assert_eq!(diffs[2], DifferentialOperator::Divergence(u.clone(), IntegrationCategory::Explicit));
    let mut from_op = Vec::new();
    eq.rhs().collect_differential_operators(&mut from_op);
    assert_eq!(from_op, vec![DifferentialOperator::Divergence(u, IntegrationCategory::Explicit)]);
}

#[test]
fn schemes_pick_the_discretization() {
    let u = var("U", Dimension::Vector2);
    let conv = DifferentialOperator::Convection { var: u.clone(), speed: u.clone(), integration: IntegrationCategory::Explicit };
    assert_eq!(
        conv.discretization(&schemes()),
        Discretization::UpwindSecondOrder { var: u.clone(), speed: u.clone(), integration: IntegrationCategory::Explicit }
    );
    let central = Schemes { convection: ConvectionScheme::CentralDifference, ..schemes() };
    assert_eq!(
        conv.discretization(&central),
        Discretization::CentralDifference { var: u.clone(), speed: u.clone(), integration: IntegrationCategory::Explicit }
    );
    assert_eq!(
        DifferentialOperator::Laplacian(u.clone(), IntegrationCategory::Implicit).discretization(&schemes()),
        Discretization::OrthogonalCorrection(u.clone(), IntegrationCategory::Implicit)
    );
    assert_eq!(
        DifferentialOperator::Divergence(u.clone(), IntegrationCategory::Explicit).discretization(&schemes()),
        Discretization::BasicDivergence(u.clone(), IntegrationCategory::Explicit)
    );
    assert_eq!(DifferentialOperator::TimeDerivative(u.clone()).discretization(&schemes()), Discretization::ForwardEuler(u));
}

#[test]
fn variable_short_cv_name() {
    let t = Variable::new("T".to_string(), Dimension::Scalar, ControlVolumeType::Nodes);
    assert_eq!(t.cv(), &ControlVolumeType::Nodes);
    assert_eq!(t.cv(), t.cvt());
}
