use cfd_rs::equation::{CfdError, Equation};
use cfd_rs::equations_set::EquationsSet;
use cfd_rs::operators::{divergence, gradient, laplacian, Op, FieldOperator};
use cfd_rs::poisson::{poisson_equations, MainEquations, MainVariables};
use cfd_rs::requirements::GradRequirements;
use cfd_rs::schemes::{ConvectionScheme, DivergenceScheme, LaplacianScheme, Schemes, SchemesConfig, TimeIntegration, GradientConfig, GradientScheme};
use cfd_rs::variables::{ControlVolumeType, Dimension, IntegrationCategory, Variable};

fn schemes() -> Schemes {
    Schemes {
        transient: TimeIntegration::ForwardEuler,
        laplacian: LaplacianScheme::OrthogonalCorrection,
        convection: ConvectionScheme::UpwindSecondOrder,
        divergence: DivergenceScheme::Basic,
    }
}

fn var(name: &str, dim: Dimension) -> Variable {
    Variable::new(name.to_string(), dim, ControlVolumeType::Cells)
}

#[test]
fn add_eq_refuses_a_name_twice() {
    let t = var("T", Dimension::Scalar);
    let mut set = EquationsSet::new();
    let eq = Equation::new(laplacian(t.clone(), IntegrationCategory::Implicit), Op::Scalar(0), &schemes()).unwrap();
    assert!(set.add_eq("Poisson".to_string(), eq).is_ok());
    let eq = Equation::new(laplacian(t.clone(), IntegrationCategory::Implicit), Op::Scalar(0), &schemes()).unwrap();
    match set.add_eq("Poisson".to_string(), eq) {
        Err(CfdError::EquationAlreadyAdded { name }) => assert_eq!(name, "Poisson"),
        other => panic!("unexpected {:?}", other),
    }
    assert!(set.map.get("Poisson").is_some());
    assert!(set.map.get("Other").is_none());
    assert_eq!(set.map.entries().len(), 1);
}

#[test]
fn variables_requirements_merge_all_equations() {
    let u = var("U", Dimension::Vector2);
    let p = var("P", Dimension::Scalar);
    let d = var("div(U)", Dimension::Scalar);
    let mut set = EquationsSet::new();
    let div = Equation::new(
        Op::FieldOperator(FieldOperator::Field(d.clone(), IntegrationCategory::Implicit)),
        divergence(u.clone(), IntegrationCategory::Explicit),
        &schemes(),
    )
    .unwrap();
    set.add_eq("Div".to_string(), div).unwrap();
    let poisson = Equation::new(laplacian(p.clone(), IntegrationCategory::Implicit), gradient(u.clone()), &schemes()).unwrap();
    set.add_eq("Poisson".to_string(), poisson).unwrap();
    let reqs = set.variables_requirements();
    assert_eq!(reqs.get(&u), Some(GradRequirements::new(true, false)));
    assert_eq!(reqs.get(&p), Some(GradRequirements::new(false, true)));
    assert_eq!(reqs.get(&d), Some(GradRequirements::new(false, false)));
    assert_eq!(reqs.entries().len(), 3);
}

#[test]
fn poisson_solver_equations() {
    let set = poisson_equations(SchemesConfig::default(), SchemesConfig::default(), SchemesConfig::default());
    assert_eq!(set.map.entries().len(), 3);
    let poisson = set.map.get("Poisson").unwrap();
    assert_eq!(poisson.unknown(), &MainVariables::T.var());
    assert_eq!(poisson.rhs(), &Op::Scalar(1.0f64.to_bits()));
    let grad = set.map.get("Gradient").unwrap();
    assert_eq!(grad.unknown(), &MainVariables::Grad.var());
    let lap = set.map.get("Laplacian").unwrap();
    assert_eq!(lap.unknown(), &MainVariables::Laplacian.var());
    let reqs = set.variables_requirements();
    assert_eq!(reqs.get(&MainVariables::T.var()), Some(GradRequirements::new(true, true)));
    assert_eq!(reqs.get(&MainVariables::Grad.var()), Some(GradRequirements::new(false, false)));
}

#[test]
fn add_eq_from_enum_twice_fails() {
    let mut set = EquationsSet::new();
    assert!(set.add_eq_from_enum(&MainEquations::Gradient, &SchemesConfig::default()).is_ok());
    match set.add_eq_from_enum(&MainEquations::Gradient, &SchemesConfig::default()) {
        Err(CfdError::EquationAlreadyAdded { name }) => assert_eq!(name, "Gradient"),
        other => panic!("unexpected {:?}", other),
    }
}

#[test]
fn main_variables_and_equations() {
    assert_eq!(MainVariables::Grad.name(), "Grad_T");
    assert_eq!(MainVariables::Grad.dim(), Dimension::Vector2);
    assert_eq!(MainVariables::T.cvt(), ControlVolumeType::Nodes);
    let v = MainVariables::Laplacian.var();
    assert_eq!(v.name(), "Laplacian_T");
    let m = MainVariables::T.gradient_method(GradientConfig { scheme: Some(GradientScheme::LeastSquare), interp: None });
    assert_eq!(m.scheme, GradientScheme::LeastSquare);
    assert_eq!(MainEquations::Laplacian.name(), "Laplacian");
    let s = MainEquations::Poisson.schemes(SchemesConfig { transient: None, laplacian: None, convection: Some(ConvectionScheme::CentralDifference), divergence: None });
    assert_eq!(s.convection, ConvectionScheme::CentralDifference);
    assert_eq!(MainEquations::Poisson.default_schemes().laplacian, LaplacianScheme::OrthogonalCorrection);
}

#[test]
fn equations_and_sets_clone_and_compare() {
    let t = var("T", Dimension::Scalar);
    let eq = Equation::new(laplacian(t.clone(), IntegrationCategory::Implicit), Op::Scalar(1.0f64.to_bits()), &schemes()).unwrap();
    let copy = eq.clone();
    assert_eq!(copy, eq);
    assert_eq!(copy.fields_required(), eq.fields_required());
    assert_eq!(copy.fields_required().clone(), eq.fields_required().clone());
    let other = Equation::new(laplacian(t.clone(), IntegrationCategory::Implicit), Op::Scalar(2.0f64.to_bits()), &schemes()).unwrap();
    assert_ne!(other, eq);
    let zero = Equation::new(laplacian(t.clone(), IntegrationCategory::Implicit), Op::Scalar(0.0f64.to_bits()), &schemes()).unwrap();
    let minus_zero = Equation::new(laplacian(t.clone(), IntegrationCategory::Implicit), Op::Scalar((-0.0f64).to_bits()), &schemes()).unwrap();
    assert_eq!(zero, minus_zero);
    let grad = Equation::new(laplacian(t.clone(), IntegrationCategory::Implicit), gradient(t.clone()), &schemes()).unwrap();
    assert_ne!(grad.fields_required(), eq.fields_required());

    let mut set = EquationsSet::new();
    set.add_eq("Poisson".to_string(), eq).unwrap();
    let copy = set.clone();
    assert_eq!(copy, set);
    let mut bigger = set.clone();
    bigger.add_eq("Other".to_string(), other).unwrap();
    assert_ne!(bigger, set);
}
