use cfd_rs::enums::{EquationsEnum, VariablesEnum};
use cfd_rs::operators::{laplacian, Op};
use cfd_rs::poisson::{MainEquations, MainVariables};
use cfd_rs::schemes::{
    ConvectionScheme, DivergenceScheme, GradientConfig, GradientInterpConfig, GradientMethods, GradientScheme,
    LaplacianScheme, Schemes, SchemesConfig, TimeIntegration,
};
use cfd_rs::variables::{ControlVolumeType, Dimension, IntegrationCategory, Variable};
use vstd::prelude::Seq;

fn defaults() -> Schemes {
    Schemes {
        transient: TimeIntegration::ForwardEuler,
        laplacian: LaplacianScheme::OrthogonalCorrection,
        convection: ConvectionScheme::UpwindSecondOrder,
        divergence: DivergenceScheme::Basic,
    }
}

/// An equation enumeration written by a user of the library.
enum Heat {
    Diffusion,
}

impl EquationsEnum for Heat {
    fn spec_name(&self) -> Seq<char> {
        unreachable!()
    }

    fn is_lhs(&self, _op: Op) -> bool {
        unreachable!()
    }

    fn is_rhs(&self, _op: Op) -> bool {
        unreachable!()
    }

    fn spec_default_schemes(&self) -> Schemes {
        defaults()
    }

    fn name(&self) -> &'static str {
        "Diffusion"
    }

    fn lhs(&self) -> Op {
        laplacian(Variable::new("T".to_string(), Dimension::Scalar, ControlVolumeType::Cells), IntegrationCategory::Implicit)
    }

    fn rhs(&self) -> Op {
        Op::Scalar(0.0f64.to_bits())
    }

    fn default_schemes(&self) -> Schemes {
        defaults()
    }
}

#[test]
fn user_equations_get_configured_schemes() {
    let config = SchemesConfig { convection: Some(ConvectionScheme::CentralDifference), ..SchemesConfig::default() };
    let s = EquationsEnum::schemes(&Heat::Diffusion, config);
    assert_eq!(s, Schemes { convection: ConvectionScheme::CentralDifference, ..defaults() });
    assert_eq!(EquationsEnum::schemes(&Heat::Diffusion, SchemesConfig::default()), defaults());
    assert_eq!(EquationsEnum::name(&Heat::Diffusion), "Diffusion");
}

#[test]
fn main_enums_through_the_traits() {
    assert_eq!(EquationsEnum::name(&MainEquations::Laplacian), "Laplacian");
    assert_eq!(EquationsEnum::schemes(&MainEquations::Poisson, SchemesConfig::default()), defaults());
    assert_eq!(VariablesEnum::name(&MainVariables::Grad), "Grad_T");
    assert_eq!(VariablesEnum::dim(&MainVariables::Grad), Dimension::Vector2);
    assert_eq!(VariablesEnum::cvt(&MainVariables::T), ControlVolumeType::Nodes);
    let config = GradientConfig { scheme: Some(GradientScheme::LeastSquare), interp: None };
    assert_eq!(
        VariablesEnum::gradient_method(&MainVariables::T, config),
        GradientMethods { scheme: GradientScheme::LeastSquare, interp: GradientInterpConfig::AveragedCorrected }
    );
    assert_eq!(
        VariablesEnum::var(&MainVariables::Laplacian),
        Variable::new("Laplacian_T".to_string(), Dimension::Scalar, ControlVolumeType::Nodes)
    );
}

#[test]
fn user_equations_are_added_by_name() {
    let mut set = cfd_rs::equations_set::EquationsSet::new();
    assert!(set.add_eq_from_enum(&Heat::Diffusion, &SchemesConfig::default()).is_ok());
    let eq = set.map.get("Diffusion").unwrap();
    assert_eq!(eq.unknown(), &Variable::new("T".to_string(), Dimension::Scalar, ControlVolumeType::Cells));
    match set.add_eq_from_enum(&Heat::Diffusion, &SchemesConfig::default()) {
        Err(cfd_rs::equation::CfdError::EquationAlreadyAdded { name }) => assert_eq!(name, "Diffusion"),
        other => panic!("unexpected {:?}", other),
    }
}

/// An enumeration whose equation names no unknown.
enum Broken {
    Explicit,
}

impl EquationsEnum for Broken {
    fn spec_name(&self) -> Seq<char> {
        unreachable!()
    }

    fn is_lhs(&self, _op: Op) -> bool {
        unreachable!()
    }

    fn is_rhs(&self, _op: Op) -> bool {
        unreachable!()
    }

    fn spec_default_schemes(&self) -> Schemes {
        defaults()
    }

    fn name(&self) -> &'static str {
        "Explicit"
    }

    fn lhs(&self) -> Op {
        laplacian(Variable::new("T".to_string(), Dimension::Scalar, ControlVolumeType::Cells), IntegrationCategory::Explicit)
    }

    fn rhs(&self) -> Op {
        Op::Scalar(0.0f64.to_bits())
    }

    fn default_schemes(&self) -> Schemes {
        defaults()
    }
}

#[test]
fn a_failing_equation_leaves_the_set_unchanged() {
    let mut set = cfd_rs::equations_set::EquationsSet::new();
    match set.add_eq_from_enum(&Broken::Explicit, &SchemesConfig::default()) {
        Err(cfd_rs::equation::CfdError::EquationNoUnknown { .. }) => {}
        other => panic!("unexpected {:?}", other),
    }
    assert!(set.map.entries().is_empty());
}
