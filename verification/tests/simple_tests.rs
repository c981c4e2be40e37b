use cfd_rs::operators::Op;
use cfd_rs::requirements::GradRequirements;
use cfd_rs::schemes::{ConvectionScheme, DivergenceScheme, LaplacianScheme, Schemes, TimeIntegration};
use cfd_rs::simple::simple_equations;
use cfd_rs::variables::{ControlVolumeType, Dimension, Variable};

fn schemes() -> Schemes {
    Schemes {
        transient: TimeIntegration::ForwardEuler,
        laplacian: LaplacianScheme::OrthogonalCorrection,
        convection: ConvectionScheme::UpwindSecondOrder,
        divergence: DivergenceScheme::Basic,
    }
}

fn var(name: &str, dim: Dimension) -> Variable {
    Variable::new(name.to_string(), dim, ControlVolumeType::Cells)
}

#[test]
fn simple_case_has_five_valid_equations() {
    let density = 1.0f64;
    let time_step = 0.00001f64;
    let set = simple_equations(
        ControlVolumeType::Cells,
        1.0f64.to_bits(),
        (density / time_step).to_bits(),
        (-1.0 / density).to_bits(),
        &schemes(),
    );
    let mut names: Vec<String> = set.map.entries().into_iter().map(|(n, _)| n).collect();
    names.sort();
    assert_eq!(names, vec!["Correction", "Div", "Grad", "Poisson", "Prediction"]);
    let u = var("U", Dimension::Vector2);
    let p = var("P", Dimension::Scalar);
    assert_eq!(set.map.get("Div").unwrap().unknown(), &var("div(U)", Dimension::Scalar));
    assert_eq!(set.map.get("Grad").unwrap().unknown(), &var("grad(P)", Dimension::Vector2));
    assert_eq!(set.map.get("Prediction").unwrap().unknown(), &u);
    assert_eq!(set.map.get("Poisson").unwrap().unknown(), &p);
    assert_eq!(set.map.get("Correction").unwrap().unknown(), &u);
    match set.map.get("Poisson").unwrap().rhs() {
        Op::MulScalar(bits, _) => assert_eq!(f64::from_bits(*bits), density / time_step),
        other => panic!("unexpected {:?}", other),
    }
    match set.map.get("Correction").unwrap().rhs() {
        Op::MulScalar(bits, _) => assert_eq!(f64::from_bits(*bits), -1.0),
        other => panic!("unexpected {:?}", other),
    }
}

#[test]
fn simple_case_requirements() {
    let set = simple_equations(ControlVolumeType::Nodes, 1.0f64.to_bits(), 2.0f64.to_bits(), 3.0f64.to_bits(), &schemes());
    let u = Variable::new("U".to_string(), Dimension::Vector2, ControlVolumeType::Nodes);
    let p = Variable::new("P".to_string(), Dimension::Scalar, ControlVolumeType::Nodes);
    let prediction = set.map.get("Prediction").unwrap();
    assert_eq!(prediction.fields_required().get(&u), Some(GradRequirements::new(true, true)));
    let poisson = set.map.get("Poisson").unwrap();
    assert_eq!(poisson.fields_required().get(&p), Some(GradRequirements::new(false, true)));
    assert_eq!(poisson.fields_required().get(&u), Some(GradRequirements::new(true, false)));
    let all = set.variables_requirements();
    assert_eq!(all.get(&u), Some(GradRequirements::new(true, true)));
    assert_eq!(all.get(&p), Some(GradRequirements::new(true, true)));
    assert_eq!(all.entries().len(), 4);
}

#[test]
fn simple_case_requirements_follow_the_schemes() {
    let central = Schemes { convection: ConvectionScheme::CentralDifference, ..schemes() };
    let set = simple_equations(ControlVolumeType::Cells, 1.0f64.to_bits(), 2.0f64.to_bits(), 3.0f64.to_bits(), &central);
    let u = var("U", Dimension::Vector2);
    let prediction = set.map.get("Prediction").unwrap();
    assert_eq!(prediction.fields_required().get(&u), Some(GradRequirements::new(false, true)));
}
