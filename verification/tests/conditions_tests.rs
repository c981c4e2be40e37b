use cfd_rs::conditions::{strong_bc_values, BoundaryCondition, BoundaryValue};
use cfd_rs::layout::try_gradient_update_plan;
use cfd_rs::operators::VectorBits;
use cfd_rs::requirements::GradRequirements;
use cfd_rs::schemes::{GradientInterpConfig, GradientMethods, GradientScheme};
use cfd_rs::variables::{Component, ControlVolumeType};

fn bits(x: f64) -> u64 {
    x.to_bits()
}

#[test]
fn boundary_values_by_component() {
    let s = BoundaryValue::Scalar(bits(2.5));
    assert!(s.has(&Component::X));
    assert!(!s.has(&Component::Y));
    assert_eq!(f64::from_bits(s.get_value(&Component::X)), 2.5);
    let v = BoundaryValue::Vector2(VectorBits { x: bits(1.0), y: bits(-4.0) });
    assert!(v.has(&Component::Y));
    assert_eq!(f64::from_bits(v.get_value(&Component::X)), 1.0);
    assert_eq!(f64::from_bits(v.get_value(&Component::Y)), -4.0);
    let d = BoundaryCondition::Dirichlet(s);
    assert!(d.is_dirichlet());
    assert_eq!(d.value(), &s);
    assert!(!BoundaryCondition::Neumann(v).is_dirichlet());
}

#[test]
fn strong_values_of_dirichlet_nodes() {
    let bnd_nodes = vec![vec![0, 1], vec![1, 2], vec![2, 3, 0]];
    let bcs = vec![
        BoundaryCondition::Dirichlet(BoundaryValue::Scalar(bits(1.0))),
        BoundaryCondition::Neumann(BoundaryValue::Scalar(bits(0.0))),
        BoundaryCondition::Dirichlet(BoundaryValue::Scalar(bits(3.0))),
    ];
    let rows = strong_bc_values(ControlVolumeType::Nodes, &bnd_nodes, &bcs, &Component::X);
    assert_eq!(rows, vec![(0, bits(1.0)), (1, bits(1.0)), (2, bits(3.0)), (3, bits(3.0)), (0, bits(3.0))]);
    assert!(strong_bc_values(ControlVolumeType::Cells, &bnd_nodes, &bcs, &Component::X).is_empty());
}

#[test]
fn strong_values_take_the_component() {
    let bnd_nodes = vec![vec![4, 5]];
    let bcs = vec![BoundaryCondition::Dirichlet(BoundaryValue::Vector2(VectorBits { x: bits(1.0), y: bits(2.0) }))];
    assert_eq!(
        strong_bc_values(ControlVolumeType::Nodes, &bnd_nodes, &bcs, &Component::Y),
        vec![(4, bits(2.0)), (5, bits(2.0))]
    );
}

#[test]
fn gradient_plan_only_for_implemented_methods() {
    let implemented = GradientMethods { scheme: GradientScheme::GreenGaussCompact, interp: GradientInterpConfig::AveragedCorrected };
    let plan = try_gradient_update_plan(false, &GradRequirements::new(false, true), &implemented).unwrap();
    assert!(plan.centers && plan.faces);
    let plan = try_gradient_update_plan(false, &GradRequirements::new(true, false), &implemented).unwrap();
    assert!(plan.centers && !plan.faces);
    let plan = try_gradient_update_plan(true, &GradRequirements::new(true, true), &implemented).unwrap();
    assert!(!plan.centers && !plan.faces);
    let least_squares = GradientMethods { scheme: GradientScheme::LeastSquare, interp: GradientInterpConfig::AveragedCorrected };
    assert_eq!(try_gradient_update_plan(false, &GradRequirements::new(true, false), &least_squares), None);
    assert!(try_gradient_update_plan(false, &GradRequirements::new(false, false), &least_squares).is_some());
    let averaged = GradientMethods { scheme: GradientScheme::GreenGaussCompact, interp: GradientInterpConfig::Averaged };
    assert_eq!(try_gradient_update_plan(false, &GradRequirements::new(false, true), &averaged), None);
    assert!(try_gradient_update_plan(false, &GradRequirements::new(true, false), &averaged).is_some());
}
