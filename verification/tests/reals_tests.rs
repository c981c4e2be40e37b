use cfd_rs::conditions::{BoundaryCondition, BoundaryValue};
use cfd_rs::operators::{laplacian, Op, VectorBits};
use cfd_rs::output::{Frequency, OutputControl};
use cfd_rs::reals::reals_equal;
use cfd_rs::variables::{ControlVolumeType, Dimension, IntegrationCategory, Variable};

#[test]
fn reals_compare_as_f64() {
    for (a, b) in [(0.0f64, -0.0f64), (1.5, 1.5), (1.0, 2.0), (f64::NAN, f64::NAN), (f64::INFINITY, f64::INFINITY), (f64::NAN, 1.0)] {
        assert_eq!(reals_equal(a.to_bits(), b.to_bits()), a == b);
    }
}

#[test]
fn coefficients_compare_as_f64() {
    assert_eq!(Op::Scalar(0.0f64.to_bits()), Op::Scalar((-0.0f64).to_bits()));
    assert_ne!(Op::Scalar(f64::NAN.to_bits()), Op::Scalar(f64::NAN.to_bits()));
    let t = Variable::new("T".to_string(), Dimension::Scalar, ControlVolumeType::Cells);
    let a = Op::MulScalar(0.0f64.to_bits(), Box::new(laplacian(t.clone(), IntegrationCategory::Implicit)));
    let b = Op::MulScalar((-0.0f64).to_bits(), Box::new(laplacian(t.clone(), IntegrationCategory::Implicit)));
    assert_eq!(a, b);
    let c = Op::MulScalar(0.0f64.to_bits(), Box::new(laplacian(t, IntegrationCategory::Explicit)));
    assert_ne!(a, c);
    let v = VectorBits { x: 0.0f64.to_bits(), y: 1.0f64.to_bits() };
    let w = VectorBits { x: (-0.0f64).to_bits(), y: 1.0f64.to_bits() };
    assert_eq!(v, w);
    assert_eq!(Op::Vector2(v), Op::Vector2(w));
}

#[test]
fn boundary_values_and_frequencies_compare_as_f64() {
    let z = BoundaryValue::Scalar(0.0f64.to_bits());
    let nz = BoundaryValue::Scalar((-0.0f64).to_bits());
    assert_eq!(z, nz);
    assert_eq!(BoundaryCondition::Dirichlet(z), BoundaryCondition::Dirichlet(nz));
    assert_ne!(BoundaryCondition::Dirichlet(z), BoundaryCondition::Neumann(z));
    assert_ne!(BoundaryValue::Scalar(f64::NAN.to_bits()), BoundaryValue::Scalar(f64::NAN.to_bits()));
    assert_eq!(Frequency::TimeStep(0.0f64.to_bits()), Frequency::TimeStep((-0.0f64).to_bits()));
    assert_ne!(Frequency::TimeStep(0.5f64.to_bits()), Frequency::Iteration(0));
    assert_eq!(
        OutputControl::new(true, false, Frequency::Iteration(3)),
        OutputControl::new(true, false, Frequency::Iteration(3))
    );
}
