use cfd_rs::operators::{gradient, laplacian, FieldOperator, Op, VectorBits};
use cfd_rs::terms::{Factor, LinearTerm, TermKind};
use cfd_rs::variables::{Component, ControlVolumeType, Dimension, IntegrationCategory, Variable};

fn var(name: &str, dim: Dimension) -> Variable {
    Variable::new(name.to_string(), dim, ControlVolumeType::Cells)
}

fn field(v: &Variable) -> FieldOperator {
    FieldOperator::Field(v.clone(), IntegrationCategory::Implicit)
}

/// laplacian(T) - 2 * T / 4 + (5, 7)
fn sample() -> Op {
    let t = var("T", Dimension::Scalar);
    let scaled = Op::MulScalar(2.0f64.to_bits(), Box::new(Op::DivScalar(4.0f64.to_bits(), Box::new(Op::FieldOperator(field(&t))))));
    let source = Op::Vector2(VectorBits { x: 5.0f64.to_bits(), y: 7.0f64.to_bits() });
    (laplacian(t.clone(), IntegrationCategory::Implicit) - scaled) + source
}

#[test]
fn terms_carry_the_factors_from_the_root() {
    let t = var("T", Dimension::Scalar);
    let terms = sample().linear_terms(Component::X);
    assert_eq!(
        terms,
        vec![
            LinearTerm {
                factors: vec![],
                kind: TermKind::Operator(match laplacian(t.clone(), IntegrationCategory::Implicit) {
                    Op::FieldOperator(f) => f,
                    _ => unreachable!(),
                }),
            },
            LinearTerm {
                factors: vec![Factor::Negate, Factor::Multiply(2.0f64.to_bits()), Factor::Divide(4.0f64.to_bits())],
                kind: TermKind::Operator(field(&t)),
            },
            LinearTerm { factors: vec![], kind: TermKind::Source(5.0f64.to_bits()) },
        ]
    );
}

#[test]
fn vector_coefficients_follow_the_component() {
    let u = var("U", Dimension::Vector2);
    let op = Op::MulVector(VectorBits { x: 1.5f64.to_bits(), y: (-3.0f64).to_bits() }, Box::new(gradient(u.clone())));
    let x = op.linear_terms(Component::X);
    let y = op.linear_terms(Component::Y);
    assert_eq!(x[0].factors, vec![Factor::Multiply(1.5f64.to_bits())]);
    assert_eq!(y[0].factors, vec![Factor::Multiply((-3.0f64).to_bits())]);
    assert_eq!(x[0].kind, TermKind::Operator(FieldOperator::Gradient(u)));
    let source = Op::Vector2(VectorBits { x: 5.0f64.to_bits(), y: 7.0f64.to_bits() });
    assert_eq!(source.linear_terms(Component::Y)[0].kind, TermKind::Source(7.0f64.to_bits()));
}

#[test]
fn term_operators_are_the_collected_operators() {
    let op = sample();
    let mut collected = Vec::new();
    op.collect_field_operators(&mut collected);
    for component in [Component::X, Component::Y] {
        let operators: Vec<FieldOperator> = op
            .linear_terms(component)
            .into_iter()
            .filter_map(|t| match t.kind {
                TermKind::Operator(f) => Some(f),
                TermKind::Source(_) => None,
            })
            .collect();
        assert_eq!(operators, collected);
    }
}

#[test]
fn coefficients_multiply_out_along_the_path() {
    let mut coefficients = Vec::new();
    for term in sample().linear_terms(Component::X) {
        let mut c = 1.0f64;
        for f in &term.factors {
            c = match f {
                Factor::Negate => -c,
                Factor::Multiply(s) => c * f64::from_bits(*s),
                Factor::Divide(s) => c / f64::from_bits(*s),
            };
        }
        coefficients.push(c);
    }
    assert_eq!(coefficients, vec![1.0, -0.5, 1.0]);
}
