use cfd_rs::requirements::GradRequirements;

fn joined(a: GradRequirements, b: GradRequirements) -> GradRequirements {
    let mut r = a;
    r.update_requirements(&b);
    r
}

#[test]
fn update_requirements_keeps_most_restrictive() {
    let mut a = GradRequirements::new(true, false);
    let b = GradRequirements::new(false, true);
    a.update_requirements(&b);
    assert!(a.cell());
    assert!(a.face());
}

#[test]
fn update_requirements_with_nothing_changes_nothing() {
    for cell in [false, true] {
        for face in [false, true] {
            let a = GradRequirements::new(cell, face);
            assert_eq!(joined(a, GradRequirements::new(false, false)), a);
            assert_eq!(joined(a, a), a);
        }
    }
}

#[test]
fn update_requirements_is_commutative_and_associative() {
    let all = [
        GradRequirements::new(false, false),
        GradRequirements::new(true, false),
        GradRequirements::new(false, true),
        GradRequirements::new(true, true),
    ];
    for a in all {
        for b in all {
            assert_eq!(joined(a, b), joined(b, a));
            for c in all {
                assert_eq!(joined(joined(a, b), c), joined(a, joined(b, c)));
            }
        }
    }
}
