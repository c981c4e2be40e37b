use cfd_rs::layout::{
    cv_points, field_sizes, flux_sides, pair_cvs, gradient_update_plan, neighboring_cell_ids, sparsity_pattern, strong_bc_rows, CvPoint,
};
use cfd_rs::schemes::{GradientInterpConfig, GradientMethods, GradientScheme};
use cfd_rs::requirements::GradRequirements;
use cfd_rs::topology::Patch;
use cfd_rs::variables::ControlVolumeType;

#[test]
fn field_sizes_follow_requirements() {
    let s = field_sizes(ControlVolumeType::Cells, 10, 12, 21, &GradRequirements::new(false, false));
    assert_eq!((s.values, s.faces_values, s.grads_centers, s.grads_faces), (10, 21, 0, 0));
    let s = field_sizes(ControlVolumeType::Nodes, 10, 12, 21, &GradRequirements::new(false, true));
    assert_eq!((s.values, s.faces_values, s.grads_centers, s.grads_faces), (12, 21, 12, 21));
    let s = field_sizes(ControlVolumeType::Cells, 10, 12, 21, &GradRequirements::new(true, false));
    assert_eq!((s.values, s.faces_values, s.grads_centers, s.grads_faces), (10, 21, 10, 0));
}

#[test]
fn sparsity_of_two_cells() {
    let neighbors = vec![
        neighboring_cell_ids(&vec![Patch::Boundary(0), Patch::Boundary(1), Patch::Cell(1)]),
        neighboring_cell_ids(&vec![Patch::Cell(0), Patch::Boundary(2), Patch::Boundary(3)]),
    ];
    assert_eq!(neighbors, vec![vec![1], vec![0]]);
    assert_eq!(sparsity_pattern(&neighbors), vec![(0, 0), (0, 1), (1, 1), (1, 0)]);
    assert_eq!(sparsity_pattern(&vec![]), Vec::<(usize, usize)>::new());
}

#[test]
fn dual_volume_points() {
    let inner = cv_points(&vec![0, 4, 3], &vec![Patch::Cell(0), Patch::Cell(1), Patch::Boundary(3)]);
    assert_eq!(
        inner,
        vec![
            CvPoint::PairCenter(0),
            CvPoint::CellCenter(0),
            CvPoint::PairCenter(4),
            CvPoint::CellCenter(1),
            CvPoint::PairCenter(3),
            CvPoint::NodeCenter,
        ]
    );
    // two boundaries in a row: the second one is skipped
    let corner = cv_points(&vec![0, 1], &vec![Patch::Boundary(0), Patch::Boundary(1), Patch::Cell(0)]);
    assert_eq!(
        corner,
        vec![CvPoint::PairCenter(0), CvPoint::NodeCenter, CvPoint::PairCenter(1), CvPoint::CellCenter(0)]
    );
}

#[test]
fn strong_boundary_rows() {
    let bnd_nodes = vec![vec![1], vec![1, 2], vec![2, 3], vec![0, 3]];
    let rows = strong_bc_rows(ControlVolumeType::Nodes, &bnd_nodes, &vec![true, false, true, true]);
    assert_eq!(rows, vec![(1, 0), (2, 2), (3, 2), (0, 3), (3, 3)]);
    let rows = strong_bc_rows(ControlVolumeType::Cells, &bnd_nodes, &vec![true, true]);
    assert!(rows.is_empty());
}

#[test]
fn gradient_update_plans() {
    let m = GradientMethods { scheme: GradientScheme::GreenGaussCompact, interp: GradientInterpConfig::AveragedCorrected };
    let p = gradient_update_plan(true, &GradRequirements::new(true, true), &m);
    assert!(!p.centers && !p.faces);
    let p = gradient_update_plan(false, &GradRequirements::new(true, false), &m);
    assert!(p.centers && !p.faces);
    let p = gradient_update_plan(false, &GradRequirements::new(false, true), &m);
    assert!(p.centers && p.faces);
    let p = gradient_update_plan(false, &GradRequirements::new(false, false), &m);
    assert!(!p.centers && !p.faces);
}

#[test]
fn sides_of_a_face() {
    let nodes = [3, 7];
    let inner = [Patch::Cell(2), Patch::Cell(5)];
    let border = [Patch::Boundary(1), Patch::Cell(5)];
    assert_eq!(pair_cvs(ControlVolumeType::Nodes, nodes, border), [3, 7]);
    assert_eq!(pair_cvs(ControlVolumeType::Cells, nodes, inner), [2, 5]);
    assert_eq!(flux_sides(ControlVolumeType::Nodes, nodes, border), (Some(3), Some(7)));
    assert_eq!(flux_sides(ControlVolumeType::Cells, nodes, inner), (Some(2), Some(5)));
    assert_eq!(flux_sides(ControlVolumeType::Cells, nodes, border), (None, Some(5)));
}

#[test]
fn boundaries_count_their_patches() {
    let b = cfd_rs::boundaries::Boundaries::new(
        vec!["wall".to_string(), "inlet".to_string()],
        vec![vec![0], vec![1, 2]],
        vec![vec![0, 1], vec![1, 2, 3]],
        vec![vec![0], vec![0, 1]],
    );
    assert_eq!(b.n(), 2);
    assert_eq!(b.n, 2);
    assert_eq!(b.faces()[1], vec![1, 2]);
}
