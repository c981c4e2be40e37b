use cfd_rs::output::{
    export_due, extracted_variables, node_centered_variables, ExportRecord, Frequency, OutputControl,
    VariablesExtracted,
};
use cfd_rs::variables::{ControlVolumeType, Dimension, Variable};
use cfd_rs::vtk::{vtk_cell_type, vtk_offsets, vtk_point_count, vtk_sequential_connectivity};

#[test]
fn default_output_control_writes_the_initial_state() {
    let c = OutputControl::default();
    assert!(c.initial_output());
    assert!(!c.final_output());
    assert_eq!(c.frequency(), &Frequency::Never);
    assert!(export_due(&c, 0, false, false, false));
    assert!(!export_due(&c, 3, false, false, false));
    assert!(!export_due(&c, 3, true, false, false));
}

#[test]
fn iteration_and_final_outputs() {
    let c = OutputControl::new(false, true, Frequency::Iteration(5));
    assert!(export_due(&c, 0, false, false, false));
    assert!(!export_due(&c, 3, false, false, false));
    assert!(export_due(&c, 10, false, false, false));
    assert!(export_due(&c, 3, true, false, false));
}

#[test]
fn time_step_outputs() {
    let c = OutputControl::new(false, false, Frequency::TimeStep(0.1f64.to_bits()));
    assert!(export_due(&c, 4, false, false, false));
    assert!(!export_due(&c, 4, false, true, false));
    assert!(export_due(&c, 4, false, true, true));
}

#[test]
fn export_record_counts_first_export_only() {
    let mut r = ExportRecord::new();
    assert_eq!(r.export_count(), None);
    assert_eq!(r.record_export(0, 0.0f64.to_bits()), 0);
    assert_eq!(r.export_count(), Some(0));
    assert_eq!(r.last_export_step(), Some(0));
    assert_eq!(r.record_export(7, 0.5f64.to_bits()), 1);
    assert_eq!(r.record_export(9, 0.9f64.to_bits()), 1);
    assert_eq!(r.last_export_step(), Some(0));
    assert_eq!(r.last_export_time(), Some(0.0f64.to_bits()));
}

fn fields() -> Vec<Variable> {
    vec![
        Variable::new("T".to_string(), Dimension::Scalar, ControlVolumeType::Nodes),
        Variable::new("P".to_string(), Dimension::Scalar, ControlVolumeType::Cells),
        Variable::new("U".to_string(), Dimension::Vector2, ControlVolumeType::Nodes),
    ]
}

#[test]
fn variables_extracted_by_control_volume() {
    let f = fields();
    let (cells, nodes) = extracted_variables(&f, &VariablesExtracted::All);
    assert_eq!(cells, vec![f[1].clone()]);
    assert_eq!(nodes, vec![f[0].clone(), f[2].clone()]);
    let (cells, nodes) = extracted_variables(&f, &VariablesExtracted::Empty);
    assert!(cells.is_empty() && nodes.is_empty());
    let sel = VariablesExtracted::Selection(vec![f[2].clone(), f[1].clone()]);
    let (cells, nodes) = extracted_variables(&f, &sel);
    assert_eq!(cells, vec![f[1].clone()]);
    assert_eq!(nodes, vec![f[2].clone()]);
    assert_eq!(node_centered_variables(&f, &VariablesExtracted::All), vec![f[0].clone(), f[2].clone()]);
    let sel = VariablesExtracted::Selection(vec![f[0].clone()]);
    assert_eq!(node_centered_variables(&f, &sel), vec![f[0].clone()]);
}

#[test]
fn vtk_codes_and_offsets() {
    assert_eq!(vtk_cell_type(3), Some(5));
    assert_eq!(vtk_cell_type(4), Some(7));
    assert_eq!(vtk_cell_type(6), Some(7));
    assert_eq!(vtk_cell_type(2), None);
    assert_eq!(vtk_offsets(&vec![3, 3, 4]), vec![3, 6, 10]);
    assert_eq!(vtk_point_count(&vec![3, 3, 4]), 10);
    assert_eq!(vtk_sequential_connectivity(&vec![2, 3]), vec![0, 1, 2, 3, 4]);
    assert_eq!(vtk_offsets(&vec![]), Vec::<usize>::new());
}
