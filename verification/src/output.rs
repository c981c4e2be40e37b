use vstd::prelude::*;
use crate::variables::{ControlVolumeType, Variable, VariableView};
use crate::reals::{real_eq, reals_equal};
use vstd::std_specs::cmp::PartialEqSpecImpl;

verus! {

/// How often results are written. A time-step frequency carries the
/// IEEE-754 bit pattern of its `f64` period.
#[derive(Clone, Copy, Debug)]
pub enum Frequency {
    TimeStep(u64),
    Iteration(usize),
    Never,
}

impl Default for Frequency {
    fn default() -> (r: Self)
        ensures
            r is Never,
    {
        Frequency::Never
    }
}

/// Two frequencies are equal when they are of the same kind with equal
/// periods, a time step compared as an `f64`.
pub open spec fn frequency_eq(a: Frequency, b: Frequency) -> bool {
    match (a, b) {
        (Frequency::TimeStep(x), Frequency::TimeStep(y)) => real_eq(x, y),
        (Frequency::Iteration(x), Frequency::Iteration(y)) => x == y,
        (Frequency::Never, Frequency::Never) => true,
        _ => false,
    }
}

impl PartialEq for Frequency {
    fn eq(&self, other: &Self) -> (r: bool) {
        match (self, other) {
            (Frequency::TimeStep(x), Frequency::TimeStep(y)) => reals_equal(*x, *y),
            (Frequency::Iteration(x), Frequency::Iteration(y)) => *x == *y,
            (Frequency::Never, Frequency::Never) => true,
            _ => false,
        }
    }
}

impl PartialEqSpecImpl for Frequency {
    open spec fn obeys_eq_spec() -> bool {
        true
    }

    open spec fn eq_spec(&self, other: &Self) -> bool {
        frequency_eq(*self, *other)
    }
}

/// When results are written: at the start, at the end, and periodically.
#[derive(Clone, Copy, Debug, PartialEq)]
pub struct OutputControl {
    initial_output: bool,
    final_output: bool,
    frequency: Frequency,
}

impl OutputControl {
    pub closed spec fn spec_initial_output(self) -> bool {
        self.initial_output
    }

    pub closed spec fn spec_final_output(self) -> bool {
        self.final_output
    }

    pub closed spec fn spec_frequency(self) -> Frequency {
        self.frequency
    }

    pub fn new(initial_output: bool, final_output: bool, frequency: Frequency) -> (r: Self)
        ensures
            r.spec_initial_output() == initial_output,
            r.spec_final_output() == final_output,
            r.spec_frequency() == frequency,
    {
        OutputControl { frequency, initial_output, final_output }
    }

    pub fn initial_output(&self) -> (r: bool)
        ensures
            r == self.spec_initial_output(),
    {
        self.initial_output
    }

    pub fn final_output(&self) -> (r: bool)
        ensures
            r == self.spec_final_output(),
    {
        self.final_output
    }

    pub fn frequency(&self) -> (r: &Frequency)
        ensures
            *r == self.spec_frequency(),
    {
        &self.frequency
    }
}

impl Default for OutputControl {
    /// Writes the initial state only.
    fn default() -> (r: Self)
        ensures
            r.spec_initial_output(),
            !r.spec_final_output(),
            r.spec_frequency() is Never,
    {
        OutputControl { frequency: Frequency::Never, initial_output: true, final_output: false }
    }
}

/// Whether results are due at `step`: at the first step when the initial
/// state is to be written, at the final iteration when the final state is,
/// every `it` steps for an iteration frequency, and for a time-step
/// frequency when nothing was written yet or `time_reached` (the time has
/// passed the last multiple of the period since the last export).
pub open spec fn spec_export_due(
    control: OutputControl,
    step: usize,
    is_final_iter: bool,
    exported_before: bool,
    time_reached: bool,
) -> bool {
    ||| step == 0 && control.spec_initial_output()
    ||| is_final_iter && control.spec_final_output()
    ||| match control.spec_frequency() {
        Frequency::Never => false,
        Frequency::Iteration(it) => step % it == 0,
        Frequency::TimeStep(_) => !exported_before || time_reached,
    }
}

/// Decides whether results are written now. For a time-step frequency,
/// `exported_before` says whether an export time was recorded and
/// `time_reached` whether the floor of the time on the period's grid is past
/// it; both are ignored for the other frequencies.
pub fn export_due(
    control: &OutputControl,
    step: usize,
    is_final_iter: bool,
    exported_before: bool,
    time_reached: bool,
) -> (r: bool)
    requires
        control.spec_frequency() matches Frequency::Iteration(it) ==> it > 0,
    ensures
        r == spec_export_due(*control, step, is_final_iter, exported_before, time_reached),
{
    let mut export = false;
    if (step == 0) && control.initial_output() {
        export = true;
    }
    if is_final_iter && control.final_output() {
        export = true;
    }
    match control.frequency() {
        Frequency::Never => {},
        Frequency::Iteration(it) => {
            if step % *it == 0 {
                export = true;
            }
        },
        Frequency::TimeStep(_) => {
            if !exported_before {
                export = true;
            } else if time_reached {
                export = true;
            }
        },
    }
    export
}

/// The bookkeeping of a grid output: how many files were written, and the
/// step and time (as `f64` bits) of the first export. Only the first export
/// records anything: later ones leave the record as it is, so every export
/// after the first gets file index 1.
#[derive(Clone, Copy, Debug)]
pub struct ExportRecord {
    export_count: Option<usize>,
    last_export_step: Option<usize>,
    last_export_time: Option<u64>,
}

/// Two records are equal when their counts and steps are and their times
/// are equal as `f64` values (or both unset).
pub open spec fn export_record_eq(a: ExportRecord, b: ExportRecord) -> bool {
    &&& a.spec_export_count() == b.spec_export_count()
    &&& a.spec_last_export_step() == b.spec_last_export_step()
    &&& match (a.spec_last_export_time(), b.spec_last_export_time()) {
        (Some(x), Some(y)) => real_eq(x, y),
        (None, None) => true,
        _ => false,
    }
}

impl PartialEq for ExportRecord {
    fn eq(&self, other: &Self) -> (r: bool) {
        let times = match (self.last_export_time, other.last_export_time) {
            (Some(x), Some(y)) => reals_equal(x, y),
            (None, None) => true,
            _ => false,
        };
        self.export_count == other.export_count && self.last_export_step == other.last_export_step
            && times
    }
}

impl PartialEqSpecImpl for ExportRecord {
    open spec fn obeys_eq_spec() -> bool {
        true
    }

    open spec fn eq_spec(&self, other: &Self) -> bool {
        export_record_eq(*self, *other)
    }
}

impl ExportRecord {
    pub closed spec fn spec_export_count(self) -> Option<usize> {
        self.export_count
    }

    pub closed spec fn spec_last_export_step(self) -> Option<usize> {
        self.last_export_step
    }

    pub closed spec fn spec_last_export_time(self) -> Option<u64> {
        self.last_export_time
    }

    /// The count is unset or zero; step and time are recorded together
    /// with it.
    pub closed spec fn wf(self) -> bool {
        &&& (self.export_count is None || self.export_count == Some(0usize))
        &&& (self.export_count is None <==> self.last_export_step is None)
        &&& (self.export_count is None <==> self.last_export_time is None)
    }

    /// Nothing exported yet.
    pub fn new() -> (r: Self)
        ensures
            r.wf(),
            r.spec_export_count() is None,
            r.spec_last_export_step() is None,
            r.spec_last_export_time() is None,
    {
        ExportRecord { export_count: None, last_export_step: None, last_export_time: None }
    }

    pub fn export_count(&self) -> (r: Option<usize>)
        ensures
            r == self.spec_export_count(),
    {
        self.export_count
    }

    pub fn last_export_step(&self) -> (r: Option<usize>)
        ensures
            r == self.spec_last_export_step(),
    {
        self.last_export_step
    }

    pub fn last_export_time(&self) -> (r: Option<u64>)
        ensures
            r == self.spec_last_export_time(),
    {
        self.last_export_time
    }

    /// Records an export at `step` and time `time` (as `f64` bits) and gives
    /// the index of the file to write: 0 for the first export, which sets
    /// the record, and 1 for every later one, which leaves it unchanged.
    pub fn record_export(&mut self, step: usize, time: u64) -> (index: usize)
        requires
            old(self).wf(),
        ensures
            final(self).wf(),
            old(self).spec_export_count() is None ==> index == 0 && final(self).spec_export_count()
                == Some(0usize) && final(self).spec_last_export_step() == Some(step)
                && final(self).spec_last_export_time() == Some(time),
            old(self).spec_export_count() is Some ==> index == 1 && *final(self) == *old(self),
    {
        let count;
        match self.export_count {
            None => {
                self.export_count = Some(0);
                count = 0;
            },
            Some(value) => {
                count = value + 1;
            },
        }
        match self.last_export_time {
            None => {
                self.last_export_time = Some(time);
            },
            Some(_) => {},
        }
        match self.last_export_step {
            None => {
                self.last_export_step = Some(step);
            },
            Some(_) => {},
        }
        count
    }
}

/// Which variables an output writes.
#[derive(Debug)]
pub enum VariablesExtracted {
    Empty,
    Selection(Vec<Variable>),
    All,
}

/// Where a grid output puts its values.
#[derive(Clone, Copy, Debug, PartialEq, Eq, Structural)]
pub enum GridPostprocType {
    CellCentered,
    NodeCentered,
}

/// The output writes `v`.
pub open spec fn is_extracted(vars: VariablesExtracted, v: VariableView) -> bool {
    match vars {
        VariablesExtracted::Empty => false,
        VariablesExtracted::All => true,
        VariablesExtracted::Selection(list) => exists|k: int|
            0 <= k < list@.len() && (#[trigger] list@[k])@ == v,
    }
}

/// The fields, in order, that the output writes and that live on `cvt`.
pub open spec fn extracted_on(fields: Seq<Variable>, vars: VariablesExtracted, cvt: ControlVolumeType) -> Seq<
    Variable,
>
    decreases fields.len(),
{
    if fields.len() == 0 {
        Seq::empty()
    } else {
        let rest = extracted_on(fields.drop_last(), vars, cvt);
        let v = fields.last();
        if is_extracted(vars, v@) && v@.2 == cvt {
            rest.push(v)
        } else {
            rest
        }
    }
}

/// Whether `list` holds a variable with the view of `v`.
fn list_contains(list: &Vec<Variable>, v: &Variable) -> (r: bool)
    ensures
        r == exists|k: int| 0 <= k < list@.len() && (#[trigger] list@[k])@ == v@,
{
    let mut k: usize = 0;
    while k < list.len()
        invariant
            0 <= k <= list@.len(),
            forall|j: int| 0 <= j < k ==> (#[trigger] list@[j])@ != v@,
        decreases list@.len() - k,
    {
        if list[k].eq(v) {
            return true;
        }
        k = k + 1;
    }
    false
}

/// Splits the fields that an output writes into those on the cells and
/// those on the nodes, each in the order of `fields`.
pub fn extracted_variables(fields: &Vec<Variable>, vars: &VariablesExtracted) -> (r: (
    Vec<Variable>,
    Vec<Variable>,
))
    ensures
        r.0@ == extracted_on(fields@, *vars, ControlVolumeType::Cells),
        r.1@ == extracted_on(fields@, *vars, ControlVolumeType::Nodes),
{
    let mut temp_cell: Vec<Variable> = Vec::new();
    let mut temp_node: Vec<Variable> = Vec::new();
    let mut i: usize = 0;
    while i < fields.len()
        invariant
            0 <= i <= fields@.len(),
            temp_cell@ == extracted_on(fields@.take(i as int), *vars, ControlVolumeType::Cells),
            temp_node@ == extracted_on(fields@.take(i as int), *vars, ControlVolumeType::Nodes),
        decreases fields@.len() - i,
    {
        let var = &fields[i];
        proof {
            let t = fields@.take(i as int + 1);
            assert(t.drop_last() =~= fields@.take(i as int));
            assert(t.last() == *var);
        }
        let selected = match vars {
            VariablesExtracted::Empty => false,
            VariablesExtracted::All => true,
            VariablesExtracted::Selection(values) => list_contains(values, var),
        };
        if selected {
            match var.cvt() {
                ControlVolumeType::Cells => temp_cell.push(var.clone()),
                ControlVolumeType::Nodes => temp_node.push(var.clone()),
            }
        }
        i = i + 1;
    }
    assert(fields@.take(i as int) =~= fields@);
    (temp_cell, temp_node)
}

/// The fields that a node-centred output writes, in the order of
/// `fields`. A node-centred output cannot write cell variables: an explicit
/// selection must not name one that is among the fields.
pub fn node_centered_variables(fields: &Vec<Variable>, vars: &VariablesExtracted) -> (r: Vec<Variable>)
    requires
        extracted_on(fields@, *vars, ControlVolumeType::Cells).len() == 0 || vars is All,
    ensures
        r@ == extracted_on(fields@, *vars, ControlVolumeType::Nodes),
{
    let (_, nodes) = extracted_variables(fields, vars);
    nodes
}

/// When results are due. With no periodic output, the first step writes
/// exactly when the initial state is to be written, and a later step only at
/// the final iteration when the final state is to be written. The final
/// iteration always writes when the final state is to be written; an
/// iteration frequency writes every step that is a multiple of it; a
/// time-step frequency writes until a first export is recorded.
pub proof fn lemma_export_due_law(
    control: OutputControl,
    step: usize,
    is_final_iter: bool,
    exported_before: bool,
    time_reached: bool,
)
    ensures
        control.spec_frequency() is Never && !is_final_iter ==> (spec_export_due(
            control,
            0,
            is_final_iter,
            exported_before,
            time_reached,
        ) <==> control.spec_initial_output()),
        control.spec_frequency() is Never && step > 0 ==> (spec_export_due(
            control,
            step,
            is_final_iter,
            exported_before,
            time_reached,
        ) <==> (is_final_iter && control.spec_final_output())),
        is_final_iter && control.spec_final_output() ==> spec_export_due(
            control,
            step,
            is_final_iter,
            exported_before,
            time_reached,
        ),
        !control.spec_initial_output() && !control.spec_final_output()
            && control.spec_frequency() is Never ==> !spec_export_due(
            control,
            step,
            is_final_iter,
            exported_before,
            time_reached,
        ),
        control.spec_frequency() matches Frequency::Iteration(it) && it > 0 && step % it == 0
            ==> spec_export_due(control, step, is_final_iter, exported_before, time_reached),
        control.spec_frequency() is TimeStep && !exported_before ==> spec_export_due(
            control,
            step,
            is_final_iter,
            exported_before,
            time_reached,
        ),
{
}

} // verus!
