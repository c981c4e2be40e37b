//! Verified core of a 2D finite-volume CFD toolkit: variables and their
//! control volumes, gradient requirements, discretisation schemes, the
//! operator trees that equations are written with and the terms they add to
//! a linear system, the rules that pick an equation's unknown, the equations
//! of the Poisson and pressure-velocity cases, boundary conditions, the
//! integer connectivity of assembled meshes, and output decisions.
use vstd::prelude::*;

pub mod variables;
pub mod requirements;
pub mod schemes;
pub mod reals;
pub mod operators;
pub mod terms;
pub mod maps;
pub mod equation;
pub mod equations_set;
pub mod topology;
pub mod boundaries;
pub mod assembly;
pub mod poisson;
pub mod simple;
pub mod enums;
pub mod vtk;
pub mod output;
pub mod layout;
pub mod conditions;

verus! {
} // verus!
