//! Planning, validation and report logic of a sequential benchmark runner.
use vstd::prelude::*;

pub mod args;
pub mod cli;
pub mod compare;
pub mod help;
pub mod model;
pub mod number;
pub mod path;
pub mod process;
pub mod refs;
pub mod runner;
pub mod text;

verus! {

} // verus!
