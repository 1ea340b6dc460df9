//! Decision logic of an N-body gravitational simulation: how many steps a run
//! takes, at which step indices its snapshots are recorded, when a failed
//! snapshot stops it, and the row layout of recorded output.
use vstd::prelude::*;

pub mod driver;
pub mod rows;
pub mod schedule;

verus! {

} // verus!
