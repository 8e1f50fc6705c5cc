//! A stack-oriented virtual machine: an instruction set with a textual
//! form, a loader for listings, and an execution core whose every step is
//! specified over a mathematical model of the machine.
use vstd::prelude::*;

pub mod code;
pub mod text;
pub mod theorems;
pub mod vsm;

verus! {

} // verus!
