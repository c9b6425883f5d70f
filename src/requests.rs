use vstd::prelude::*;
use crate::routine::Command;

verus! {

/// A request that names an audio file.
#[derive(Debug, PartialEq, Eq)]
pub struct AudioRequest {
    pub filename: String,
}

/// A request to move a servo, by name, to a whole number of degrees.
#[derive(Debug, PartialEq, Eq)]
pub struct MoveRequest {
    pub servo_name: String,
    pub angle: u16,
}

/// A routine to run: its commands in order.
#[derive(Debug, PartialEq, Eq)]
pub struct RoutineRequest {
    pub commands: Vec<Command>,
}

} // verus!
