//! SOVD data of the operations of an ECU.
use vstd::prelude::*;

verus! {

/// Status of an operation execution.
#[derive(Debug, Clone, Copy, PartialEq, Eq, Structural)]
pub enum Status {
    Running,
    Completed,
    Failed,
}

/// What a client may do with an operation execution.
#[derive(Debug, Clone, Copy, PartialEq, Eq, Structural)]
pub enum Capability {
    Execute,
    Stop,
    Freeze,
    Reset,
    Status,
}

/// An operation of a component.
#[derive(Debug, Clone)]
pub struct Item {
    pub id: String,
}

} // verus!
