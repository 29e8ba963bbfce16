//! Query and update requests over named fields of values.

use vstd::prelude::*;
use crate::value::CandyShared;

verus! {

/// A path of field names to read.
#[derive(Debug)]
pub struct Query {
    pub name: String,
    pub next: Vec<Query>,
}

/// Which fields a query reads.
#[derive(Debug)]
pub enum QueryMode {
    All,
    Fields(Vec<Query>),
}

/// A change to one named field.
#[derive(Debug)]
pub struct Update {
    pub name: String,
    pub mode: UpdateMode,
}

/// How a field changes: set its value, set and lock it, or change its sub-fields.
#[derive(Debug)]
pub enum UpdateMode {
    Assign(CandyShared),
    Lock(CandyShared),
    Next(Vec<Update>),
}

/// A batch of updates to the record with the given id.
#[derive(Debug)]
pub struct UpdateRequest {
    pub id: String,
    pub update: Vec<Update>,
}

} // verus!
