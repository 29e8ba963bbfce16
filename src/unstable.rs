//! The working ("unstable") form of values.

use vstd::prelude::*;
use crate::types::{Float, Principal};

verus! {

/// A working array, frozen (immutable) or thawed (mutable).
#[derive(Debug)]
pub enum Array {
    Frozen(Vec<CandyValueUnstable>),
    Thawed(Vec<CandyValueUnstable>),
}

/// A working vector of unsigned 128-bit integers.
#[derive(Debug)]
pub enum Nats {
    Frozen(Vec<u128>),
    Thawed(Vec<u128>),
}

/// A working vector of floats.
#[derive(Debug)]
pub enum Floats {
    Frozen(Vec<Float>),
    Thawed(Vec<Float>),
}

/// A working byte string.
#[derive(Debug)]
pub enum Bytes {
    Frozen(Vec<u8>),
    Thawed(Vec<u8>),
}

/// A working named field.
#[derive(Debug)]
pub struct PropertyUnstable {
    pub name: String,
    pub value: CandyValueUnstable,
    pub immutable: bool,
}

/// A value in its working form.
#[derive(Debug)]
pub enum CandyValueUnstable {
    Int(i128),
    Int8(i8),
    Int16(i16),
    Int32(i32),
    Int64(i64),
    Nat(u128),
    Nat8(u8),
    Nat16(u16),
    Nat32(u32),
    Nat64(u64),
    Float(Float),
    Text(String),
    Bool(bool),
    Blob(Vec<u8>),
    Class(Vec<PropertyUnstable>),
    Principal(Principal),
    Option(Option<Box<CandyValueUnstable>>),
    Array(Array),
    Nats(Nats),
    Floats(Floats),
    Bytes(Bytes),
    Empty,
}

impl Array {
    /// A frozen (immutable) collection of the given contents.
    pub fn frozen(vals: Vec<CandyValueUnstable>) -> (r: Array)
        ensures
            r == Array::Frozen(vals),
    {
        Array::Frozen(vals)
    }

    /// A thawed (mutable) collection of the given contents.
    pub fn thawed(vals: Vec<CandyValueUnstable>) -> (r: Array)
        ensures
            r == Array::Thawed(vals),
    {
        Array::Thawed(vals)
    }
}

impl Nats {
    /// A frozen (immutable) collection of the given contents.
    pub fn frozen(vals: Vec<u128>) -> (r: Nats)
        ensures
            r == Nats::Frozen(vals),
    {
        Nats::Frozen(vals)
    }

    /// A thawed (mutable) collection of the given contents.
    pub fn thawed(vals: Vec<u128>) -> (r: Nats)
        ensures
            r == Nats::Thawed(vals),
    {
        Nats::Thawed(vals)
    }
}

impl Floats {
    /// A frozen (immutable) collection of the given contents.
    pub fn frozen(vals: Vec<Float>) -> (r: Floats)
        ensures
            r == Floats::Frozen(vals),
    {
        Floats::Frozen(vals)
    }

    /// A thawed (mutable) collection of the given contents.
    pub fn thawed(vals: Vec<Float>) -> (r: Floats)
        ensures
            r == Floats::Thawed(vals),
    {
        Floats::Thawed(vals)
    }
}

impl Bytes {
    /// A frozen (immutable) collection of the given contents.
    pub fn frozen(vals: Vec<u8>) -> (r: Bytes)
        ensures
            r == Bytes::Frozen(vals),
    {
        Bytes::Frozen(vals)
    }

    /// A thawed (mutable) collection of the given contents.
    pub fn thawed(vals: Vec<u8>) -> (r: Bytes)
        ensures
            r == Bytes::Thawed(vals),
    {
        Bytes::Thawed(vals)
    }
}


/// A change to one named field.
#[derive(Debug)]
pub struct UpdateUnstable {
    pub name: String,
    pub mode: UpdateModeUnstable,
}

/// How a field changes: set its value, set and lock it, or change its sub-fields.
#[derive(Debug)]
pub enum UpdateModeUnstable {
    Assign(CandyValueUnstable),
    Lock(CandyValueUnstable),
    Next(Vec<UpdateUnstable>),
}

/// A batch of updates to the record with the given id.
#[derive(Debug)]
pub struct UpdateRequestUnstable {
    pub id: String,
    pub update: Vec<UpdateUnstable>,
}

/// One working value of a workspace.
pub type DataChunk = CandyValueUnstable;

/// An ordered sequence of working chunks.
pub type DataZone = Vec<DataChunk>;

/// An ordered sequence of working zones.
pub type Workspace = Vec<DataZone>;

} // verus!
