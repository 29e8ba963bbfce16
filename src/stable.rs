//! The persisted ("stable") form of values.

use vstd::prelude::*;
use crate::types::{Float, Principal};

verus! {

/// A persisted array, frozen (immutable) or thawed (mutable once restored).
#[derive(Debug)]
pub enum Array {
    Frozen(Vec<CandyValue>),
    Thawed(Vec<CandyValue>),
}

/// A persisted vector of unsigned 128-bit integers.
#[derive(Debug)]
pub enum Nats {
    Frozen(Vec<u128>),
    Thawed(Vec<u128>),
}

/// A persisted vector of floats.
#[derive(Debug)]
pub enum Floats {
    Frozen(Vec<Float>),
    Thawed(Vec<Float>),
}

/// A persisted byte string.
#[derive(Debug)]
pub enum Bytes {
    Frozen(Vec<u8>),
    Thawed(Vec<u8>),
}

/// A persisted named field.
#[derive(Debug)]
pub struct Property {
    pub name: String,
    pub value: CandyValue,
    pub immutable: bool,
}

/// Why an operation on a persisted property failed.
#[derive(PartialEq, Eq, Structural, Clone, Copy, Debug)]
pub enum PropertyError {
    Unauthorized,
    NotFound,
    InvalidRequest,
    AuthorizedPrincipalLimitReached(u128),
    Immutable,
}

/// A value in its persisted form.
#[derive(Debug)]
pub enum CandyValue {
    Int(i128),
    Int8(i8),
    Int16(i16),
    Int32(i32),
    Int64(i64),
    Nat(u128),
    Nat8(u8),
    Nat16(u16),
    Nat32(u32),
    Nat64(u64),
    Float(Float),
    Text(String),
    Bool(bool),
    Blob(Vec<u8>),
    Class(Vec<Property>),
    Principal(Principal),
    Option(Option<Box<CandyValue>>),
    Array(Array),
    Nats(Nats),
    Floats(Floats),
    Bytes(Bytes),
    Empty,
}

impl Array {
    /// A frozen (immutable) collection of the given contents.
    pub fn frozen(vals: Vec<CandyValue>) -> (r: Array)
        ensures
            r == Array::Frozen(vals),
    {
        Array::Frozen(vals)
    }

    /// A thawed (mutable) collection of the given contents.
    pub fn thawed(vals: Vec<CandyValue>) -> (r: Array)
        ensures
            r == Array::Thawed(vals),
    {
        Array::Thawed(vals)
    }
}

impl Nats {
    /// A frozen (immutable) collection of the given contents.
    pub fn frozen(vals: Vec<u128>) -> (r: Nats)
        ensures
            r == Nats::Frozen(vals),
    {
        Nats::Frozen(vals)
    }

    /// A thawed (mutable) collection of the given contents.
    pub fn thawed(vals: Vec<u128>) -> (r: Nats)
        ensures
            r == Nats::Thawed(vals),
    {
        Nats::Thawed(vals)
    }
}

impl Floats {
    /// A frozen (immutable) collection of the given contents.
    pub fn frozen(vals: Vec<Float>) -> (r: Floats)
        ensures
            r == Floats::Frozen(vals),
    {
        Floats::Frozen(vals)
    }

    /// A thawed (mutable) collection of the given contents.
    pub fn thawed(vals: Vec<Float>) -> (r: Floats)
        ensures
            r == Floats::Thawed(vals),
    {
        Floats::Thawed(vals)
    }
}

impl Bytes {
    /// A frozen (immutable) collection of the given contents.
    pub fn frozen(vals: Vec<u8>) -> (r: Bytes)
        ensures
            r == Bytes::Frozen(vals),
    {
        Bytes::Frozen(vals)
    }

    /// A thawed (mutable) collection of the given contents.
    pub fn thawed(vals: Vec<u8>) -> (r: Bytes)
        ensures
            r == Bytes::Thawed(vals),
    {
        Bytes::Thawed(vals)
    }
}


/// A path of field names to read.
#[derive(Debug)]
pub struct Query {
    pub name: String,
    pub next: Vec<Query>,
}

/// Which fields a query reads.
#[derive(Debug)]
pub enum QueryMode {
    All,
    Fields(Vec<Query>),
}

/// A change to one named field.
#[derive(Debug)]
pub struct Update {
    pub name: String,
    pub mode: UpdateMode,
}

/// How a field changes: set its value, set and lock it, or change its sub-fields.
#[derive(Debug)]
pub enum UpdateMode {
    Assign(CandyValue),
    Lock(CandyValue),
    Next(Vec<Update>),
}

/// A batch of updates to the record with the given id.
#[derive(Debug)]
pub struct UpdateRequest {
    pub id: String,
    pub update: Vec<Update>,
}

/// A persisted value with its zone index and chunk index.
pub type AddressedChunk = (u128, u128, CandyValue);

/// A persisted flat array of addressed chunks.
pub type AddressedChunkArray = Vec<AddressedChunk>;

/// A growable array of addressed chunks.
pub type AddressedChunkBuffer = Vec<AddressedChunk>;

} // verus!
