//! The universal value: one decoded record or a part of one.
use crate::error::Result;
use vstd::prelude::*;

verus! {

/// One structured value, as any supported format can hold it.
///
/// Floating point values are held by their IEEE-754 bit pattern, so that they
/// compare, order and hash by their bits.
#[derive(Debug, PartialEq, Eq, Hash)]
pub enum Value {
    Unit,
    Bool(bool),
    I8(i8),
    I16(i16),
    I32(i32),
    I64(i64),
    U8(u8),
    U16(u16),
    U32(u32),
    U64(u64),
    F32(u32),
    F64(u64),
    Char(char),
    String(String),
    Bytes(Vec<u8>),
    Sequence(Vec<Value>),
    /// Pairs in insertion order; keys may repeat and need not be strings.
    Mapping(Vec<(Value, Value)>),
}

impl Value {
    /// A 32-bit float value, given by its bit pattern.
    pub fn from_f32_bits(bits: u32) -> (r: Value)
        ensures
            r == Value::F32(bits),
    {
        Value::F32(bits)
    }

    /// A 64-bit float value, given by its bit pattern.
    pub fn from_f64_bits(bits: u64) -> (r: Value)
        ensures
            r == Value::F64(bits),
    {
        Value::F64(bits)
    }
}

/// A decoder that yields one record per call.
///
/// `read` returns `Ok(None)` once its stream is exhausted, and again on every
/// later call. After an error a source should not be read again.
pub trait Source {
    fn read(&mut self) -> Result<Option<Value>>;
}

/// An encoder that takes one record per call.
///
/// A sink writes what it buffered when it is finished or released.
pub trait Sink {
    fn write(&mut self, value: Value) -> Result<()>;
}

} // verus!
