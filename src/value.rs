//! A MessagePack value held as plain data.
use vstd::prelude::*;

verus! {

/// An integer as MessagePack carries it: a non-negative value that fits in
/// `u64`, or a negative value that fits in `i64`.
#[derive(Clone, Copy, Debug, PartialEq, Eq, Structural)]
pub enum Integer {
    PosInt(u64),
    NegInt(i64),
}

impl Integer {
    /// The mathematical value of the integer.
    pub open spec fn value(self) -> int {
        match self {
            Integer::PosInt(n) => n as int,
            Integer::NegInt(n) => n as int,
        }
    }

    pub fn from_u64(n: u64) -> (r: Integer)
        ensures
            r == Integer::PosInt(n),
    {
        Integer::PosInt(n)
    }

    pub fn from_i64(n: i64) -> (r: Integer)
        ensures
            r.value() == n,
            n >= 0 ==> r == Integer::PosInt(n as u64),
            n < 0 ==> r == Integer::NegInt(n),
    {
        if n >= 0 {
            Integer::PosInt(n as u64)
        } else {
            Integer::NegInt(n)
        }
    }

    /// The value as a `u64`, where it is one.
    pub fn as_u64(&self) -> (r: Option<u64>)
        ensures
            r == (if 0 <= self.value() <= u64::MAX {
                Some(self.value() as u64)
            } else {
                None
            }),
    {
        match *self {
            Integer::PosInt(n) => Some(n),
            Integer::NegInt(n) => if n >= 0 {
                Some(n as u64)
            } else {
                None
            },
        }
    }

    /// The value as a `u32`, where it is one.
    pub fn as_u32(&self) -> (r: Option<u32>)
        ensures
            r == (if 0 <= self.value() <= u32::MAX {
                Some(self.value() as u32)
            } else {
                None
            }),
    {
        match self.as_u64() {
            Some(n) => if n <= u32::MAX as u64 {
                Some(n as u32)
            } else {
                None
            },
            None => None,
        }
    }
}

/// A MessagePack string: valid UTF-8 text, or the raw bytes of one that is not.
#[derive(Debug, PartialEq)]
pub enum Utf8String {
    Valid(String),
    Invalid(Vec<u8>),
}

impl Utf8String {
    pub fn from_str(s: &str) -> (r: Utf8String)
        ensures
            r matches Utf8String::Valid(t) && t@ == s@,
    {
        Utf8String::Valid(s.to_string())
    }

    pub fn is_valid(&self) -> (r: bool)
        ensures
            r == (self is Valid),
    {
        match self {
            Utf8String::Valid(_) => true,
            Utf8String::Invalid(_) => false,
        }
    }
}

/// A dynamic MessagePack value. Floating-point values are kept as their
/// IEEE 754 bit patterns.
#[derive(Debug, PartialEq)]
pub enum Value {
    Nil,
    Boolean(bool),
    Integer(Integer),
    F32(u32),
    F64(u64),
    String(Utf8String),
    Binary(Vec<u8>),
    Array(Vec<Value>),
    Mapping(Vec<(Value, Value)>),
    Ext(i8, Vec<u8>),
}

impl Value {
    pub fn is_nil(&self) -> (r: bool)
        ensures
            r == (self is Nil),
    {
        match self {
            Value::Nil => true,
            _ => false,
        }
    }
}

} // verus!
