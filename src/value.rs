use vstd::prelude::*;

verus! {

/// A structured value as the store keeps it: scalars, lists and records of named fields.
///
/// Integers that fit an `i64` are held as `Int`; any other number is held as
/// the decimal text it was written with.
#[derive(Debug, PartialEq, Eq)]
pub enum Value {
    Null,
    Bool(bool),
    Int(i64),
    Number(String),
    Text(String),
    List(Vec<Value>),
    Record(Vec<(String, Value)>),
}

} // verus!
