//! Values that carry a `return`, `break`, `continue` or `throw` out of a statement.
use vstd::prelude::*;
use crate::runtime::values::RuntimeValue;

verus! {

/// A `return` with its value.
#[derive(Debug)]
pub struct ReturnValue {
    pub value: RuntimeValue,
}

impl ReturnValue {
    pub fn new(value: RuntimeValue) -> (r: ReturnValue)
        ensures
            r.value == value,
    {
        ReturnValue { value }
    }
}

/// A `break`.
#[derive(Debug, Clone, Copy)]
pub struct BreakValue;

/// A `continue`.
#[derive(Debug, Clone, Copy)]
pub struct ContinueValue;

/// A thrown value.
#[derive(Debug)]
pub struct ThrownValue {
    pub value: RuntimeValue,
}

impl ThrownValue {
    pub fn new(value: RuntimeValue) -> (t: ThrownValue)
        ensures
            t.value == value,
    {
        ThrownValue { value }
    }
}

} // verus!
