//! Values of kinds defined outside the core value type, such as compiled functions and
//! classes.
use vstd::prelude::*;
use crate::ast::Type;
use crate::runtime::values::RuntimeValue;

verus! {

/// A value that knows its type, its text, and optionally its properties and how to call it.
pub trait DynamicValue {
    /// The value's type.
    fn get_type(&self) -> Type;

    /// The value as text.
    fn to_string(&self) -> String;

    /// The property `name`; none by default.
    fn get_property(&self, name: &str) -> Option<RuntimeValue> {
        None
    }

    /// Sets the property `name`; by default the value has no assignable properties.
    fn set_property(&mut self, name: &str, value: RuntimeValue) -> Result<(), String> {
        Err("This value does not support property assignment".to_string())
    }

    /// Calls the value; by default it is not callable.
    fn call(&self, args: Vec<RuntimeValue>) -> Result<RuntimeValue, String> {
        Err("This value is not callable".to_string())
    }

    /// The name of the value's kind.
    fn kind_name(&self) -> &str;
}

} // verus!
