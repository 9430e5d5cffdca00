//! A function compiled to instructions.
use vstd::prelude::*;
use crate::ast::{PrimitiveKind, Type};
use crate::ir::instruction::{Instruction, LabelEntry};
use crate::runtime::dynamic::DynamicValue;
use crate::runtime::values::RuntimeValue;
use crate::text::concat2;

verus! {

/// A compiled function: its name, parameters, body, the body's labels, and whether it is
/// asynchronous.
#[derive(Debug)]
pub struct IRFunctionValue {
    pub name: String,
    pub params: Vec<String>,
    pub body: Vec<Instruction>,
    pub labels: Vec<LabelEntry>,
    pub is_async: bool,
}

/// `n` copies of the type `any`.
pub open spec fn any_params(n: nat) -> Seq<Type> {
    Seq::new(n, |i: int| Type::Primitive(PrimitiveKind::Any))
}

impl IRFunctionValue {
    pub fn new(name: String, params: Vec<String>, body: Vec<Instruction>, labels: Vec<LabelEntry>, is_async: bool) -> (f: IRFunctionValue)
        ensures
            f.name == name,
            f.params == params,
            f.body == body,
            f.labels == labels,
            f.is_async == is_async,
    {
        IRFunctionValue { name, params, body, labels, is_async }
    }
}

impl DynamicValue for IRFunctionValue {
    /// A function type that takes as many values of any type as the function has
    /// parameters and returns a value of any type.
    fn get_type(&self) -> (t: Type)
        ensures
            t matches Type::Function { params, return_type, is_variadic }
                && params@ == any_params(self.params@.len())
                && *return_type == Type::Primitive(PrimitiveKind::Any) && !is_variadic,
    {
        let n = self.params.len();
        let mut params: Vec<Type> = Vec::new();
        let mut i: usize = 0;
        while i < n
            invariant
                i <= n,
                params@ == any_params(i as nat),
            decreases n - i,
        {
            params.push(Type::Primitive(PrimitiveKind::Any));
            i = i + 1;
            assert(params@ =~= any_params(i as nat));
        }
        Type::Function { params, return_type: Box::new(Type::Primitive(PrimitiveKind::Any)), is_variadic: false }
    }

    /// `[IR Function: name]`.
    fn to_string(&self) -> (s: String)
        ensures
            s@ == "[IR Function: "@ + self.name@ + "]"@,
    {
        let a = concat2("[IR Function: ", self.name.as_str());
        concat2(a.as_str(), "]")
    }

    fn kind_name(&self) -> (s: &str)
        ensures
            s@ == "IRFunction"@,
    {
        "IRFunction"
    }

    /// Always fails: a compiled function runs only on the virtual machine.
    fn call(&self, args: Vec<RuntimeValue>) -> (r: Result<RuntimeValue, String>)
        ensures
            r matches Err(e) && e@ == "IR functions must be called through VM.call_function"@,
    {
        Err("IR functions must be called through VM.call_function".to_string())
    }
}

} // verus!
