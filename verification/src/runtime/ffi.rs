//! The signatures of native library functions that can be called, chosen from the types of
//! the arguments and of the result.
use vstd::prelude::*;
use crate::text::concat2;

verus! {

/// The type of a native function's result.
#[derive(Debug, Clone, Copy, PartialEq, Eq, Structural)]
pub enum FFIType {
    Int,
    Float,
    Bool,
    Str,
    Void,
}

/// The kind of an argument handed to a native function.
#[derive(Debug, Clone, Copy, PartialEq, Eq, Structural)]
pub enum ArgKind {
    Int,
    Float,
    Bool,
    Str,
    Null,
}

/// A native signature that a call can take.
#[derive(Debug, Clone, Copy, PartialEq, Eq, Structural)]
pub enum Signature {
    /// `fn() -> i64`
    UnitToInt,
    /// `fn() -> f64`
    UnitToFloat,
    /// `fn() -> bool`
    UnitToBool,
    /// `fn()`
    UnitToVoid,
    /// `fn(i64) -> i64`
    IntToInt,
    /// `fn(f64) -> f64`
    FloatToFloat,
    /// `fn(&str)`
    StrToVoid,
    /// `fn(&str) -> String`
    StrToStr,
    /// `fn(i64, i64) -> i64`
    IntIntToInt,
    /// `fn(f64, f64) -> f64`
    FloatFloatToFloat,
}

/// The signature for arguments of the kinds `args` and a result of type `ret`, if one is
/// supported.
pub open spec fn signature_for(args: Seq<ArgKind>, ret: FFIType) -> Option<Signature> {
    if args.len() == 0 {
        match ret {
            FFIType::Int => Some(Signature::UnitToInt),
            FFIType::Float => Some(Signature::UnitToFloat),
            FFIType::Bool => Some(Signature::UnitToBool),
            FFIType::Void => Some(Signature::UnitToVoid),
            FFIType::Str => None,
        }
    } else if args.len() == 1 {
        match (ret, args[0]) {
            (FFIType::Int, ArgKind::Int) => Some(Signature::IntToInt),
            (FFIType::Float, ArgKind::Float) => Some(Signature::FloatToFloat),
            (FFIType::Void, ArgKind::Str) => Some(Signature::StrToVoid),
            (FFIType::Str, ArgKind::Str) => Some(Signature::StrToStr),
            _ => None,
        }
    } else if args.len() == 2 {
        match (ret, args[0], args[1]) {
            (FFIType::Int, ArgKind::Int, ArgKind::Int) => Some(Signature::IntIntToInt),
            (FFIType::Float, ArgKind::Float, ArgKind::Float) => Some(Signature::FloatFloatToFloat),
            _ => None,
        }
    } else {
        None
    }
}

/// The name of an argument's kind.
pub open spec fn kind_text(k: ArgKind) -> Seq<char> {
    match k {
        ArgKind::Int => "int"@,
        ArgKind::Float => "float"@,
        ArgKind::Bool => "bool"@,
        ArgKind::Str => "str"@,
        ArgKind::Null => "null"@,
    }
}

/// The name of a result type as it is printed for debugging.
pub open spec fn type_text(t: FFIType) -> Seq<char> {
    match t {
        FFIType::Int => "Int"@,
        FFIType::Float => "Float"@,
        FFIType::Bool => "Bool"@,
        FFIType::Str => "Str"@,
        FFIType::Void => "Void"@,
    }
}

/// The names of the kinds, each in double quotes, separated by `", "`.
pub open spec fn quoted_kinds(s: Seq<ArgKind>) -> Seq<char>
    decreases s.len(),
{
    if s.len() == 0 {
        Seq::empty()
    } else if s.len() == 1 {
        "\""@ + kind_text(s[0]) + "\""@
    } else {
        quoted_kinds(s.drop_last()) + ", \""@ + kind_text(s.last()) + "\""@
    }
}

/// The message for a call whose signature is not supported.
pub open spec fn unsupported_text(name: Seq<char>, args: Seq<ArgKind>, ret: FFIType) -> Seq<char> {
    "Error FFI: Firma no soportada para '"@ + name + "': Args: ["@ + quoted_kinds(args) + "], Return: "@
        + type_text(ret)
}

impl ArgKind {
    /// The name of the kind.
    pub fn get_type_name(&self) -> (s: &'static str)
        ensures
            s@ == kind_text(*self),
    {
        match self {
            ArgKind::Int => "int",
            ArgKind::Float => "float",
            ArgKind::Bool => "bool",
            ArgKind::Str => "str",
            ArgKind::Null => "null",
        }
    }
}

fn type_name_text(t: FFIType) -> (s: &'static str)
    ensures
        s@ == type_text(t),
{
    match t {
        FFIType::Int => "Int",
        FFIType::Float => "Float",
        FFIType::Bool => "Bool",
        FFIType::Str => "Str",
        FFIType::Void => "Void",
    }
}

/// Calls native functions of loaded libraries.
pub struct FFIHost;

impl FFIHost {
    /// The signature to call a function with arguments of the kinds `args` and a result of
    /// type `return_type`: no arguments with any result but a string; one integer giving an
    /// integer, one float giving a float, one string giving nothing or a string; two integers
    /// giving an integer, two floats giving a float. Any other call is not supported.
    pub fn select_signature(&self, args: &Vec<ArgKind>, return_type: FFIType) -> (r: Option<Signature>)
        ensures
            r == signature_for(args@, return_type),
    {
        if args.len() == 0 {
            match return_type {
                FFIType::Int => Some(Signature::UnitToInt),
                FFIType::Float => Some(Signature::UnitToFloat),
                FFIType::Bool => Some(Signature::UnitToBool),
                FFIType::Void => Some(Signature::UnitToVoid),
                FFIType::Str => None,
            }
        } else if args.len() == 1 {
            match (return_type, args[0]) {
                (FFIType::Int, ArgKind::Int) => Some(Signature::IntToInt),
                (FFIType::Float, ArgKind::Float) => Some(Signature::FloatToFloat),
                (FFIType::Void, ArgKind::Str) => Some(Signature::StrToVoid),
                (FFIType::Str, ArgKind::Str) => Some(Signature::StrToStr),
                _ => None,
            }
        } else if args.len() == 2 {
            match (return_type, args[0], args[1]) {
                (FFIType::Int, ArgKind::Int, ArgKind::Int) => Some(Signature::IntIntToInt),
                (FFIType::Float, ArgKind::Float, ArgKind::Float) => Some(Signature::FloatFloatToFloat),
                _ => None,
            }
        } else {
            None
        }
    }

    /// The error message for calling `func_name` with arguments of the kinds `args` and a
    /// result of type `return_type` when no signature supports it.
    pub fn unsupported_message(&self, func_name: &str, args: &Vec<ArgKind>, return_type: FFIType) -> (s: String)
        ensures
            s@ == unsupported_text(func_name@, args@, return_type),
    {
        let mut list = String::new();
        let mut i: usize = 0;
        while i < args.len()
            invariant
                i <= args@.len(),
                list@ == quoted_kinds(args@.subrange(0, i as int)),
            decreases args@.len() - i,
        {
            let ghost pre = args@.subrange(0, i as int);
            assert(args@.subrange(0, i + 1).drop_last() =~= pre);
            assert(args@.subrange(0, i + 1).last() == args@[i as int]);
            if i == 0 {
                assert(args@.subrange(0, 1)[0] == args@[0]);
                list.append("\"");
            } else {
                list.append(", \"");
            }
            list.append(args[i].get_type_name());
            list.append("\"");
            i = i + 1;
        }
        assert(args@.subrange(0, args@.len() as int) =~= args@);
        let a = concat2("Error FFI: Firma no soportada para '", func_name);
        let b = concat2(a.as_str(), "': Args: [");
        let c = concat2(b.as_str(), list.as_str());
        let d = concat2(c.as_str(), "], Return: ");
        concat2(d.as_str(), type_name_text(return_type))
    }
}

} // verus!
