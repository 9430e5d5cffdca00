//! The intermediate representation: instructions, programs, and the passes over them.
pub mod instruction;
pub mod optimizer;
pub mod ir_function;
pub mod ir_class;
pub mod compiler;
pub mod vm;
