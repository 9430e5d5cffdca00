use raccoon::parser::declarations::Declarations;
use raccoon::parser::expressions::Expressions;
use raccoon::parser::state::ParserState;
use raccoon::parser::types::Types;
use raccoon::ast::{Expr, PrimitiveKind, Program, Stmt, Type, VarPattern};
use raccoon::ir::compiler::{FloatDecoder, IRCompiler};
use raccoon::ir::instruction::{IRProgram, Instruction, LabelEntry, Register};
use raccoon::ir::optimizer::{
    constant_folding, dead_code_elimination, fold_binary_op, fold_unary_op, jump_threading, remove_nops, IROptimizer,
};
use raccoon::lexer::Lexer;
use raccoon::parser::Parser;
use raccoon::runtime::builtins::{
    builtin_len, future_all, future_any, future_race, future_reject, future_resolve, object_assign, object_keys,
    setup_builtins,
};
use raccoon::runtime::call_stack::{CallStack, StackFrame};
use raccoon::runtime::environment::Environment;
use raccoon::runtime::ffi_registry::FFIRegistry;
use raccoon::runtime::module_registry::ModuleRegistry;
use raccoon::runtime::values::{
    Entry, FutureState, FutureValue, ListValue, NativeFn, NativeFunctionValue, ObjectValue, RuntimeValue,
};
use raccoon::text::{i64_to_string, u64_to_string};
use raccoon::tokens::{BinaryOperator, TokenType, UnaryOperator};

use raccoon::ir::ir_class::IRClassValue;
use raccoon::ir::ir_function::IRFunctionValue;
use raccoon::output_style::{clear_screen_text, goodbye_text, welcome_banner_text};
use raccoon::runtime::builtins::text_of;
use raccoon::runtime::builtins_builders::{check_arg_count, extract_int, extract_string, validate_futures_list};
use raccoon::runtime::conversion::{FromRaccoon, ToRaccoon};
use raccoon::runtime::decorators::deprecation_warning;
use raccoon::runtime::dynamic::DynamicValue;

struct TextFloats;

impl FloatDecoder for TextFloats {
    fn float_bits(&self, text: &str) -> u64 {
        text.parse::<f64>().map(|f| f.to_bits()).unwrap_or(0)
    }
}

fn any() -> Type {
    Type::Primitive(PrimitiveKind::Any)
}

fn resolved(v: RuntimeValue) -> RuntimeValue {
    RuntimeValue::Future(FutureValue { state: FutureState::Resolved(Box::new(v)), inner_type: any() })
}

fn rejected(msg: &str) -> RuntimeValue {
    RuntimeValue::Future(FutureValue { state: FutureState::Rejected(msg.to_string()), inner_type: any() })
}

fn pending() -> RuntimeValue {
    RuntimeValue::Future(FutureValue { state: FutureState::Pending, inner_type: any() })
}

fn list(v: Vec<RuntimeValue>) -> RuntimeValue {
    RuntimeValue::List(ListValue::new(v, any()))
}

fn rejection_of(v: &RuntimeValue) -> Option<String> {
    match v {
        RuntimeValue::Future(f) => match &f.state {
            FutureState::Rejected(e) => Some(e.clone()),
            _ => None,
        },
        _ => None,
    }
}

fn resolution_of(v: &RuntimeValue) -> Option<&RuntimeValue> {
    match v {
        RuntimeValue::Future(f) => match &f.state {
            FutureState::Resolved(x) => Some(x),
            _ => None,
        },
        _ => None,
    }
}

fn lex(src: &str) -> Vec<raccoon::tokens::Token> {
    let mut lexer = Lexer::new(src.to_string(), None);
    lexer.tokenize().expect("lexes")
}

fn parse(src: &str) -> Program {
    let mut parser = Parser::new(lex(src), None);
    parser.parse().expect("parses")
}

// ---- text formatting (wrappers String::push and chars) ----

#[test]
fn decimal_formatting_of_integers() {
    assert_eq!(u64_to_string(0), "0");
    assert_eq!(u64_to_string(18446744073709551615), "18446744073709551615");
    assert_eq!(i64_to_string(-42), "-42");
    assert_eq!(i64_to_string(i64::MIN), "-9223372036854775808");
}

// ---- lexer and parser ----

#[test]
fn tokenize_ends_with_eof() {
    let tokens = lex("let x = 42;");
    assert_eq!(tokens.last().unwrap().token_type, TokenType::Eof);
    assert_eq!(tokens[0].token_type, TokenType::Let);
    assert_eq!(tokens[1].token_type, TokenType::Identifier);
    assert_eq!(tokens[1].value, "x");
    assert_eq!(tokens[3].token_type, TokenType::IntLiteral);
    assert_eq!(tokens[3].value, "42");
}

#[test]
fn tokenize_reports_unterminated_string() {
    let mut lexer = Lexer::new("\"abc".to_string(), None);
    assert!(lexer.tokenize().is_err());
}

#[test]
fn parse_variable_declaration() {
    let program = parse("let x = 1 + 2;");
    assert_eq!(program.stmts.len(), 1);
    match &program.stmts[0] {
        Stmt::VarDecl { pattern: VarPattern::Identifier(name), initializer: Some(Expr::Binary { operator, .. }), .. } => {
            assert_eq!(name, "x");
            assert_eq!(*operator, BinaryOperator::Add);
        },
        _ => panic!("expected a variable declaration"),
    }
}

// ---- environment laws ----

#[test]
fn declare_then_get_gives_the_value() {
    let mut env = Environment::new(None);
    assert!(env.declare("x".to_string(), RuntimeValue::Int(7)).is_ok());
    assert!(matches!(env.get("x", (1, 1)), Ok(RuntimeValue::Int(7))));
    assert!(env.exists_name("x"));
    assert!(!env.exists_name("y"));
}

#[test]
fn declaring_twice_in_one_scope_fails() {
    let mut env = Environment::new(None);
    assert!(env.declare("x".to_string(), RuntimeValue::Int(1)).is_ok());
    let err = env.declare("x".to_string(), RuntimeValue::Int(2)).unwrap_err();
    assert_eq!(err.message, "Variable 'x' is already declared");
}

#[test]
fn inner_scope_shadows_and_closing_restores() {
    let mut env = Environment::new(None);
    env.declare("x".to_string(), RuntimeValue::Int(1)).unwrap();
    env.push_scope();
    env.declare("x".to_string(), RuntimeValue::Int(2)).unwrap();
    assert!(matches!(env.get("x", (0, 0)), Ok(RuntimeValue::Int(2))));
    env.pop_scope();
    assert!(matches!(env.get("x", (0, 0)), Ok(RuntimeValue::Int(1))));
}

#[test]
fn assign_then_get_and_undeclared_errors() {
    let mut env = Environment::new(None);
    env.declare("x".to_string(), RuntimeValue::Int(1)).unwrap();
    env.assign("x", RuntimeValue::Bool(true), (2, 3)).unwrap();
    assert!(matches!(env.get("x", (0, 0)), Ok(RuntimeValue::Bool(true))));
    let err = env.assign("y", RuntimeValue::Null, (2, 3)).unwrap_err();
    assert_eq!(err.message, "Variable 'y' is not declared");
    assert_eq!(err.position, (2, 3));
    let err = env.get("z", (4, 5)).unwrap_err();
    assert_eq!(err.message, "Variable 'z' is not declared");
}

// ---- call stack law ----

#[test]
fn push_then_pop_returns_the_frame() {
    let mut stack = CallStack::new();
    stack.push(StackFrame::new("f".to_string(), (3, 4), None));
    let frame = stack.pop().unwrap();
    assert_eq!(frame.function_name, "f");
    assert_eq!(stack.depth(), 0);
    assert!(stack.pop().is_none());
    assert_eq!(StackFrame::new("g".to_string(), (1, 2), None).format(), "  at g (<unknown>:1:2)");
}

// ---- constant folding ----

#[test]
fn fold_binary_integers_strings_booleans() {
    assert!(matches!(fold_binary_op(&RuntimeValue::Int(2), &RuntimeValue::Int(3), &BinaryOperator::Multiply), Some(RuntimeValue::Int(6))));
    assert!(matches!(fold_binary_op(&RuntimeValue::Int(-7), &RuntimeValue::Int(2), &BinaryOperator::Divide), Some(RuntimeValue::Int(-3))));
    assert!(matches!(fold_binary_op(&RuntimeValue::Int(-7), &RuntimeValue::Int(2), &BinaryOperator::Modulo), Some(RuntimeValue::Int(-1))));
    assert!(fold_binary_op(&RuntimeValue::Int(1), &RuntimeValue::Int(0), &BinaryOperator::Divide).is_none());
    assert!(fold_binary_op(&RuntimeValue::Int(i64::MAX), &RuntimeValue::Int(1), &BinaryOperator::Add).is_none());
    assert!(matches!(fold_binary_op(&RuntimeValue::Int(1), &RuntimeValue::Int(2), &BinaryOperator::LessThan), Some(RuntimeValue::Bool(true))));
    match fold_binary_op(&RuntimeValue::Str("ab".to_string()), &RuntimeValue::Str("cd".to_string()), &BinaryOperator::Add) {
        Some(RuntimeValue::Str(s)) => assert_eq!(s, "abcd"),
        _ => panic!("expected a string"),
    }
    assert!(matches!(fold_binary_op(&RuntimeValue::Bool(true), &RuntimeValue::Bool(false), &BinaryOperator::Or), Some(RuntimeValue::Bool(true))));
    assert!(fold_binary_op(&RuntimeValue::Int(1), &RuntimeValue::Bool(true), &BinaryOperator::Add).is_none());
    assert!(matches!(fold_unary_op(&RuntimeValue::Int(5), &UnaryOperator::Negate), Some(RuntimeValue::Int(-5))));
    assert!(fold_unary_op(&RuntimeValue::Int(i64::MIN), &UnaryOperator::Negate).is_none());
    assert!(matches!(fold_unary_op(&RuntimeValue::Bool(true), &UnaryOperator::Not), Some(RuntimeValue::Bool(false))));
}

#[test]
fn constant_folding_replaces_known_operations() {
    let instrs = vec![
        Instruction::LoadConst { dest: Register::Temp(0), value: RuntimeValue::Int(2) },
        Instruction::LoadConst { dest: Register::Temp(1), value: RuntimeValue::Int(3) },
        Instruction::BinaryOp { dest: Register::Temp(2), left: Register::Temp(0), right: Register::Temp(1), op: BinaryOperator::Add },
        Instruction::Move { dest: Register::Local("x".to_string()), src: Register::Temp(2) },
        Instruction::UnaryOp { dest: Register::Temp(3), operand: Register::Local("x".to_string()), op: UnaryOperator::Negate },
        Instruction::BinaryOp { dest: Register::Temp(4), left: Register::Temp(3), right: Register::Global("g".to_string()), op: BinaryOperator::Add },
    ];
    let out = constant_folding(instrs);
    assert_eq!(out.len(), 6);
    assert!(matches!(&out[2], Instruction::LoadConst { dest: Register::Temp(2), value: RuntimeValue::Int(5) }));
    assert!(matches!(&out[4], Instruction::LoadConst { dest: Register::Temp(3), value: RuntimeValue::Int(-5) }));
    assert!(matches!(&out[5], Instruction::BinaryOp { .. }));
}

#[test]
fn dead_code_after_return_is_removed() {
    let instrs = vec![
        Instruction::Return { value: None },
        Instruction::Comment { text: "unreachable".to_string() },
    ];
    let out = dead_code_elimination(instrs, &vec![]);
    assert_eq!(out.len(), 1);
    assert!(matches!(out[0], Instruction::Return { .. }));
}

#[test]
fn jumps_keep_their_targets_reachable() {
    let labels = vec![LabelEntry { name: "end".to_string(), position: 2 }];
    let instrs = vec![
        Instruction::Jump { label: "end".to_string() },
        Instruction::Comment { text: "skipped".to_string() },
        Instruction::Label { name: "end".to_string() },
        Instruction::Nop,
    ];
    let out = dead_code_elimination(instrs, &labels);
    assert_eq!(out.len(), 3);
    assert!(matches!(out[1], Instruction::Label { .. }));
    let out = remove_nops(out);
    assert_eq!(out.len(), 2);
}

#[test]
fn jump_threading_follows_chains() {
    let labels = vec![
        LabelEntry { name: "a".to_string(), position: 1 },
        LabelEntry { name: "b".to_string(), position: 3 },
    ];
    let instrs = vec![
        Instruction::Jump { label: "a".to_string() },
        Instruction::Label { name: "a".to_string() },
        Instruction::Jump { label: "b".to_string() },
        Instruction::Label { name: "b".to_string() },
        Instruction::Return { value: None },
    ];
    let out = jump_threading(instrs, &labels);
    match &out[0] {
        Instruction::Jump { label } => assert_eq!(label, "b"),
        _ => panic!("expected a jump"),
    }
}

#[test]
fn jump_threading_stops_on_cycles() {
    let labels = vec![
        LabelEntry { name: "a".to_string(), position: 0 },
        LabelEntry { name: "b".to_string(), position: 2 },
    ];
    let instrs = vec![
        Instruction::Label { name: "a".to_string() },
        Instruction::Jump { label: "b".to_string() },
        Instruction::Label { name: "b".to_string() },
        Instruction::Jump { label: "a".to_string() },
    ];
    let out = jump_threading(instrs, &labels);
    match &out[1] {
        Instruction::Jump { label } => assert_eq!(label, "b"),
        _ => panic!("expected a jump"),
    }
}

#[test]
fn optimize_leaves_no_nops_and_keeps_labels() {
    let mut program = IRProgram::new();
    program.emit(Instruction::Nop);
    program.emit(Instruction::LoadConst { dest: Register::Temp(0), value: RuntimeValue::Bool(true) });
    program.emit(Instruction::UnaryOp { dest: Register::Temp(1), operand: Register::Temp(0), op: UnaryOperator::Not });
    program.emit_label("end".to_string());
    let out = IROptimizer::new(program).optimize();
    assert!(out.instructions.iter().all(|i| !matches!(i, Instruction::Nop)));
    assert!(out.instructions.len() <= 4);
    assert_eq!(out.labels.len(), 1);
    assert!(out.instructions.iter().any(|i| matches!(i, Instruction::LoadConst { value: RuntimeValue::Bool(false), .. })));
}

// ---- IR program and compiler ----

#[test]
fn emit_label_records_position() {
    let mut program = IRProgram::new();
    program.emit(Instruction::Nop);
    program.emit_label("l".to_string());
    assert_eq!(program.current_position(), 2);
    assert_eq!(program.labels[0].position, 1);
    assert_eq!(program.add_constant(RuntimeValue::Int(1)), 0);
    assert_eq!(program.add_constant(RuntimeValue::Int(1)), 1);
}

#[test]
fn compile_while_loop_records_labels() {
    let program = parse("let i = 0; while (i < 3) { i = i + 1; }");
    let ir = IRCompiler::new().compile(&program, &TextFloats).expect("compiles");
    assert!(!ir.labels.is_empty());
    for entry in &ir.labels {
        match &ir.instructions[entry.position] {
            Instruction::Label { name } => assert_eq!(name, &entry.name),
            _ => panic!("label position does not hold its label"),
        }
    }
    assert!(matches!(ir.instructions[0], Instruction::Declare { .. }));
}

#[test]
fn compile_rejects_invalid_assignment_target() {
    let program = parse("1 = 2;");
    let err = IRCompiler::new().compile(&program, &TextFloats).unwrap_err();
    assert_eq!(err.message, "Invalid assignment target");
}

#[test]
fn compile_float_literal_uses_decoder() {
    let program = parse("let f = 1.5;");
    let ir = IRCompiler::new().compile(&program, &TextFloats).expect("compiles");
    assert!(ir.instructions.iter().any(|i| matches!(i, Instruction::LoadConst { value: RuntimeValue::Float(b), .. } if *b == 1.5f64.to_bits())));
}

// ---- built-in functions ----

#[test]
fn future_resolve_and_reject() {
    let r = future_resolve(&vec![RuntimeValue::Int(3)]);
    assert!(matches!(resolution_of(&r), Some(RuntimeValue::Int(3))));
    let r = future_resolve(&vec![]);
    assert!(matches!(resolution_of(&r), Some(RuntimeValue::Null)));
    assert_eq!(rejection_of(&future_reject(&vec![])), Some("Unknown error".to_string()));
    assert_eq!(rejection_of(&future_reject(&vec![RuntimeValue::Str("boom".to_string())])), Some("boom".to_string()));
    assert_eq!(rejection_of(&future_reject(&vec![RuntimeValue::Int(-12)])), Some("-12".to_string()));
}

#[test]
fn future_all_cases() {
    let r = future_all(&vec![list(vec![resolved(RuntimeValue::Int(1)), resolved(RuntimeValue::Int(2))])]);
    match resolution_of(&r) {
        Some(RuntimeValue::List(l)) => {
            assert_eq!(l.elements.len(), 2);
            assert!(matches!(l.elements[1], RuntimeValue::Int(2)));
        },
        _ => panic!("expected a resolved list"),
    }
    let r = future_all(&vec![list(vec![resolved(RuntimeValue::Int(1)), rejected("bad")])]);
    assert_eq!(rejection_of(&r), Some("bad".to_string()));
    let r = future_all(&vec![list(vec![pending()])]);
    assert_eq!(rejection_of(&r), Some("Cannot call Future.all() on pending futures. Use 'await' on all futures first.".to_string()));
    let r = future_all(&vec![RuntimeValue::Int(1)]);
    assert_eq!(rejection_of(&r), Some("Future.all() requires a list of futures".to_string()));
}

#[test]
fn future_race_and_any() {
    let r = future_race(&vec![list(vec![pending(), resolved(RuntimeValue::Bool(true)), rejected("late")])]);
    assert!(matches!(resolution_of(&r), Some(RuntimeValue::Bool(true))));
    let r = future_race(&vec![list(vec![])]);
    assert_eq!(rejection_of(&r), Some("Future.race() requires at least one future".to_string()));
    let r = future_any(&vec![list(vec![rejected("x"), resolved(RuntimeValue::Int(9))])]);
    assert!(matches!(resolution_of(&r), Some(RuntimeValue::Int(9))));
    let r = future_any(&vec![list(vec![rejected("x")])]);
    assert_eq!(rejection_of(&r), Some("All futures were rejected".to_string()));
}

#[test]
fn object_keys_and_assign() {
    let obj = RuntimeValue::Object(ObjectValue {
        properties: vec![Entry { key: "a".to_string(), value: RuntimeValue::Int(1) }],
        obj_type: any(),
    });
    let src = RuntimeValue::Object(ObjectValue {
        properties: vec![
            Entry { key: "a".to_string(), value: RuntimeValue::Int(2) },
            Entry { key: "b".to_string(), value: RuntimeValue::Int(3) },
        ],
        obj_type: any(),
    });
    match object_keys(&vec![src.copy()]) {
        RuntimeValue::List(l) => assert_eq!(l.elements.len(), 2),
        _ => panic!("expected a list"),
    }
    match object_assign(&vec![obj, src]) {
        RuntimeValue::Object(o) => {
            assert_eq!(o.properties.len(), 2);
            assert!(o.properties.iter().any(|e| e.key == "a" && matches!(e.value, RuntimeValue::Int(2))));
            assert!(o.properties.iter().any(|e| e.key == "b" && matches!(e.value, RuntimeValue::Int(3))));
        },
        _ => panic!("expected an object"),
    }
}

#[test]
fn len_counts_bytes_elements_and_rejects_others() {
    assert!(matches!(builtin_len(&vec![RuntimeValue::Str("héllo".to_string())]), RuntimeValue::Int(6)));
    assert!(matches!(builtin_len(&vec![list(vec![RuntimeValue::Null])]), RuntimeValue::Int(1)));
    assert!(matches!(builtin_len(&vec![RuntimeValue::Int(1)]), RuntimeValue::Null));
    assert!(matches!(builtin_len(&vec![]), RuntimeValue::Null));
}

#[test]
fn setup_builtins_declares_globals() {
    let mut env = Environment::new(None);
    setup_builtins(&mut env);
    assert!(env.exists_name("print"));
    assert!(env.exists_name("len"));
    assert!(matches!(env.get("Future", (0, 0)), Ok(RuntimeValue::TypeObj(_))));
    assert!(matches!(env.get("Object", (0, 0)), Ok(RuntimeValue::TypeObj(_))));
}

// ---- registries ----

#[test]
fn ffi_registry_register_call_and_clear() {
    let mut reg = FFIRegistry::new();
    let f = NativeFunctionValue::new(NativeFn::Host(5), any());
    assert!(reg.register_function("sqrt".to_string(), Some("math".to_string()), vec![], any(), f).is_ok());
    assert!(reg.exists_name("math.sqrt"));
    assert_eq!(reg.list_namespace("math"), vec!["sqrt".to_string()]);
    reg.clear();
    assert!(!reg.exists_name("math.sqrt"));
    assert!(reg.list_functions().is_empty());
}

#[test]
fn module_registry_loads_once() {
    let mut reg = ModuleRegistry::new();
    reg.register("math", 3);
    assert!(reg.has_module("math"));
    let ran = std::cell::RefCell::new(Vec::new());
    assert_eq!(reg.load_module("math", |l| ran.borrow_mut().push(l)), Ok(()));
    assert!(reg.is_loaded("math"));
    assert_eq!(reg.load_module("math", |l| ran.borrow_mut().push(l)), Ok(()));
    assert_eq!(*ran.borrow(), vec![3]);
    assert_eq!(reg.load_module("io", |l| ran.borrow_mut().push(l)), Err("Module 'io' not found".to_string()));
    assert_eq!(*ran.borrow(), vec![3]);
}

// ---- conversions ----

#[test]
fn conversions_from_runtime_values() {
    let f = |x: f64| RuntimeValue::Float(x.to_bits());
    assert_eq!(i64::from_raccoon(&f(1.5)), Ok(1));
    assert_eq!(i64::from_raccoon(&f(-2.7)), Ok(-2));
    assert_eq!(i64::from_raccoon(&f(f64::NAN)), Ok(0));
    assert_eq!(i64::from_raccoon(&f(f64::INFINITY)), Ok(i64::MAX));
    assert_eq!(i64::from_raccoon(&f(-1e300)), Ok(i64::MIN));
    assert_eq!(i64::from_raccoon(&f(4503599627370497.0)), Ok(4503599627370497));
    assert_eq!(i32::from_raccoon(&f(3e9)), Ok(i32::MAX));
    assert_eq!(i32::from_raccoon(&RuntimeValue::Int((1i64 << 32) + 5)), Ok(5));
    assert_eq!(bool::from_raccoon(&f(-0.0)), Ok(false));
    assert_eq!(bool::from_raccoon(&f(f64::NAN)), Ok(true));
    assert_eq!(bool::from_raccoon(&RuntimeValue::Int(0)), Ok(false));
    assert_eq!(String::from_raccoon(&RuntimeValue::Int(0)), Err("Expected string".to_string()));
    assert_eq!(i64::from_raccoon(&RuntimeValue::Null), Err("Expected integer".to_string()));
    let l = vec![1i64, 2, 3].to_raccoon();
    assert_eq!(Vec::<i64>::from_raccoon(&l), Ok(vec![1, 2, 3]));
    assert_eq!(Option::<i64>::from_raccoon(&RuntimeValue::Null), Ok(None));
    assert!(matches!(Option::<bool>::None.to_raccoon(), RuntimeValue::Null));
}

// ---- compiled values and messages ----

#[test]
fn ir_function_and_class_values() {
    let f = IRFunctionValue::new("f".to_string(), vec!["a".to_string(), "b".to_string()], vec![], vec![], false);
    assert_eq!(f.to_string(), "[IR Function: f]");
    assert_eq!(f.kind_name(), "IRFunction");
    match f.get_type() {
        Type::Function { params, is_variadic, .. } => {
            assert_eq!(params.len(), 2);
            assert!(!is_variadic);
        },
        _ => panic!("expected a function type"),
    }
    assert_eq!(f.call(vec![]).unwrap_err(), "IR functions must be called through VM.call_function");
    assert!(f.get_property("x").is_none());
    let c = IRClassValue::new(
        "C".to_string(),
        None,
        vec![
            ("m".to_string(), vec![], vec![], false),
            ("m".to_string(), vec!["x".to_string()], vec![], true),
        ],
        vec![("p".to_string(), RuntimeValue::Int(1)), ("p".to_string(), RuntimeValue::Int(2))],
    );
    assert_eq!(c.methods.len(), 1);
    assert!(c.methods[0].is_async);
    assert_eq!(c.properties.len(), 1);
    assert!(matches!(c.properties[0].value, RuntimeValue::Int(2)));
    assert_eq!(c.to_string(), "[IR Class: C]");
}

#[test]
fn shell_and_warning_texts() {
    assert_eq!(clear_screen_text(), "\x1b[2J\x1b[H");
    assert_eq!(goodbye_text(), "\n\x1b[96m\x1b[1m\u{1F44B} Goodbye!\x1b[0m\n\n");
    assert!(welcome_banner_text().starts_with("\n\x1b[96m\x1b[1m\u{1F99D} Raccoon Language"));
    assert_eq!(deprecation_warning("old", None), "\u{26A0}\u{FE0F}  Warning: 'old' is deprecated. This function is deprecated");
    assert_eq!(deprecation_warning("old", Some("use new")), "\u{26A0}\u{FE0F}  Warning: 'old' is deprecated. use new");
}

#[test]
fn value_text_and_types() {
    assert_eq!(text_of(&RuntimeValue::Str("s".to_string())), "s");
    assert_eq!(text_of(&RuntimeValue::Bool(false)), "false");
    assert_eq!(text_of(&RuntimeValue::Null), "null");
    assert!(matches!(RuntimeValue::Int(1).get_type(), Type::Primitive(PrimitiveKind::Int)));
    assert!(matches!(list(vec![]).get_type(), Type::List(_)));
}

#[test]
fn global_functions_are_declared() {
    let mut env = Environment::new(None);
    raccoon::runtime::builtins::global::register(&mut env);
    for name in ["print", "println", "eprint", "input", "len"] {
        assert!(env.exists_name(name));
    }
    match env.get("eprint", (0, 0)) {
        Ok(RuntimeValue::NativeFunction(f)) => assert_eq!(f.implementation, NativeFn::Eprint),
        _ => panic!("expected a native function"),
    }
}

// ---- error variants ----

fn lex_error(src: &str) -> String {
    let mut lexer = Lexer::new(src.to_string(), None);
    lexer.tokenize().unwrap_err().message
}

fn parse_error(src: &str) -> String {
    let mut parser = Parser::new(lex(src), None);
    match parser.parse() {
        Ok(_) => parser.errors()[0].message.clone(),
        Err(e) => e.message,
    }
}

#[test]
fn lexer_error_messages() {
    assert_eq!(lex_error("let a = #;"), "Unexpected character: '#'");
    assert_eq!(lex_error("\"open"), "Unterminated string");
    assert_eq!(lex_error("`open"), "Unterminated template string");
}

#[test]
fn parser_error_messages() {
    assert_eq!(parse_error("let = 3;"), "Expected variable name");
    assert!(!parse_error("let x = ;").is_empty());
}

#[test]
fn argument_helpers_report_errors() {
    let args = vec![RuntimeValue::Int(1)];
    assert!(check_arg_count(&args, 1).is_ok());
    assert_eq!(check_arg_count(&args, 2), Err("Expected 2 arguments, got 1".to_string()));
    assert_eq!(extract_int(&args, 0), Ok(1));
    assert!(extract_string(&args, 0).is_err());
    assert_eq!(validate_futures_list(&RuntimeValue::Null).unwrap_err(), "Expected a list of futures");
    assert_eq!(validate_futures_list(&list(vec![RuntimeValue::Int(1)])).unwrap_err(), "List contains non-future elements");
}

#[test]
fn primary_reads_single_token_expressions() {
    let mut state = ParserState::new(lex("42"), None);
    assert!(matches!(Expressions::primary(&mut state), Ok(Expr::IntLiteral { value: 42, .. })));
    assert_eq!(state.current, 1);
    let mut state = ParserState::new(lex("name"), None);
    assert!(matches!(Expressions::primary(&mut state), Ok(Expr::Identifier { ref name, .. }) if name == "name"));
    let mut state = ParserState::new(lex(")"), None);
    match Expressions::primary(&mut state) {
        Err(e) => assert_eq!(e.message, "Expected expression"),
        Ok(_) => panic!("a parenthesis alone is no expression"),
    }
    assert_eq!(state.current, 0);
}

#[test]
fn primary_types_from_one_or_two_tokens() {
    let mut state = ParserState::new(lex("int"), None);
    assert!(matches!(Types::parse_primary_type(&mut state), Ok(Type::Primitive(PrimitiveKind::Int))));
    let mut state = ParserState::new(lex("Point"), None);
    assert!(matches!(Types::parse_primary_type(&mut state), Ok(Type::TypeRef { ref name, .. }) if name == "Point"));
    let mut state = ParserState::new(lex("typeof x"), None);
    assert!(matches!(Types::parse_primary_type(&mut state), Ok(Type::TypeOf(ref name)) if name == "x"));
    let mut state = ParserState::new(lex(";"), None);
    match Types::parse_primary_type(&mut state) {
        Err(e) => assert_eq!(e.message, "Expected type"),
        Ok(_) => panic!("a semicolon is no type"),
    }
}

#[test]
fn declarations_name_their_first_token() {
    let mut state = ParserState::new(lex("Shape { }"), None);
    match Declarations::class_declaration(&mut state, Vec::new()) {
        Ok(Stmt::ClassDecl { name, .. }) => assert_eq!(name, "Shape"),
        other => panic!("expected a class, got {:?}", other),
    }
    let mut state = ParserState::new(lex("{ }"), None);
    match Declarations::class_declaration(&mut state, Vec::new()) {
        Err(e) => assert_eq!(e.message, "Expected class name"),
        Ok(_) => panic!("a class needs a name"),
    }
    assert_eq!(state.current, 0);
}
