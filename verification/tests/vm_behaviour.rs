use raccoon::error::RaccoonError;
use raccoon::ir::instruction::{
    CatchHandler, FieldPattern, IRProgram, Instruction, LabelEntry, MatchArm, MatchPattern, PropertyReg, Register,
    TemplatePart,
};
use raccoon::ir::vm::{ExecutionResult, Step, VmHost, VM};
use raccoon::runtime::builtins::{builtin_len, text_of};
use raccoon::runtime::environment::Environment;
use raccoon::runtime::ffi_registry::FFIRegistry;
use raccoon::runtime::values::{any_type, FutureState, FutureValue, NativeFn, NativeFunctionValue, RuntimeValue};
use raccoon::tokens::{BinaryOperator, UnaryOperator};

/// A host for the tests: integers add and compare, `len` is the only native function, and a
/// nested block runs in a machine of its own.
struct TestHost;

impl VmHost for TestHost {
    fn is_truthy(&mut self, value: &RuntimeValue) -> bool {
        match value {
            RuntimeValue::Bool(b) => *b,
            RuntimeValue::Null => false,
            RuntimeValue::Int(i) => *i != 0,
            _ => true,
        }
    }

    fn binary_op(&mut self, left: RuntimeValue, right: RuntimeValue, op: BinaryOperator) -> Result<RuntimeValue, RaccoonError> {
        match (left, right, op) {
            (RuntimeValue::Int(a), RuntimeValue::Int(b), BinaryOperator::Add) => Ok(RuntimeValue::Int(a + b)),
            (RuntimeValue::Int(a), RuntimeValue::Int(b), BinaryOperator::LessThan) => Ok(RuntimeValue::Bool(a < b)),
            _ => Err(RaccoonError::new("unsupported operator", (0, 0), None)),
        }
    }

    fn display(&mut self, value: &RuntimeValue) -> String {
        text_of(value)
    }

    fn type_object_name(&mut self, _value: &RuntimeValue) -> String {
        "T".to_string()
    }

    fn call_native(&mut self, function: NativeFn, _is_async: bool, args: Vec<RuntimeValue>) -> RuntimeValue {
        match function {
            NativeFn::Len => builtin_len(&args),
            _ => RuntimeValue::Null,
        }
    }

    fn call_instance_method(&mut self, _object: RuntimeValue, method: &str, _args: Vec<RuntimeValue>) -> Result<RuntimeValue, RaccoonError> {
        Ok(RuntimeValue::Str(method.to_string()))
    }

    fn wait(&mut self, future: RuntimeValue) -> Result<RuntimeValue, String> {
        match future {
            RuntimeValue::Future(FutureValue { state: FutureState::Resolved(v), .. }) => Ok(*v),
            RuntimeValue::Future(FutureValue { state: FutureState::Rejected(e), .. }) => Err(e),
            _ => Err("pending".to_string()),
        }
    }

    fn float_step(&mut self, bits: u64, up: bool) -> u64 {
        let f = f64::from_bits(bits);
        (if up { f + 1.0 } else { f - 1.0 }).to_bits()
    }

    fn float_close(&mut self, a: u64, b: u64) -> bool {
        (f64::from_bits(a) - f64::from_bits(b)).abs() < f64::EPSILON
    }

    fn float_le(&mut self, a: u64, b: u64) -> bool {
        f64::from_bits(a) <= f64::from_bits(b)
    }

    fn run(&mut self, env: Environment, body: &Vec<Instruction>) -> Result<RuntimeValue, RaccoonError> {
        let mut vm = VM::new(env);
        let mut pc = 0;
        while pc < body.len() {
            match vm.execute_instruction(self, &body[pc])? {
                ExecutionResult::Return(v) => return Ok(v),
                ExecutionResult::Jump(label) => {
                    return Err(RaccoonError::new(&format!("Unknown label: {}", label), (0, 0), None))
                }
                _ => pc += 1,
            }
        }
        Ok(RuntimeValue::Null)
    }
}

fn t(n: usize) -> Register {
    Register::Temp(n)
}

fn ival(i: i64) -> RuntimeValue {
    RuntimeValue::Int(i)
}

fn s(text: &str) -> RuntimeValue {
    RuntimeValue::Str(text.to_string())
}

fn load(dest: usize, value: RuntimeValue) -> Instruction {
    Instruction::LoadConst { dest: t(dest), value }
}

fn machine() -> VM {
    VM::new(Environment::new(None))
}

/// Runs `instructions` with `labels` to the end and gives the result.
fn run(instructions: Vec<Instruction>, labels: Vec<LabelEntry>) -> Result<RuntimeValue, RaccoonError> {
    run_in(machine(), instructions, labels)
}

fn run_in(mut vm: VM, instructions: Vec<Instruction>, labels: Vec<LabelEntry>) -> Result<RuntimeValue, RaccoonError> {
    vm.load(IRProgram { instructions, constant_pool: Vec::new(), labels });
    let mut host = TestHost;
    loop {
        match vm.step(&mut host)? {
            Step::Running | Step::Outside => {}
            Step::Finished(v) => return Ok(v),
        }
    }
}

fn ret(n: usize) -> Instruction {
    Instruction::Return { value: Some(t(n)) }
}

fn error_of(r: Result<RuntimeValue, RaccoonError>) -> String {
    match r {
        Err(e) => e.message,
        Ok(v) => panic!("expected an error, got {:?}", v),
    }
}

fn as_int(r: Result<RuntimeValue, RaccoonError>) -> i64 {
    match r {
        Ok(RuntimeValue::Int(i)) => i,
        other => panic!("expected an integer, got {:?}", other),
    }
}

fn as_str(r: Result<RuntimeValue, RaccoonError>) -> String {
    match r {
        Ok(RuntimeValue::Str(s)) => s,
        other => panic!("expected a string, got {:?}", other),
    }
}

fn as_bool(r: Result<RuntimeValue, RaccoonError>) -> bool {
    match r {
        Ok(RuntimeValue::Bool(b)) => b,
        other => panic!("expected a boolean, got {:?}", other),
    }
}

#[test]
fn vm_without_program_finishes_with_null() {
    let mut vm = machine();
    assert_eq!(vm.get_program_len(), 0);
    assert!(matches!(vm.step(&mut TestHost), Ok(Step::Finished(RuntimeValue::Null))));
}

#[test]
fn vm_returns_a_loaded_constant() {
    assert_eq!(as_int(run(vec![load(0, ival(5)), ret(0)], vec![])), 5);
}

#[test]
fn vm_runs_off_the_end_with_null() {
    assert!(matches!(run(vec![load(0, ival(5))], vec![]), Ok(RuntimeValue::Null)));
}

#[test]
fn vm_missing_register_is_an_error() {
    let r = run(vec![Instruction::Move { dest: t(0), src: t(9) }], vec![]);
    assert_eq!(error_of(r), "Register not found: r9");
    let r = run(vec![Instruction::Move { dest: t(0), src: Register::Global("g".to_string()) }], vec![]);
    assert_eq!(error_of(r), "Register not found: global:g");
}

#[test]
fn vm_jump_goes_to_the_label() {
    let code = vec![
        load(0, ival(1)),
        Instruction::Jump { label: "end".to_string() },
        load(0, ival(2)),
        Instruction::Label { name: "end".to_string() },
        ret(0),
    ];
    let labels = vec![LabelEntry { name: "end".to_string(), position: 3 }];
    assert_eq!(as_int(run(code, labels)), 1);
    assert_eq!(
        error_of(run(vec![Instruction::Jump { label: "nowhere".to_string() }], vec![])),
        "Unknown label: nowhere"
    );
}

#[test]
fn vm_loop_counts_with_host_operators() {
    // r0 = 0; while r0 < 3 { r0 = r0 + 1 }; return r0
    let code = vec![
        load(0, ival(0)),
        load(1, ival(3)),
        load(2, ival(1)),
        Instruction::Label { name: "top".to_string() },
        Instruction::BinaryOp { dest: t(3), left: t(0), right: t(1), op: BinaryOperator::LessThan },
        Instruction::JumpIfFalse { condition: t(3), label: "done".to_string() },
        Instruction::BinaryOp { dest: t(0), left: t(0), right: t(2), op: BinaryOperator::Add },
        Instruction::Jump { label: "top".to_string() },
        Instruction::Label { name: "done".to_string() },
        ret(0),
    ];
    let labels = vec![
        LabelEntry { name: "top".to_string(), position: 3 },
        LabelEntry { name: "done".to_string(), position: 8 },
    ];
    assert_eq!(as_int(run(code, labels)), 3);
}

#[test]
fn vm_local_register_follows_its_variable() {
    let x = Register::Local("x".to_string());
    let code = vec![
        Instruction::Declare { name: "x".to_string(), is_const: false },
        Instruction::LoadConst { dest: x, value: ival(3) },
        Instruction::Load { dest: t(1), name: "x".to_string() },
        ret(1),
    ];
    assert_eq!(as_int(run(code, vec![])), 3);
    let code = vec![
        load(0, ival(4)),
        Instruction::Declare { name: "y".to_string(), is_const: false },
        Instruction::Store { name: "y".to_string(), src: t(0) },
        Instruction::Move { dest: t(1), src: Register::Local("y".to_string()) },
        ret(1),
    ];
    assert_eq!(as_int(run(code, vec![])), 4);
}

#[test]
fn vm_variable_errors() {
    let twice = vec![
        Instruction::Declare { name: "x".to_string(), is_const: false },
        Instruction::Declare { name: "x".to_string(), is_const: false },
    ];
    assert_eq!(error_of(run(twice, vec![])), "Variable 'x' is already declared");
    let undeclared = vec![load(0, ival(1)), Instruction::Store { name: "z".to_string(), src: t(0) }];
    assert_eq!(error_of(run(undeclared, vec![])), "Variable 'z' is not declared");
    let scoped = vec![
        Instruction::PushScope,
        Instruction::Declare { name: "w".to_string(), is_const: false },
        Instruction::PopScope,
        Instruction::Load { dest: t(0), name: "w".to_string() },
    ];
    assert_eq!(error_of(run(scoped, vec![])), "Variable 'w' is not declared");
}

#[test]
fn vm_lists() {
    let base = || vec![load(0, ival(10)), load(1, ival(20)), Instruction::CreateArray { dest: t(2), elements: vec![t(0), t(1)] }];
    let mut code = base();
    code.push(load(3, ival(1)));
    code.push(Instruction::LoadIndex { dest: t(4), array: t(2), index: t(3) });
    code.push(ret(4));
    assert_eq!(as_int(run(code, vec![])), 20);

    let mut code = base();
    code.push(load(3, ival(7)));
    code.push(Instruction::LoadIndex { dest: t(4), array: t(2), index: t(3) });
    code.push(ret(4));
    assert!(matches!(run(code, vec![]), Ok(RuntimeValue::Null)));

    let mut code = base();
    code.push(load(3, ival(0)));
    code.push(load(5, ival(99)));
    code.push(Instruction::StoreIndex { array: t(2), index: t(3), value: t(5) });
    code.push(Instruction::LoadIndex { dest: t(4), array: t(2), index: t(3) });
    code.push(ret(4));
    assert_eq!(as_int(run(code, vec![])), 99);

    let mut code = base();
    code.push(load(3, ival(2)));
    code.push(Instruction::StoreIndex { array: t(2), index: t(3), value: t(3) });
    assert_eq!(error_of(run(code, vec![])), "Array index out of bounds");

    let mut code = base();
    code.push(load(3, s("a")));
    code.push(Instruction::LoadIndex { dest: t(4), array: t(2), index: t(3) });
    assert_eq!(error_of(run(code, vec![])), "Array index must be an integer");

    let code = vec![load(0, ival(1)), Instruction::LoadIndex { dest: t(4), array: t(0), index: t(0) }];
    assert_eq!(error_of(run(code, vec![])), "Cannot index non-array value");

    let mut code = base();
    code.push(Instruction::LoadProperty { dest: t(4), object: t(2), property: "length".to_string() });
    code.push(ret(4));
    assert_eq!(as_int(run(code, vec![])), 2);

    let mut code = base();
    code.push(Instruction::LoadProperty { dest: t(4), object: t(2), property: "first".to_string() });
    code.push(ret(4));
    assert_eq!(as_int(run(code, vec![])), 10);
}

#[test]
fn vm_destructures_a_list_with_rest() {
    let code = vec![
        load(0, ival(1)),
        load(1, ival(2)),
        load(2, ival(3)),
        Instruction::CreateArray { dest: t(3), elements: vec![t(0), t(1), t(2)] },
        Instruction::DestructureArray { dests: vec![t(4)], src: t(3), has_rest: true, rest_dest: Some(t(5)) },
        Instruction::LoadProperty { dest: t(6), object: t(5), property: "length".to_string() },
        ret(6),
    ];
    assert_eq!(as_int(run(code, vec![])), 2);
    let code = vec![
        load(0, ival(1)),
        Instruction::CreateArray { dest: t(3), elements: vec![t(0)] },
        Instruction::DestructureArray { dests: vec![t(4), t(5)], src: t(3), has_rest: false, rest_dest: None },
        ret(5),
    ];
    assert!(matches!(run(code, vec![]), Ok(RuntimeValue::Null)));
}

#[test]
fn vm_objects() {
    let object = |extra: Vec<Instruction>| {
        let mut code = vec![
            load(0, ival(1)),
            load(1, ival(2)),
            Instruction::CreateObject {
                dest: t(2),
                properties: vec![
                    PropertyReg { name: "a".to_string(), reg: t(0) },
                    PropertyReg { name: "a".to_string(), reg: t(1) },
                ],
            },
        ];
        code.extend(extra);
        run(code, vec![])
    };
    // the later property of a name wins
    assert_eq!(as_int(object(vec![Instruction::LoadProperty { dest: t(3), object: t(2), property: "a".to_string() }, ret(3)])), 2);
    assert!(matches!(
        object(vec![Instruction::LoadProperty { dest: t(3), object: t(2), property: "b".to_string() }, ret(3)]),
        Ok(RuntimeValue::Null)
    ));
    assert_eq!(
        as_int(object(vec![
            Instruction::StoreProperty { object: t(2), property: "b".to_string(), value: t(0) },
            Instruction::LoadProperty { dest: t(3), object: t(2), property: "b".to_string() },
            ret(3),
        ])),
        1
    );
    assert!(as_bool(object(vec![Instruction::In { dest: t(3), property: "a".to_string(), object: t(2) }, ret(3)])));
    assert!(!as_bool(object(vec![Instruction::In { dest: t(3), property: "c".to_string(), object: t(0) }, ret(3)])));
    assert!(as_bool(object(vec![Instruction::DeleteProperty { dest: t(3), object: t(2), property: "a".to_string() }, ret(3)])));
    assert_eq!(
        as_int(object(vec![
            Instruction::DestructureObject {
                mappings: vec![PropertyReg { name: "a".to_string(), reg: t(5) }],
                src: t(2),
                rest_dest: None,
            },
            ret(5),
        ])),
        2
    );
    let code = vec![load(0, ival(1)), Instruction::LoadProperty { dest: t(1), object: t(0), property: "x".to_string() }];
    assert_eq!(error_of(run(code, vec![])), "Cannot access property of non-object");
    let code = vec![load(0, ival(1)), Instruction::StoreProperty { object: t(0), property: "x".to_string(), value: t(0) }];
    assert_eq!(error_of(run(code, vec![])), "Cannot set property of non-object");
}

#[test]
fn vm_strings_and_null_handling() {
    let code = vec![load(0, s("héllo")), Instruction::LoadProperty { dest: t(1), object: t(0), property: "length".to_string() }, ret(1)];
    assert_eq!(as_int(run(code, vec![])), 6);
    let code = vec![load(0, s("")), Instruction::LoadProperty { dest: t(1), object: t(0), property: "isEmpty".to_string() }, ret(1)];
    assert!(as_bool(run(code, vec![])));
    let code = vec![load(0, RuntimeValue::Null), load(1, ival(8)), Instruction::NullCoalesce { dest: t(2), left: t(0), right: t(1) }, ret(2)];
    assert_eq!(as_int(run(code, vec![])), 8);
    let code = vec![load(0, ival(3)), Instruction::NullCoalesce { dest: t(2), left: t(0), right: t(9) }, ret(2)];
    assert_eq!(as_int(run(code, vec![])), 3);
    let code = vec![load(0, RuntimeValue::Null), Instruction::OptionalChain { dest: t(1), object: t(0), property: "p".to_string() }, ret(1)];
    assert!(matches!(run(code, vec![]), Ok(RuntimeValue::Null)));
    let code = vec![load(0, RuntimeValue::Null), Instruction::NullAssert { dest: t(1), value: t(0) }];
    assert_eq!(error_of(run(code, vec![])), "Null assertion failed");
}

#[test]
fn vm_unary_operators() {
    let neg = |v: RuntimeValue| run(vec![load(0, v), Instruction::UnaryOp { dest: t(1), operand: t(0), op: UnaryOperator::Negate }, ret(1)], vec![]);
    assert_eq!(as_int(neg(ival(5))), -5);
    assert_eq!(as_int(neg(ival(i64::MIN))), i64::MIN);
    match neg(RuntimeValue::Float(1.5f64.to_bits())) {
        Ok(RuntimeValue::Float(b)) => assert_eq!(f64::from_bits(b), -1.5),
        other => panic!("unexpected {:?}", other),
    }
    assert_eq!(error_of(neg(s("x"))), "Cannot negate non-numeric value");
    let not = run(vec![load(0, ival(0)), Instruction::UnaryOp { dest: t(1), operand: t(0), op: UnaryOperator::Not }, ret(1)], vec![]);
    assert!(as_bool(not));
    let bit = run(vec![load(0, ival(5)), Instruction::UnaryOp { dest: t(1), operand: t(0), op: UnaryOperator::BitwiseNot }, ret(1)], vec![]);
    assert_eq!(as_int(bit), -6);
}

#[test]
fn vm_increment_and_decrement() {
    let step = |prefix: bool, up: bool, which: usize| {
        let op = if up {
            Instruction::Increment { dest: t(1), operand: t(0), is_prefix: prefix }
        } else {
            Instruction::Decrement { dest: t(1), operand: t(0), is_prefix: prefix }
        };
        as_int(run(vec![load(0, ival(5)), op, ret(which)], vec![]))
    };
    assert_eq!(step(false, true, 1), 5);
    assert_eq!(step(false, true, 0), 6);
    assert_eq!(step(true, true, 1), 6);
    assert_eq!(step(true, false, 1), 4);
    let code = vec![load(0, s("a")), Instruction::Increment { dest: t(1), operand: t(0), is_prefix: true }];
    assert_eq!(error_of(run(code, vec![])), "Cannot increment non-numeric value");
}

#[test]
fn vm_type_names() {
    let name = |v: RuntimeValue| as_str(run(vec![load(0, v), Instruction::TypeOf { dest: t(1), operand: t(0) }, ret(1)], vec![]));
    assert_eq!(name(ival(1)), "int");
    assert_eq!(name(s("a")), "str");
    assert_eq!(name(RuntimeValue::Null), "null");
    assert_eq!(name(RuntimeValue::Bool(true)), "bool");
    let is = run(vec![load(0, ival(1)), Instruction::InstanceOf { dest: t(1), operand: t(0), class_name: "int".to_string() }, ret(1)], vec![]);
    assert!(as_bool(is));
}

#[test]
fn vm_throw_and_catch() {
    let code = vec![load(0, s("boom")), Instruction::Throw { value: t(0) }];
    assert_eq!(error_of(run(code, vec![])), "Thrown: boom");
    let code = vec![
        Instruction::TryCatch {
            try_body: vec![load(0, s("boom")), Instruction::Throw { value: t(0) }],
            catch_handler: Some(CatchHandler { name: "err".to_string(), body: vec![] }),
            finally_body: Some(vec![]),
        },
        Instruction::Load { dest: t(1), name: "err".to_string() },
        ret(1),
    ];
    assert_eq!(as_str(run(code, vec![])), "Thrown: boom");
    let code = vec![Instruction::TryCatch {
        try_body: vec![load(0, s("boom")), Instruction::Throw { value: t(0) }],
        catch_handler: None,
        finally_body: None,
    }];
    assert_eq!(error_of(run(code, vec![])), "Thrown: boom");
}

#[test]
fn vm_calls() {
    let len = RuntimeValue::NativeFunction(NativeFunctionValue::new(NativeFn::Len, any_type()));
    let code = vec![load(0, len), load(1, s("abc")), Instruction::Call { dest: t(2), callee: t(0), args: vec![t(1)] }, ret(2)];
    assert_eq!(as_int(run(code, vec![])), 3);
    let code = vec![load(0, ival(1)), Instruction::Call { dest: t(2), callee: t(0), args: vec![] }];
    assert_eq!(error_of(run(code, vec![])), "Cannot call non-function value");
    let code = vec![
        Instruction::CreateObject { dest: t(0), properties: vec![] },
        Instruction::MethodCall { dest: t(1), object: t(0), method: "foo".to_string(), args: vec![] },
    ];
    assert_eq!(error_of(run(code, vec![])), "Method 'foo' not found");
    let code = vec![load(0, s("x")), Instruction::MethodCall { dest: t(1), object: t(0), method: "upper".to_string(), args: vec![] }, ret(1)];
    assert_eq!(as_str(run(code, vec![])), "upper");
    let code = vec![load(0, RuntimeValue::Null), Instruction::MethodCall { dest: t(1), object: t(0), method: "m".to_string(), args: vec![] }];
    assert_eq!(error_of(run(code, vec![])), "Cannot call method on non-object type");
}

#[test]
fn vm_await() {
    let resolved = RuntimeValue::Future(FutureValue { state: FutureState::Resolved(Box::new(ival(4))), inner_type: any_type() });
    let code = vec![load(0, resolved), Instruction::Await { dest: t(1), future: t(0) }, ret(1)];
    assert_eq!(as_int(run(code, vec![])), 4);
    let rejected = RuntimeValue::Future(FutureValue { state: FutureState::Rejected("no".to_string()), inner_type: any_type() });
    let code = vec![load(0, rejected), Instruction::Await { dest: t(1), future: t(0) }];
    assert_eq!(error_of(run(code, vec![])), "Await error: no");
    let code = vec![load(0, ival(2)), Instruction::Await { dest: t(1), future: t(0) }, ret(1)];
    assert_eq!(as_int(run(code, vec![])), 2);
}

#[test]
fn vm_templates() {
    let code = vec![
        load(0, ival(42)),
        Instruction::CreateTemplate {
            dest: t(1),
            parts: vec![TemplatePart::String("n = ".to_string()), TemplatePart::Expr(t(0)), TemplatePart::String("!".to_string())],
        },
        ret(1),
    ];
    assert_eq!(as_str(run(code, vec![])), "n = 42!");
    let code = vec![Instruction::CreateTemplate { dest: t(1), parts: vec![TemplatePart::Expr(t(7))] }];
    assert_eq!(error_of(run(code, vec![])), "Register not found: r7");
}

#[test]
fn vm_match_picks_the_first_matching_arm() {
    let arm = |pattern: MatchPattern, v: i64| MatchArm { pattern, guard: None, body: vec![load(9, ival(v)), ret(9)] };
    let code = |scrutinee: RuntimeValue| {
        vec![
            load(0, scrutinee),
            Instruction::Match {
                dest: t(1),
                scrutinee: t(0),
                arms: vec![
                    arm(MatchPattern::Literal(ival(1)), 100),
                    arm(MatchPattern::Range(ival(2), ival(5)), 200),
                    arm(MatchPattern::Or(vec![MatchPattern::Literal(s("a")), MatchPattern::Literal(s("b"))]), 300),
                    arm(
                        MatchPattern::Object(vec![FieldPattern { key: "k".to_string(), pattern: MatchPattern::Wildcard }]),
                        400,
                    ),
                ],
            },
            ret(1),
        ]
    };
    assert_eq!(as_int(run(code(ival(1)), vec![])), 100);
    assert_eq!(as_int(run(code(ival(4)), vec![])), 200);
    assert_eq!(as_int(run(code(s("b")), vec![])), 300);
    assert_eq!(error_of(run(code(ival(9)), vec![])), "No matching pattern in match expression");
}

#[test]
fn vm_loops_over_lists() {
    let code = vec![
        load(0, ival(1)),
        Instruction::CreateArray { dest: t(1), elements: vec![t(0), t(0)] },
        Instruction::ForOf { variable: "e".to_string(), iterable: t(1), body: vec![] },
        Instruction::ForIn { variable: "i".to_string(), object: t(1), body: vec![] },
        ret(0),
    ];
    assert_eq!(as_int(run(code, vec![])), 1);
    let code = vec![load(0, ival(1)), Instruction::ForOf { variable: "e".to_string(), iterable: t(0), body: vec![] }];
    assert_eq!(error_of(run(code, vec![])), "for-of requires iterable");
    let code = vec![load(0, ival(1)), Instruction::ForIn { variable: "e".to_string(), object: t(0), body: vec![] }];
    assert_eq!(error_of(run(code, vec![])), "for-in requires object or array");
}

#[test]
fn vm_leaves_compiled_functions_to_the_runner() {
    let mut vm = machine();
    vm.load(IRProgram {
        instructions: vec![Instruction::CreateFunction {
            dest: t(0),
            name: "f".to_string(),
            params: vec![],
            body: vec![],
            labels: vec![],
            is_async: false,
        }],
        constant_pool: vec![],
        labels: vec![],
    });
    assert!(matches!(vm.step(&mut TestHost), Ok(Step::Outside)));
}

#[test]
fn vm_register_writes_read_back() {
    let mut vm = machine();
    vm.set_register(&t(3), ival(11));
    assert!(matches!(vm.get_register(&t(3)), Ok(RuntimeValue::Int(11))));
    assert!(vm.get_register(&t(4)).is_err());
    assert!(!vm.next_would_panic());
    assert_eq!(vm.resolve_label("x"), None);
}

struct TextFloats;

impl raccoon::ir::compiler::FloatDecoder for TextFloats {
    fn float_bits(&self, text: &str) -> u64 {
        text.parse::<f64>().map(|f| f.to_bits()).unwrap_or(0)
    }
}

fn compile_source(src: &str) -> IRProgram {
    let mut lexer = raccoon::lexer::Lexer::new(src.to_string(), None);
    let tokens = lexer.tokenize().expect("lexes");
    let mut parser = raccoon::parser::Parser::new(tokens, None);
    let program = parser.parse().expect("parses");
    raccoon::ir::compiler::IRCompiler::new().compile(&program, &TextFloats).expect("compiles")
}

#[test]
fn compiled_jumps_land_on_labels() {
    let program = compile_source(
        "let x = 0; while (x < 3) { x = x + 1; } if (x < 2) { x = 5; } else { x = 7; } for (let i = 0; i < 2; i = i + 1) { x = x + 1; }",
    );
    let mut jumps = 0;
    for instruction in &program.instructions {
        let label = match instruction {
            Instruction::Jump { label } => label,
            Instruction::JumpIfFalse { label, .. } => label,
            Instruction::JumpIfTrue { label, .. } => label,
            _ => continue,
        };
        jumps += 1;
        let entry = program.labels.iter().rev().find(|e| &e.name == label).expect("recorded label");
        assert!(matches!(&program.instructions[entry.position], Instruction::Label { name } if name == label));
    }
    assert!(jumps >= 5);
}

#[test]
fn compiled_loop_runs_on_the_machine() {
    let program = compile_source("let x = 0; while (x < 3) { x = x + 1; }");
    let mut env = Environment::new(None);
    env.push_scope();
    let vm = VM::new(env);
    let mut vm = vm;
    vm.load(program);
    let mut host = TestHost;
    loop {
        match vm.step(&mut host).expect("runs") {
            Step::Finished(_) => break,
            _ => {}
        }
    }
    assert!(matches!(vm.get_register(&Register::Local("x".to_string())), Ok(RuntimeValue::Int(3))));
}

#[test]
fn ffi_registry_call_runs_the_function() {
    let mut reg = FFIRegistry::new();
    let f = NativeFunctionValue::new(NativeFn::Len, any_type());
    assert!(reg.register_function("len".to_string(), Some("str".to_string()), vec![], any_type(), f).is_ok());
    let h = NativeFunctionValue::new(NativeFn::Host(5), any_type());
    assert!(reg.register_function("sqrt".to_string(), Some("math".to_string()), vec![], any_type(), h).is_ok());
    let mut host = TestHost;
    assert!(matches!(
        reg.call_function("str.len", vec![RuntimeValue::Str("abc".to_string())], &mut host),
        Ok(RuntimeValue::Int(3))
    ));
    assert!(matches!(reg.call_function("math.sqrt", vec![], &mut host), Ok(RuntimeValue::Null)));
    assert_eq!(
        reg.call_function("nope", vec![], &mut host).unwrap_err().message,
        "FFI function 'nope' not found"
    );
}
