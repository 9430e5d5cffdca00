use raccoon::ast::{Expr, PrimitiveKind, Type};
use raccoon::parser::expressions::Expressions;
use raccoon::parser::state::ParserState;
use raccoon::tokens::BinaryOperator;
use raccoon::lexer::Lexer;
use raccoon::output_style::Styles;
use raccoon::runtime::builtins::{
    call_builtin, register_array_module, register_core_primitives, register_string_module,
};
use raccoon::runtime::environment::Environment;
use raccoon::runtime::module_system::resolve_module_path;
use raccoon::output_style::format_value;
use raccoon::runtime::builtin_plugins::OutputPlugin;
use raccoon::runtime::plugin_system::PluginManager;
use raccoon::runtime::std_natives::{
    array_contains, array_index_of, array_join, core_string_index_of, core_string_split, string_index_of, string_repeat,
    string_repeat_defined, string_replace, string_split, string_substring, string_substring_defined,
    array_length, array_pop, array_push, array_reverse, array_shift, array_slice, core_string_char_at,
    core_string_len, core_string_substring, string_char_at, string_contains, string_ends_with, string_length,
    string_lower, string_reverse, string_starts_with, string_trim, string_upper,
};
use raccoon::runtime::values::{ListValue, NativeFn, RuntimeValue};
use raccoon::tokens::TokenType;

fn s(x: &str) -> RuntimeValue {
    RuntimeValue::Str(x.to_string())
}

fn text(v: RuntimeValue) -> String {
    match v {
        RuntimeValue::Str(t) => t,
        other => panic!("expected a string, got {:?}", other),
    }
}

fn ints(v: &[i64]) -> RuntimeValue {
    RuntimeValue::List(ListValue {
        elements: v.iter().map(|i| RuntimeValue::Int(*i)).collect(),
        element_type: Type::Primitive(PrimitiveKind::Int),
    })
}

fn list_ints(v: RuntimeValue) -> Vec<i64> {
    match v {
        RuntimeValue::List(l) => l
            .elements
            .iter()
            .map(|e| match e {
                RuntimeValue::Int(i) => *i,
                other => panic!("expected an integer, got {:?}", other),
            })
            .collect(),
        other => panic!("expected a list, got {:?}", other),
    }
}

#[test]
fn error_style_is_red_and_bold() {
    let r = Styles::error("boom");
    assert!(r.starts_with("\x1b[31m"));
    assert!(r.contains("\x1b[1m"));
    assert!(r.contains("✗ Error:"));
    assert!(r.ends_with("\x1b[0m boom"));
}

#[test]
fn string_length_counts_bytes() {
    assert!(matches!(string_length(&vec![s("héllo")]), RuntimeValue::Int(6)));
    assert!(matches!(string_length(&vec![RuntimeValue::Int(3)]), RuntimeValue::Int(0)));
    assert!(matches!(core_string_len(&vec![s("abc")]), RuntimeValue::Int(3)));
}

#[test]
fn string_case_and_trim() {
    assert_eq!(text(string_upper(&vec![s("abc")])), "ABC");
    assert_eq!(text(string_lower(&vec![s("AbC")])), "abc");
    assert_eq!(text(string_trim(&vec![s("  a b  ")])), "a b");
}

#[test]
fn string_searches() {
    assert!(matches!(string_contains(&vec![s("raccoon"), s("coo")]), RuntimeValue::Bool(true)));
    assert!(matches!(string_contains(&vec![s("raccoon"), s("cat")]), RuntimeValue::Bool(false)));
    assert!(matches!(string_contains(&vec![s("abc"), s("")]), RuntimeValue::Bool(true)));
    assert!(matches!(string_starts_with(&vec![s("raccoon"), s("rac")]), RuntimeValue::Bool(true)));
    assert!(matches!(string_starts_with(&vec![s("ra"), s("rac")]), RuntimeValue::Bool(false)));
    assert!(matches!(string_ends_with(&vec![s("raccoon"), s("oon")]), RuntimeValue::Bool(true)));
    assert!(matches!(string_ends_with(&vec![s("raccoon"), s("rac")]), RuntimeValue::Bool(false)));
}

#[test]
fn string_reverse_and_char_at() {
    assert_eq!(text(string_reverse(&vec![s("abc")])), "cba");
    assert_eq!(text(string_char_at(&vec![s("abc"), RuntimeValue::Int(1)])), "b");
    assert_eq!(text(string_char_at(&vec![s("abc"), RuntimeValue::Int(3)])), "");
    assert_eq!(text(string_char_at(&vec![s("abc"), RuntimeValue::Int(-1)])), "");
    assert_eq!(text(core_string_char_at(&vec![s("héllo"), RuntimeValue::Int(1)])), "é");
}

#[test]
fn core_substring_counts_characters() {
    let args = vec![s("raccoon"), RuntimeValue::Int(1), RuntimeValue::Int(4)];
    assert_eq!(text(core_string_substring(&args)), "acc");
    assert_eq!(text(core_string_substring(&vec![s("raccoon"), RuntimeValue::Int(3)])), "coon");
    let backwards = vec![s("raccoon"), RuntimeValue::Int(4), RuntimeValue::Int(1)];
    assert_eq!(text(core_string_substring(&backwards)), "");
}

#[test]
fn array_functions() {
    assert!(matches!(array_length(&vec![ints(&[1, 2, 3])]), RuntimeValue::Int(3)));
    assert!(matches!(array_length(&vec![s("x")]), RuntimeValue::Int(0)));
    assert_eq!(list_ints(array_push(&vec![ints(&[1, 2]), RuntimeValue::Int(3)])), vec![1, 2, 3]);
    assert!(matches!(array_pop(&vec![ints(&[1, 2])]), RuntimeValue::Int(2)));
    assert!(matches!(array_pop(&vec![ints(&[])]), RuntimeValue::Null));
    assert!(matches!(array_shift(&vec![ints(&[1, 2])]), RuntimeValue::Int(1)));
    assert_eq!(list_ints(array_reverse(&vec![ints(&[1, 2, 3])])), vec![3, 2, 1]);
}

#[test]
fn array_slice_clips() {
    let a = ints(&[10, 20, 30, 40]);
    let copy = || match &a {
        RuntimeValue::List(l) => ints(&l.elements.iter().map(|e| if let RuntimeValue::Int(i) = e { *i } else { 0 }).collect::<Vec<_>>()),
        _ => unreachable!(),
    };
    assert_eq!(list_ints(array_slice(&vec![copy(), RuntimeValue::Int(1), RuntimeValue::Int(3)])), vec![20, 30]);
    assert_eq!(list_ints(array_slice(&vec![copy(), RuntimeValue::Int(2)])), vec![30, 40]);
    assert_eq!(list_ints(array_slice(&vec![copy(), RuntimeValue::Int(3), RuntimeValue::Int(1)])), Vec::<i64>::new());
    assert_eq!(list_ints(array_slice(&vec![copy(), RuntimeValue::Int(1), RuntimeValue::Int(99)])), vec![20, 30, 40]);
}

#[test]
fn call_builtin_runs_module_tags() {
    let r = call_builtin(NativeFn::StrReverse, &vec![s("ab")]);
    assert_eq!(text(r.expect("pure")), "ba");
    assert!(call_builtin(NativeFn::Print, &vec![]).is_none());
}

#[test]
fn modules_are_registered() {
    let mut env = Environment::new(None);
    register_string_module(&mut env);
    register_array_module(&mut env);
    assert!(matches!(env.get("string", (0, 0)), Ok(RuntimeValue::TypeObj(_))));
    assert!(matches!(env.get("array", (0, 0)), Ok(RuntimeValue::TypeObj(_))));
}

#[test]
fn core_primitives_have_no_namespace() {
    let mut env = Environment::new(None);
    register_core_primitives(&mut env);
    for name in ["core_string_len", "core_string_substring", "core_string_contains"] {
        assert!(env.exists_name(name));
    }
    match env.get("core_string_len", (0, 0)) {
        Ok(RuntimeValue::NativeFunction(f)) => assert!(matches!(f.implementation, NativeFn::CoreStrLen)),
        _ => panic!("core_string_len is not a native function"),
    }
}

#[test]
fn module_paths_resolve() {
    let file = "src/app.rcc".to_string();
    assert_eq!(resolve_module_path(Some(&file), "./util", "/work"), "src/./util.rcc");
    assert_eq!(resolve_module_path(Some(&file), "../lib/a.rcc", "/work"), "src/../lib/a.rcc");
    assert_eq!(resolve_module_path(None, "./util", "/work"), "/work/./util.rcc");
    assert_eq!(resolve_module_path(None, "math", "/work"), "stdlib/math.rcc");
    assert_eq!(resolve_module_path(None, "/abs/lib", "/work"), "/abs/lib.rcc");
    let bare = "app.rcc".to_string();
    assert_eq!(resolve_module_path(Some(&bare), "./util", "/work"), "./util.rcc");
}

#[test]
fn tokenize_let_statement() {
    let mut lx = Lexer::new("let x = 1".to_string(), None);
    let toks = lx.tokenize().expect("lexes");
    let kinds: Vec<TokenType> = toks.iter().map(|t| t.token_type).collect();
    assert_eq!(kinds, vec![TokenType::Let, TokenType::Identifier, TokenType::Assign, TokenType::IntLiteral, TokenType::Eof]);
    assert_eq!(toks[3].position, (1, 9));
    assert_eq!(toks[4].position, (1, 10));
}

#[test]
fn tokenize_takes_longest_operator() {
    let mut lx = Lexer::new("a>>>=b".to_string(), None);
    let toks = lx.tokenize().expect("lexes");
    assert_eq!(toks[1].token_type, TokenType::UnsignedRightShiftAssign);
    assert_eq!(toks[1].value, ">>>=");
    assert_eq!(toks[2].position, (1, 6));
}

#[test]
fn tokenize_rejects_hash_at_its_column() {
    let mut lx = Lexer::new("ab #".to_string(), None);
    let e = lx.tokenize().expect_err("fails");
    assert_eq!(e.position, (1, 4));
    assert!(e.message.contains('#'));
}

#[test]
fn tokenize_template() {
    let mut lx = Lexer::new("`a${x}b`".to_string(), None);
    let toks = lx.tokenize().expect("lexes");
    let kinds: Vec<TokenType> = toks.iter().map(|t| t.token_type).collect();
    assert_eq!(
        kinds,
        vec![
            TokenType::TemplateStrStart,
            TokenType::TemplateStrPart,
            TokenType::TemplateInterpolationStart,
            TokenType::Identifier,
            TokenType::TemplateInterpolationEnd,
            TokenType::TemplateStrPart,
            TokenType::TemplateStrEnd,
            TokenType::Eof,
        ]
    );
}

#[test]
fn exponent_is_right_associative() {
    let mut lx = Lexer::new("2 ** 3 ** 2;".to_string(), None);
    let toks = lx.tokenize().expect("lexes");
    let mut state = ParserState::new(toks, None);
    match Expressions::expression(&mut state) {
        Ok(Expr::Binary { left, operator: BinaryOperator::Exponent, right, .. }) => {
            assert!(matches!(*left, Expr::IntLiteral { value: 2, .. }));
            match *right {
                Expr::Binary { left: l2, operator: BinaryOperator::Exponent, right: r2, .. } => {
                    assert!(matches!(*l2, Expr::IntLiteral { value: 3, .. }));
                    assert!(matches!(*r2, Expr::IntLiteral { value: 2, .. }));
                }
                other => panic!("right side is {:?}", other),
            }
        }
        other => panic!("parsed {:?}", other),
    }
    assert_eq!(state.current, 5);
}


fn texts(v: RuntimeValue) -> Vec<String> {
    match v {
        RuntimeValue::List(l) => l.elements.into_iter().map(text).collect(),
        other => panic!("expected a list, got {:?}", other),
    }
}

#[test]
fn format_value_colours_keywords() {
    assert_eq!(format_value("true"), "\x1b[93mtrue\x1b[0m");
    assert_eq!(format_value("name"), "\x1b[36mname\x1b[0m");
}

#[test]
fn colour_codes_strip_back_to_input() {
    let input = "{\"a\": [1, true, null], 'b': x_1}";
    let coloured = format_value(input);
    let mut plain = String::new();
    let mut chars = coloured.chars().peekable();
    while let Some(c) = chars.next() {
        if c == '\x1b' {
            for d in chars.by_ref() {
                if d == 'm' {
                    break;
                }
            }
        } else {
            plain.push(c);
        }
    }
    assert_eq!(plain, input);
}

#[test]
fn string_substring_by_bytes() {
    let args = vec![s("raccoon"), RuntimeValue::Int(1), RuntimeValue::Int(4)];
    assert!(string_substring_defined(&args));
    assert_eq!(text(string_substring(&args)), "acc");
    let backwards = vec![s("raccoon"), RuntimeValue::Int(4), RuntimeValue::Int(1)];
    assert_eq!(text(string_substring(&backwards)), "");
    let inside_char = vec![s("héllo"), RuntimeValue::Int(0), RuntimeValue::Int(2)];
    assert!(!string_substring_defined(&inside_char));
    assert!(call_builtin(NativeFn::StrSubstring, &inside_char).is_none());
}

#[test]
fn string_split_pieces() {
    assert_eq!(texts(string_split(&vec![s("a,b,,c"), s(",")])), vec!["a", "b", "", "c"]);
    assert_eq!(texts(string_split(&vec![s("abc"), s("")])), vec!["", "a", "b", "c", ""]);
    assert_eq!(texts(string_split(&vec![s(""), s(",")])), vec![""]);
}

#[test]
fn string_replace_all() {
    assert_eq!(text(string_replace(&vec![s("aaa"), s("aa"), s("b")])), "ba");
    assert_eq!(text(string_replace(&vec![s("ab"), s(""), s("-")])), "-a-b-");
    assert_eq!(text(string_replace(&vec![s("x.y.z"), s("."), s("::")])), "x::y::z");
}

#[test]
fn string_repeat_and_index_of() {
    assert_eq!(text(string_repeat(&vec![s("ab"), RuntimeValue::Int(3)])), "ababab");
    assert!(!string_repeat_defined(&vec![s("ab"), RuntimeValue::Int(-1)]));
    assert_eq!(text(string_repeat(&vec![s(""), RuntimeValue::Int(-1)])), "");
    assert!(matches!(string_index_of(&vec![s("héllo"), s("llo")]), RuntimeValue::Int(3)));
    assert!(matches!(string_index_of(&vec![s("abc"), s("z")]), RuntimeValue::Int(-1)));
    assert!(matches!(core_string_index_of(&vec![s("abc"), s("")]), RuntimeValue::Int(0)));
}

#[test]
fn array_search_and_join() {
    let a = || RuntimeValue::List(ListValue {
        elements: vec![RuntimeValue::Int(1), s("two"), RuntimeValue::Bool(true)],
        element_type: Type::Primitive(PrimitiveKind::Any),
    });
    assert!(matches!(array_contains(&vec![a(), s("two")]), RuntimeValue::Bool(true)));
    assert!(matches!(array_contains(&vec![a(), RuntimeValue::Int(2)]), RuntimeValue::Bool(false)));
    assert!(matches!(array_index_of(&vec![a(), s("true")]), RuntimeValue::Int(2)));
    assert!(matches!(array_index_of(&vec![a(), s("zzz")]), RuntimeValue::Int(-1)));
    assert_eq!(text(array_join(&vec![a(), s(", ")])), "1, two, true");
}

#[test]
fn assign_changes_only_the_innermost_binding() {
    let mut env = Environment::new(None);
    let _ = env.declare("x".to_string(), RuntimeValue::Int(1));
    env.push_scope();
    let _ = env.declare("x".to_string(), RuntimeValue::Int(2));
    assert!(env.assign("x", RuntimeValue::Int(3), (0, 0)).is_ok());
    assert!(matches!(env.get("x", (0, 0)), Ok(RuntimeValue::Int(3))));
    env.pop_scope();
    assert!(matches!(env.get("x", (0, 0)), Ok(RuntimeValue::Int(1))));
    env.pop_scope();
    assert!(matches!(env.get("x", (0, 0)), Ok(RuntimeValue::Int(1))));
}

#[test]
fn plugin_manager_makes_plugin_functions_callable() {
    let mut m = PluginManager::new();
    m.register_plugin(&OutputPlugin);
    assert!(m.get_function("print").is_some());
    assert!(m.get_function("eprint").is_some());
}


fn shapes(src: &str) -> Vec<(TokenType, String, (usize, usize))> {
    let mut lx = Lexer::new(src.to_string(), None);
    lx.tokenize().expect("lexes").into_iter().map(|t| (t.token_type, t.value, t.position)).collect()
}

#[test]
fn tokenize_template_positions() {
    let expected = vec![
        (TokenType::TemplateStrStart, "`".to_string(), (1, 1)),
        (TokenType::TemplateStrPart, "a".to_string(), (1, 2)),
        (TokenType::TemplateInterpolationStart, "${".to_string(), (1, 3)),
        (TokenType::Identifier, "x".to_string(), (1, 5)),
        (TokenType::TemplateInterpolationEnd, "}".to_string(), (1, 6)),
        (TokenType::TemplateStrPart, "b".to_string(), (1, 7)),
        (TokenType::TemplateStrEnd, "`".to_string(), (1, 8)),
        (TokenType::Eof, "".to_string(), (1, 9)),
    ];
    assert_eq!(shapes("`a${x}b`"), expected);
}

#[test]
fn tokenize_prefixed_and_separated_numbers() {
    let expected = vec![
        (TokenType::BigIntLiteral, "0xFFn".to_string(), (1, 1)),
        (TokenType::IntLiteral, "1_000".to_string(), (1, 7)),
        (TokenType::FloatLiteral, "2.5".to_string(), (1, 13)),
        (TokenType::IntLiteral, "3".to_string(), (1, 17)),
        (TokenType::Dot, ".".to_string(), (1, 18)),
        (TokenType::Eof, "".to_string(), (1, 19)),
    ];
    assert_eq!(shapes("0xFFn 1_000 2.5 3."), expected);
}


#[test]
fn core_split_writes_json() {
    assert_eq!(text(core_string_split(&vec![s("a,b"), s(",")])), "[\"a\",\"b\"]");
    assert_eq!(text(core_string_split(&vec![s("ab"), s("")])), "[\"a\",\"b\"]");
}

#[test]
fn trim_removes_unicode_white_space() {
    assert_eq!(text(string_trim(&vec![s("\u{3000} a b\t\n")])), "a b");
    assert_eq!(text(string_trim(&vec![s("   ")])), "");
}


#[test]
fn tokenize_several_lines() {
    let expected = vec![
        (TokenType::Let, "let".to_string(), (1, 1)),
        (TokenType::Identifier, "x".to_string(), (1, 5)),
        (TokenType::Assign, "=".to_string(), (1, 7)),
        (TokenType::IntLiteral, "1".to_string(), (1, 9)),
        (TokenType::Semicolon, ";".to_string(), (1, 10)),
        (TokenType::Identifier, "y".to_string(), (2, 3)),
        (TokenType::Eof, "".to_string(), (3, 1)),
    ];
    assert_eq!(shapes("let x = 1;\n  y\n"), expected);
}


#[test]
fn tokenize_skips_comments() {
    let expected = vec![
        (TokenType::Identifier, "a".to_string(), (1, 1)),
        (TokenType::Identifier, "b".to_string(), (3, 7)),
        (TokenType::Eof, "".to_string(), (3, 8)),
    ];
    assert_eq!(shapes("a // c\n/* x\n y */ b"), expected);
}
