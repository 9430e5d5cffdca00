use raccoon::ast::{PrimitiveKind, Type};
use raccoon::output_style::format_value;
use raccoon::runtime::builtins_builders::{collect_futures, FutureCollectionStrategy, TypeMethodBuilder};
use raccoon::runtime::call_stack::{CallStack, StackFrame};
use raccoon::runtime::native_bridge_v2::NativeBridgeV2;
use raccoon::runtime::values::{ListValue, NativeFn};

#[test]
fn test_colorize_number() {
    let result = format_value("42");
    assert!(result.contains("\x1b[93m"));
    assert!(result.contains("\x1b[0m"));
    assert!(result.contains("42"));
}

#[test]
fn test_colorize_string() {
    let result = format_value("\"hello\"");
    assert!(result.contains("\x1b[92m"));
    assert!(result.contains("\x1b[0m"));
    assert!(result.contains("hello"));
}

#[test]
fn test_colorize_boolean() {
    let result = format_value("true");
    assert!(result.contains("\x1b[93m"));
    assert!(result.contains("true"));
}

#[test]
fn test_collect_futures_empty() {
    let list = ListValue::new(vec![], Type::Primitive(PrimitiveKind::Any));
    let (results, has_pending, error) = collect_futures(&list, FutureCollectionStrategy::All);
    assert!(results.is_empty());
    assert!(!has_pending);
    assert!(error.is_none());
}

#[test]
fn test_type_method_builder() {
    let mut builder = TypeMethodBuilder::new("TestType");
    let fn_type = Type::Function {
        params: vec![],
        return_type: Box::new(Type::Primitive(PrimitiveKind::Void)),
        is_variadic: false,
    };
    builder.add_method("test", fn_type, NativeFn::Host(0));
    assert_eq!(builder.method_count(), 1);
}

#[test]
fn test_call_stack_basic() {
    let mut stack = CallStack::new();
    assert_eq!(stack.depth(), 0);

    stack.push(StackFrame::new("foo".to_string(), (1, 1), Some("test.rn".to_string())));
    assert_eq!(stack.depth(), 1);
    assert_eq!(stack.current_function(), Some("foo"));

    stack.push(StackFrame::new("bar".to_string(), (2, 2), Some("test.rn".to_string())));
    assert_eq!(stack.depth(), 2);
    assert_eq!(stack.current_function(), Some("bar"));

    stack.pop();
    assert_eq!(stack.depth(), 1);
    assert_eq!(stack.current_function(), Some("foo"));
}

#[test]
fn test_stack_frame_format() {
    let frame = StackFrame::new("myFunction".to_string(), (10, 5), Some("main.rn".to_string()));
    let formatted = frame.format();
    assert!(formatted.contains("myFunction"));
    assert!(formatted.contains("main.rn"));
    assert!(formatted.contains("10:5"));
}

#[test]
fn test_native_bridge_creation() {
    let bridge = NativeBridgeV2::new();
    assert!(!bridge.all_function_names().is_empty());
}

#[test]
fn test_get_print_function() {
    let bridge = NativeBridgeV2::new();
    assert!(bridge.get("print").is_some());
}
