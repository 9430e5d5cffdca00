use raccoon::runtime::ffi::{ArgKind, FFIHost, FFIType, Signature};

#[test]
fn ffi_signatures_follow_argument_kinds() {
    let host = FFIHost;
    assert_eq!(host.select_signature(&vec![], FFIType::Int), Some(Signature::UnitToInt));
    assert_eq!(host.select_signature(&vec![], FFIType::Void), Some(Signature::UnitToVoid));
    assert_eq!(host.select_signature(&vec![], FFIType::Str), None);
    assert_eq!(host.select_signature(&vec![ArgKind::Int], FFIType::Int), Some(Signature::IntToInt));
    assert_eq!(host.select_signature(&vec![ArgKind::Str], FFIType::Void), Some(Signature::StrToVoid));
    assert_eq!(host.select_signature(&vec![ArgKind::Str], FFIType::Str), Some(Signature::StrToStr));
    assert_eq!(host.select_signature(&vec![ArgKind::Int], FFIType::Float), None);
    assert_eq!(
        host.select_signature(&vec![ArgKind::Float, ArgKind::Float], FFIType::Float),
        Some(Signature::FloatFloatToFloat)
    );
    assert_eq!(host.select_signature(&vec![ArgKind::Int, ArgKind::Float], FFIType::Int), None);
    assert_eq!(host.select_signature(&vec![ArgKind::Int, ArgKind::Int, ArgKind::Int], FFIType::Int), None);
}

#[test]
fn ffi_unsupported_signature_message() {
    let host = FFIHost;
    assert_eq!(
        host.unsupported_message("f", &vec![ArgKind::Int, ArgKind::Str], FFIType::Bool),
        "Error FFI: Firma no soportada para 'f': Args: [\"int\", \"str\"], Return: Bool"
    );
    assert_eq!(
        host.unsupported_message("g", &vec![], FFIType::Str),
        "Error FFI: Firma no soportada para 'g': Args: [], Return: Str"
    );
    assert_eq!(ArgKind::Null.get_type_name(), "null");
}
