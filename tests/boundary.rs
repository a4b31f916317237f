use pgxsocket::codec::{decode_value, encode_value, format_i64, parse_bool, parse_i64};
use pgxsocket::error::{ErrorKind, Failure, InvocationResult};
use pgxsocket::invoke::complete;
use pgxsocket::registry::{Declaration, Registry};
use pgxsocket::types::{type_tag_of_oid, TypeTag, Value, BOOL_OID, INT4_OID, INT8_OID, TEXT_OID};
use pgxsocket::{hello_pgxsocket, invoke_builtin, module_registry, run_builtin, HELLO_HANDLE};

const FLOAT4_OID: u32 = 700;

fn text(s: &str) -> Option<String> {
    Some(s.to_string())
}

fn kind_of(r: &InvocationResult) -> Option<ErrorKind> {
    match r {
        InvocationResult::Error(f) => Some(f.kind),
        InvocationResult::Success(_) => None,
    }
}

fn adder(_handle: usize, args: Vec<Value>) -> Result<Value, String> {
    match (&args[0], &args[1]) {
        (Value::Int4(a), Value::Int4(b)) => Ok(Value::Int4(a + b)),
        _ => Ok(Value::Null),
    }
}

fn registry_with_add() -> Registry {
    let mut reg = Registry::new();
    reg.register("add".to_string(), vec![INT4_OID, INT4_OID], INT4_OID, 7).unwrap();
    reg
}

#[test]
fn test_hello_pgxsocket() {
    assert_eq!("Hello, pgxsocket", hello_pgxsocket());
}

#[test]
fn hello_routine_returns_greeting() {
    let reg = module_registry();
    let r = invoke_builtin(&reg, "hello_pgxsocket", &vec![]);
    assert_eq!(r, InvocationResult::Success(text("Hello, pgxsocket")));
}

#[test]
fn hello_routine_with_extra_argument_is_arity_mismatch() {
    let reg = module_registry();
    let r = invoke_builtin(&reg, "hello_pgxsocket", &vec![text("extra")]);
    assert_eq!(kind_of(&r), Some(ErrorKind::ArityMismatch));
    assert_eq!(ErrorKind::ArityMismatch.name(), "ArityMismatchError");
}

#[test]
fn unknown_routine_is_reported() {
    let reg = module_registry();
    let r = invoke_builtin(&reg, "nonexistent", &vec![]);
    assert_eq!(kind_of(&r), Some(ErrorKind::UnknownRoutine));
    assert_eq!(ErrorKind::UnknownRoutine.name(), "UnknownRoutineError");
    let empty = Registry::new();
    let r = empty.invoke("nonexistent", &vec![], adder);
    assert_eq!(kind_of(&r), Some(ErrorKind::UnknownRoutine));
}

#[test]
fn arity_two_with_one_or_three_arguments() {
    let reg = registry_with_add();
    let one = reg.invoke("add", &vec![text("1")], adder);
    assert_eq!(kind_of(&one), Some(ErrorKind::ArityMismatch));
    let three = reg.invoke("add", &vec![text("1"), text("2"), text("3")], adder);
    assert_eq!(kind_of(&three), Some(ErrorKind::ArityMismatch));
    let two = reg.invoke("add", &vec![text("2"), text("3")], adder);
    assert_eq!(two, InvocationResult::Success(text("5")));
}

#[test]
fn duplicate_name_keeps_first_registration() {
    let mut reg = Registry::new();
    reg.register("f".to_string(), vec![INT8_OID], TEXT_OID, 1).unwrap();
    let second = reg.register("f".to_string(), vec![], BOOL_OID, 2);
    assert_eq!(second.unwrap_err().kind, ErrorKind::DuplicateName);
    assert_eq!(reg.len(), 1);
    let d = reg.lookup("f").unwrap();
    assert_eq!(d.handle, 1);
    assert_eq!(d.arg_types, vec![TypeTag::Int8]);
    assert_eq!(d.return_type, TypeTag::Text);
    assert_eq!(ErrorKind::DuplicateName.name(), "DuplicateNameError");
}

#[test]
fn unsupported_types_are_refused() {
    let mut reg = Registry::new();
    let arg = reg.register("g".to_string(), vec![INT4_OID, FLOAT4_OID], INT4_OID, 0);
    assert_eq!(arg.unwrap_err().kind, ErrorKind::UnsupportedType);
    let ret = reg.register("g".to_string(), vec![], FLOAT4_OID, 0);
    assert_eq!(ret.unwrap_err().kind, ErrorKind::UnsupportedType);
    assert_eq!(reg.len(), 0);
    assert_eq!(ErrorKind::UnsupportedType.name(), "UnsupportedTypeError");
}

#[test]
fn duplicate_is_reported_before_unsupported_type() {
    let mut reg = Registry::new();
    reg.register("h".to_string(), vec![], TEXT_OID, 0).unwrap();
    let r = reg.register("h".to_string(), vec![FLOAT4_OID], TEXT_OID, 0);
    assert_eq!(r.unwrap_err().kind, ErrorKind::DuplicateName);
}

#[test]
fn undecodable_argument_is_type_mismatch() {
    let reg = registry_with_add();
    let r = reg.invoke("add", &vec![text("1"), text("abc")], adder);
    assert_eq!(kind_of(&r), Some(ErrorKind::TypeMismatch));
    let r = reg.invoke("add", &vec![text("2147483648"), text("1")], adder);
    assert_eq!(kind_of(&r), Some(ErrorKind::TypeMismatch));
    assert_eq!(ErrorKind::TypeMismatch.name(), "TypeMismatchError");
}

#[test]
fn native_fault_is_contained() {
    let reg = registry_with_add();
    let faulty = |_h: usize, _a: Vec<Value>| -> Result<Value, String> { Err("division by zero".to_string()) };
    let r = reg.invoke("add", &vec![text("1"), text("2")], faulty);
    assert_eq!(
        r,
        InvocationResult::Error(Failure {
            kind: ErrorKind::NativeFailure,
            message: "division by zero".to_string(),
        })
    );
    assert_eq!(ErrorKind::NativeFailure.name(), "NativeFailure");
    let after = reg.invoke("add", &vec![text("20"), text("22")], adder);
    assert_eq!(after, InvocationResult::Success(text("42")));
}

#[test]
fn result_of_wrong_type_is_native_failure() {
    let reg = registry_with_add();
    let wrong = |_h: usize, _a: Vec<Value>| -> Result<Value, String> { Ok(Value::Text("x".to_string())) };
    let r = reg.invoke("add", &vec![text("1"), text("2")], wrong);
    assert_eq!(kind_of(&r), Some(ErrorKind::NativeFailure));
}

#[test]
fn null_argument_and_null_result() {
    let reg = registry_with_add();
    let r = reg.invoke("add", &vec![None, text("2")], adder);
    assert_eq!(r, InvocationResult::Success(None));
}

#[test]
fn prepared_call_holds_decoded_arguments() {
    let mut reg = Registry::new();
    reg.register("p".to_string(), vec![BOOL_OID, INT8_OID, TEXT_OID], BOOL_OID, 3).unwrap();
    let call = reg.prepare("p", &vec![text("true"), text("-9223372036854775808"), text("hi")]).unwrap();
    assert_eq!(call.handle, 3);
    assert_eq!(call.return_type, TypeTag::Bool);
    assert_eq!(
        call.args,
        vec![Value::Bool(true), Value::Int8(i64::MIN), Value::Text("hi".to_string())]
    );
}

#[test]
fn complete_encodes_or_fails() {
    assert_eq!(complete(TypeTag::Bool, Ok(Value::Bool(false))), InvocationResult::Success(text("f")));
    assert_eq!(complete(TypeTag::Int8, Ok(Value::Int8(-17))), InvocationResult::Success(text("-17")));
    assert_eq!(complete(TypeTag::Int8, Ok(Value::Null)), InvocationResult::Success(None));
    assert_eq!(kind_of(&complete(TypeTag::Int8, Ok(Value::Int4(1)))), Some(ErrorKind::NativeFailure));
}

#[test]
fn load_is_all_or_nothing() {
    let decls = vec![
        Declaration { name: "a".to_string(), arg_oids: vec![], return_oid: TEXT_OID, handle: 0 },
        Declaration { name: "b".to_string(), arg_oids: vec![INT4_OID, INT4_OID], return_oid: INT4_OID, handle: 1 },
    ];
    let reg = Registry::load(&decls).unwrap();
    assert_eq!(reg.routine_names(), vec!["a".to_string(), "b".to_string()]);
    let r = reg.invoke("b", &vec![text("40"), text("2")], adder);
    assert_eq!(r, InvocationResult::Success(text("42")));

    let dup = vec![
        Declaration { name: "a".to_string(), arg_oids: vec![], return_oid: TEXT_OID, handle: 0 },
        Declaration { name: "a".to_string(), arg_oids: vec![], return_oid: BOOL_OID, handle: 1 },
    ];
    assert_eq!(Registry::load(&dup).unwrap_err().kind, ErrorKind::DuplicateName);
}

#[test]
fn builtin_dispatch() {
    assert_eq!(run_builtin(HELLO_HANDLE, vec![]), Ok(Value::Text("Hello, pgxsocket".to_string())));
    assert!(run_builtin(5, vec![]).is_err());
    let reg = module_registry();
    assert_eq!(reg.routine_names(), vec!["hello_pgxsocket".to_string()]);
}

#[test]
fn integer_text_parsing() {
    assert_eq!(parse_i64("0"), Some(0));
    assert_eq!(parse_i64("007"), Some(7));
    assert_eq!(parse_i64("-42"), Some(-42));
    assert_eq!(parse_i64("9223372036854775807"), Some(i64::MAX));
    assert_eq!(parse_i64("-9223372036854775808"), Some(i64::MIN));
    assert_eq!(parse_i64("9223372036854775808"), None);
    assert_eq!(parse_i64("-9223372036854775809"), None);
    assert_eq!(parse_i64(""), None);
    assert_eq!(parse_i64("-"), None);
    assert_eq!(parse_i64("12a"), None);
    assert_eq!(parse_i64("+1"), None);
}

#[test]
fn integer_text_formatting() {
    assert_eq!(format_i64(0), "0");
    assert_eq!(format_i64(1234), "1234");
    assert_eq!(format_i64(-5), "-5");
    assert_eq!(format_i64(i64::MIN), "-9223372036854775808");
    assert_eq!(format_i64(i64::MAX), "9223372036854775807");
}

#[test]
fn boolean_text_parsing() {
    assert_eq!(parse_bool("t"), Some(true));
    assert_eq!(parse_bool("true"), Some(true));
    assert_eq!(parse_bool("f"), Some(false));
    assert_eq!(parse_bool("false"), Some(false));
    assert_eq!(parse_bool("yes"), None);
    assert_eq!(parse_bool(""), None);
}

#[test]
fn value_codec() {
    assert_eq!(decode_value(TypeTag::Int4, &text("-2147483648")), Some(Value::Int4(i32::MIN)));
    assert_eq!(decode_value(TypeTag::Int4, &text("-2147483649")), None);
    assert_eq!(decode_value(TypeTag::Bool, &text("maybe")), None);
    assert_eq!(decode_value(TypeTag::Text, &text("")), Some(Value::Text(String::new())));
    assert_eq!(decode_value(TypeTag::Int8, &None), Some(Value::Null));
    assert_eq!(encode_value(&Value::Bool(true)), text("t"));
    assert_eq!(encode_value(&Value::Int4(-42)), text("-42"));
    assert_eq!(encode_value(&Value::Null), None);
    assert_eq!(encode_value(&Value::Text("x y".to_string())), text("x y"));
}

#[test]
fn type_identifiers() {
    assert_eq!(type_tag_of_oid(16), Some(TypeTag::Bool));
    assert_eq!(type_tag_of_oid(20), Some(TypeTag::Int8));
    assert_eq!(type_tag_of_oid(23), Some(TypeTag::Int4));
    assert_eq!(type_tag_of_oid(25), Some(TypeTag::Text));
    assert_eq!(type_tag_of_oid(FLOAT4_OID), None);
}

#[test]
fn encode_then_decode_gives_value_back() {
    let cases = vec![
        (Value::Int4(i32::MAX), TypeTag::Int4),
        (Value::Int4(-7), TypeTag::Int4),
        (Value::Int8(i64::MIN), TypeTag::Int8),
        (Value::Int8(0), TypeTag::Int8),
        (Value::Bool(true), TypeTag::Bool),
        (Value::Bool(false), TypeTag::Bool),
        (Value::Text("Hello, pgxsocket".to_string()), TypeTag::Text),
        (Value::Null, TypeTag::Text),
    ];
    for (v, tag) in cases {
        assert_eq!(decode_value(tag, &encode_value(&v)), Some(v));
    }
}
