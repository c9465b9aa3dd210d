use enclave_runner::task::{
    Artifact, FlagsVal, Function, ListVal, OptionVal, Package, RecordField, RecordVal, ResultVal,
    Task, TupleVal, Val, Value, VariantVal,
};
use enclave_runner::config::LogSeverity;
use enclave_runner::orm::{LogIssuer, LogLevel};
use enclave_runner::wasm_host::{
    convert_to_wasm_params, export_path, guest_line, interpret_return, missing_export,
    proto_val_to_wasm_val, ConvertError, ExecuteError, ExportPath, GuestStream, WasmVal,
};

fn v(value: Value) -> Val {
    Val { value: Some(value) }
}

fn string_val(s: &str) -> Val {
    v(Value::StringVal(s.to_string()))
}

#[test]
fn converts_scalars() {
    assert!(matches!(proto_val_to_wasm_val(v(Value::BoolVal(true))), Ok(WasmVal::Bool(true))));
    assert!(matches!(proto_val_to_wasm_val(v(Value::S32Val(-7))), Ok(WasmVal::S32(-7))));
    assert!(matches!(proto_val_to_wasm_val(v(Value::U32Val(7))), Ok(WasmVal::U32(7))));
    assert!(matches!(proto_val_to_wasm_val(v(Value::S64Val(-1 << 40))), Ok(WasmVal::S64(x)) if x == -1 << 40));
    assert!(matches!(proto_val_to_wasm_val(v(Value::U64Val(u64::MAX))), Ok(WasmVal::U64(u64::MAX))));
    assert!(matches!(proto_val_to_wasm_val(string_val("hi")), Ok(WasmVal::String(ref s)) if s == "hi"));
    assert!(matches!(proto_val_to_wasm_val(v(Value::EnumVal("red".to_string()))), Ok(WasmVal::Enum(ref s)) if s == "red"));
}

#[test]
fn converts_float_bit_patterns() {
    let bits = 1.5f32.to_bits();
    assert!(matches!(proto_val_to_wasm_val(v(Value::F32Val(bits))), Ok(WasmVal::Float32(b)) if b == bits));
    let bits = (-2.25f64).to_bits();
    assert!(matches!(proto_val_to_wasm_val(v(Value::F64Val(bits))), Ok(WasmVal::Float64(b)) if b == bits));
}

#[test]
fn narrow_integers_are_truncated() {
    assert!(matches!(proto_val_to_wasm_val(v(Value::S8Val(300))), Ok(WasmVal::S8(44))));
    assert!(matches!(proto_val_to_wasm_val(v(Value::S8Val(-1))), Ok(WasmVal::S8(-1))));
    assert!(matches!(proto_val_to_wasm_val(v(Value::U8Val(256 + 5))), Ok(WasmVal::U8(5))));
    assert!(matches!(proto_val_to_wasm_val(v(Value::S16Val(40000))), Ok(WasmVal::S16(-25536))));
    assert!(matches!(proto_val_to_wasm_val(v(Value::U16Val(65537))), Ok(WasmVal::U16(1))));
}

#[test]
fn converts_characters() {
    assert!(matches!(proto_val_to_wasm_val(v(Value::CharVal(0x41))), Ok(WasmVal::Char('A'))));
    assert!(matches!(proto_val_to_wasm_val(v(Value::CharVal(0x1F600))), Ok(WasmVal::Char('\u{1F600}'))));
    assert!(matches!(
        proto_val_to_wasm_val(v(Value::CharVal(0xD800))),
        Err(ConvertError::InvalidChar(0xD800))
    ));
    assert!(matches!(
        proto_val_to_wasm_val(v(Value::CharVal(0x110000))),
        Err(ConvertError::InvalidChar(0x110000))
    ));
}

#[test]
fn missing_value_is_an_error() {
    assert!(matches!(proto_val_to_wasm_val(Val { value: None }), Err(ConvertError::MissingValue)));
}

#[test]
fn converts_nested_values() {
    let list = v(Value::ListVal(ListVal { values: vec![v(Value::U8Val(1)), v(Value::U8Val(2))] }));
    match proto_val_to_wasm_val(list) {
        Ok(WasmVal::List(items)) => {
            assert_eq!(items.len(), 2);
            assert!(matches!(items[1], WasmVal::U8(2)));
        }
        other => panic!("unexpected {:?}", other),
    }
    let tuple = v(Value::TupleVal(TupleVal { values: vec![string_val("a"), v(Value::BoolVal(false))] }));
    assert!(matches!(proto_val_to_wasm_val(tuple), Ok(WasmVal::Tuple(ref t)) if t.len() == 2));
    let opt = v(Value::OptionVal(OptionVal { value: Some(Box::new(v(Value::S32Val(3)))) }));
    assert!(matches!(proto_val_to_wasm_val(opt), Ok(WasmVal::Option(Some(ref b))) if matches!(**b, WasmVal::S32(3))));
    let none = v(Value::OptionVal(OptionVal { value: None }));
    assert!(matches!(proto_val_to_wasm_val(none), Ok(WasmVal::Option(None))));
    let ok = v(Value::ResultVal(ResultVal { is_ok: true, value: None }));
    assert!(matches!(proto_val_to_wasm_val(ok), Ok(WasmVal::Result(Ok(None)))));
    let err = v(Value::ResultVal(ResultVal { is_ok: false, value: Some(Box::new(string_val("bad"))) }));
    assert!(matches!(proto_val_to_wasm_val(err), Ok(WasmVal::Result(Err(Some(_))))));
    let variant = v(Value::VariantVal(VariantVal { name: "circle".to_string(), value: Some(Box::new(v(Value::U32Val(4)))) }));
    assert!(matches!(proto_val_to_wasm_val(variant), Ok(WasmVal::Variant(ref n, Some(_))) if n == "circle"));
    let flags = v(Value::FlagsVal(FlagsVal { flags: vec!["read".to_string(), "write".to_string()] }));
    assert!(matches!(proto_val_to_wasm_val(flags), Ok(WasmVal::Flags(ref f)) if f.len() == 2 && f[1] == "write"));
}

#[test]
fn converts_records() {
    let record = v(Value::RecordVal(RecordVal {
        fields: vec![
            RecordField { name: "x".to_string(), value: Some(Box::new(v(Value::S32Val(1)))) },
            RecordField { name: "y".to_string(), value: Some(Box::new(v(Value::S32Val(2)))) },
        ],
    }));
    match proto_val_to_wasm_val(record) {
        Ok(WasmVal::Record(fields)) => {
            assert_eq!(fields.len(), 2);
            assert_eq!(fields[0].0, "x");
            assert!(matches!(fields[1].1, WasmVal::S32(2)));
        }
        other => panic!("unexpected {:?}", other),
    }
}

#[test]
fn record_field_without_value_is_an_error() {
    let record = v(Value::RecordVal(RecordVal {
        fields: vec![
            RecordField { name: "x".to_string(), value: Some(Box::new(v(Value::S32Val(1)))) },
            RecordField { name: "y".to_string(), value: None },
        ],
    }));
    match proto_val_to_wasm_val(record) {
        Err(e @ ConvertError::MissingFieldValue(_)) => assert_eq!(e.message(), "Record field 'y' has no value"),
        other => panic!("unexpected {:?}", other),
    }
}

#[test]
fn first_failing_element_decides_the_error() {
    let params = vec![
        v(Value::U8Val(1)),
        v(Value::CharVal(0xDFFF)),
        Val { value: None },
    ];
    match convert_to_wasm_params(params) {
        Err(e @ ConvertError::InvalidChar(0xDFFF)) => assert_eq!(e.message(), "Invalid Unicode scalar value: 57343"),
        other => panic!("unexpected {:?}", other),
    }
    let nested = vec![v(Value::ListVal(ListVal { values: vec![Val { value: None }] })), v(Value::CharVal(0xD800))];
    assert!(matches!(convert_to_wasm_params(nested), Err(ConvertError::MissingValue)));
}

#[test]
fn converts_parameter_lists() {
    let out = convert_to_wasm_params(vec![string_val("a"), v(Value::S64Val(9))]).unwrap();
    assert_eq!(out.len(), 2);
    assert!(matches!(out[1], WasmVal::S64(9)));
    assert!(convert_to_wasm_params(vec![]).unwrap().is_empty());
}

fn component_task(package: Option<Package>, has_artifact: bool) -> Task {
    Task {
        function: Some(Function {
            name: "run".to_string(),
            interface: "runner".to_string(),
            artifact: if has_artifact { Some(Artifact { package }) } else { None },
        }),
        environment_variables: vec![],
        arguments: vec![],
        parameters: vec![],
    }
}

#[test]
fn export_path_of_task() {
    let t = component_task(Some(Package { namespace: "acme".to_string(), name: "calc".to_string() }), true);
    let p = export_path(&t).unwrap();
    assert_eq!(p.interface, "acme:calc/runner");
    assert_eq!(p.function, "run");
}

#[test]
fn export_path_errors_in_order() {
    let t = Task { function: None, environment_variables: vec![], arguments: vec![], parameters: vec![] };
    let e = export_path(&t).unwrap_err();
    assert!(matches!(e, ExecuteError::NoFunction));
    assert_eq!(e.message(), "Task has no function");
    let e = export_path(&component_task(None, false)).unwrap_err();
    assert_eq!(e.message(), "Function has no artifact");
    let e = export_path(&component_task(None, true)).unwrap_err();
    assert_eq!(e.message(), "Artifact has no package");
}

fn pair(a: WasmVal, b: WasmVal) -> WasmVal {
    WasmVal::Tuple(vec![a, b])
}

#[test]
fn return_value_success() {
    let r = interpret_return(&pair(WasmVal::String("42 ü".to_string()), WasmVal::String(String::new())));
    assert_eq!(r.unwrap(), "42 ü".as_bytes().to_vec());
}

#[test]
fn return_value_reports_error_text() {
    let r = interpret_return(&pair(WasmVal::String("x".to_string()), WasmVal::String("boom".to_string())));
    let e = r.unwrap_err();
    assert_eq!(e.message(), "Execution error: boom");
}

#[test]
fn return_value_shape_errors() {
    let e = interpret_return(&pair(WasmVal::U8(1), WasmVal::String(String::new()))).unwrap_err();
    assert_eq!(e.message(), "Return value tuple does not contain two strings");
    let e = interpret_return(&WasmVal::Tuple(vec![WasmVal::String(String::new())])).unwrap_err();
    assert_eq!(e.message(), "Return value is not a two-element tuple");
    let e = interpret_return(&WasmVal::String("x".to_string())).unwrap_err();
    assert!(matches!(e, ExecuteError::NotAPair));
}

#[test]
fn execute_error_messages() {
    assert_eq!(ExecuteError::InterfaceNotFound("a:b/c".to_string()).message(), "Cannot get interface a:b/c");
    assert_eq!(
        ExecuteError::FunctionNotFound("f".to_string(), "a:b/c".to_string()).message(),
        "Cannot get function f in interface a:b/c"
    );
    assert_eq!(ExecuteError::Parameter(ConvertError::MissingValue).message(), "Val has no value set");
}


#[test]
fn engine_settings_values() {
    let s = enclave_runner::wasm_host::engine_settings();
    assert_eq!(s.max_memory_size, 1u64 << 32);
    assert_eq!(s.memory_reservation, 1u64 << 32);
    assert!(s.memory_init_cow);
    assert!(s.wasm_memory64);
}

#[test]
fn invalid_char_message_has_decimal_code() {
    assert_eq!(ConvertError::InvalidChar(0xD800).message(), "Invalid Unicode scalar value: 55296");
}

#[test]
fn missing_interface_or_function() {
    let path = ExportPath { interface: "acme:calc/math".to_string(), function: "add".to_string() };
    let e = missing_export(&path, false);
    assert!(matches!(&e, ExecuteError::InterfaceNotFound(i) if i == "acme:calc/math"));
    assert_eq!(e.message(), "Cannot get interface acme:calc/math");
    let e = missing_export(&path, true);
    assert!(matches!(&e, ExecuteError::FunctionNotFound(f, i) if f == "add" && i == "acme:calc/math"));
    assert_eq!(e.message(), "Cannot get function add in interface acme:calc/math");
}

#[test]
fn guest_output_is_reported_as_artifact_errors() {
    let out = guest_line(GuestStream::Stdout, "hello wörld");
    assert_eq!(out.severity, LogSeverity::Info);
    assert_eq!(out.text, "Artifact: hello wörld");
    assert_eq!(out.level, LogLevel::Error);
    assert_eq!(out.issuer, LogIssuer::Artifact);
    assert_eq!(out.payload, "hello wörld".as_bytes().to_vec());
    let err = guest_line(GuestStream::Stderr, "");
    assert_eq!(err.severity, LogSeverity::Error);
    assert_eq!(err.text, "Artifact: ");
    assert_eq!(err.level, LogLevel::Error);
    assert_eq!(err.issuer, LogIssuer::Artifact);
    assert!(err.payload.is_empty());
}
