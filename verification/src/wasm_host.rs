//! Component execution: the component-model values a task's parameters become,
//! the export a task names, and the reading of the function's returned value.

use vstd::prelude::*;
use vstd::string::*;
use vstd::slice::slice_to_vec;
use vstd::utf8::encode_utf8;
use crate::decimal::{decimal, decimal_digits};
use crate::task::{FlagsVal, ListVal, OptionVal, RecordField, RecordVal, ResultVal, Task, TupleVal, Val, Value, VariantVal};
use crate::config::LogSeverity;
use crate::orm::{LogIssuer, LogLevel};

verus! {

/// A component-model value as handed to, or returned by, a component function.
/// Floating-point values are held as their IEEE-754 bit patterns; `Opaque` stands
/// for a returned value of a kind that this library does not read (a map, resource,
/// future, stream or error context).
#[derive(Debug)]
pub enum WasmVal {
    Bool(bool),
    S8(i8),
    U8(u8),
    S16(i16),
    U16(u16),
    S32(i32),
    U32(u32),
    S64(i64),
    U64(u64),
    Float32(u32),
    Float64(u64),
    Char(char),
    String(String),
    List(Vec<WasmVal>),
    Record(Vec<(String, WasmVal)>),
    Tuple(Vec<WasmVal>),
    Variant(String, Option<Box<WasmVal>>),
    Enum(String),
    Option(Option<Box<WasmVal>>),
    Result(Result<Option<Box<WasmVal>>, Option<Box<WasmVal>>>),
    Flags(Vec<String>),
    Opaque,
}

/// The mathematical model of a [`WasmVal`]: the same tree with sequences in place of vectors.
pub enum WasmValue {
    Bool(bool),
    S8(i8),
    U8(u8),
    S16(i16),
    U16(u16),
    S32(i32),
    U32(u32),
    S64(i64),
    U64(u64),
    Float32(u32),
    Float64(u64),
    Char(char),
    String(String),
    List(Seq<WasmValue>),
    Record(Seq<(String, WasmValue)>),
    Tuple(Seq<WasmValue>),
    Variant(String, Option<Box<WasmValue>>),
    Enum(String),
    Option(Option<Box<WasmValue>>),
    Result(Result<Option<Box<WasmValue>>, Option<Box<WasmValue>>>),
    Flags(Seq<String>),
    Opaque,
}

pub open spec fn model(v: WasmVal) -> WasmValue
    decreases v,
{
    match v {
        WasmVal::Bool(b) => WasmValue::Bool(b),
        WasmVal::S8(x) => WasmValue::S8(x),
        WasmVal::U8(x) => WasmValue::U8(x),
        WasmVal::S16(x) => WasmValue::S16(x),
        WasmVal::U16(x) => WasmValue::U16(x),
        WasmVal::S32(x) => WasmValue::S32(x),
        WasmVal::U32(x) => WasmValue::U32(x),
        WasmVal::S64(x) => WasmValue::S64(x),
        WasmVal::U64(x) => WasmValue::U64(x),
        WasmVal::Float32(x) => WasmValue::Float32(x),
        WasmVal::Float64(x) => WasmValue::Float64(x),
        WasmVal::Char(c) => WasmValue::Char(c),
        WasmVal::String(s) => WasmValue::String(s),
        WasmVal::List(items) => WasmValue::List(model_seq(items@)),
        WasmVal::Record(fields) => WasmValue::Record(model_fields(fields@)),
        WasmVal::Tuple(items) => WasmValue::Tuple(model_seq(items@)),
        WasmVal::Variant(name, payload) => WasmValue::Variant(name, model_opt(payload)),
        WasmVal::Enum(name) => WasmValue::Enum(name),
        WasmVal::Option(payload) => WasmValue::Option(model_opt(payload)),
        WasmVal::Result(r) => match r {
            Ok(payload) => WasmValue::Result(Ok(model_opt(payload))),
            Err(payload) => WasmValue::Result(Err(model_opt(payload))),
        },
        WasmVal::Flags(names) => WasmValue::Flags(names@),
        WasmVal::Opaque => WasmValue::Opaque,
    }
}

pub open spec fn model_opt(p: Option<Box<WasmVal>>) -> Option<Box<WasmValue>>
    decreases p,
{
    match p {
        Some(b) => Some(Box::new(model(*b))),
        None => None,
    }
}

pub open spec fn model_seq(s: Seq<WasmVal>) -> Seq<WasmValue>
    decreases s,
{
    if s.len() == 0 {
        Seq::empty()
    } else {
        model_seq(s.subrange(0, s.len() - 1)).push(model(s[s.len() - 1]))
    }
}

pub open spec fn model_fields(s: Seq<(String, WasmVal)>) -> Seq<(String, WasmValue)>
    decreases s,
{
    if s.len() == 0 {
        Seq::empty()
    } else {
        model_fields(s.subrange(0, s.len() - 1)).push((s[s.len() - 1].0, model(s[s.len() - 1].1)))
    }
}

/// Why a parameter could not be converted.
#[derive(Debug)]
pub enum ConvertError {
    /// A value (at any depth) has no kind set.
    MissingValue,
    /// A character parameter holds a number that is not a Unicode scalar value.
    InvalidChar(u32),
    /// The named record field has no value.
    MissingFieldValue(String),
}

/// Unicode scalar values: code points outside the surrogate range, up to `0x10FFFF`.
pub open spec fn is_unicode_scalar(c: u32) -> bool {
    c < 0xD800 || (0xE000 <= c && c <= 0x10FFFF)
}

/// The component-model value a task parameter stands for. Narrow integers are
/// truncated to their width; a list, tuple or record fails with the error of its
/// first failing element, in order.
pub open spec fn spec_convert(v: Val) -> Result<WasmValue, ConvertError>
    decreases v,
{
    match v.value {
        None => Err(ConvertError::MissingValue),
        Some(value) => match value {
            Value::BoolVal(b) => Ok(WasmValue::Bool(b)),
            Value::S8Val(x) => Ok(WasmValue::S8(x as i8)),
            Value::U8Val(x) => Ok(WasmValue::U8(x as u8)),
            Value::S16Val(x) => Ok(WasmValue::S16(x as i16)),
            Value::U16Val(x) => Ok(WasmValue::U16(x as u16)),
            Value::S32Val(x) => Ok(WasmValue::S32(x)),
            Value::U32Val(x) => Ok(WasmValue::U32(x)),
            Value::S64Val(x) => Ok(WasmValue::S64(x)),
            Value::U64Val(x) => Ok(WasmValue::U64(x)),
            Value::F32Val(x) => Ok(WasmValue::Float32(x)),
            Value::F64Val(x) => Ok(WasmValue::Float64(x)),
            Value::CharVal(c) => if is_unicode_scalar(c) {
                Ok(WasmValue::Char(c as char))
            } else {
                Err(ConvertError::InvalidChar(c))
            },
            Value::StringVal(s) => Ok(WasmValue::String(s)),
            Value::ListVal(list) => match spec_convert_seq(list.values@) {
                Ok(items) => Ok(WasmValue::List(items)),
                Err(e) => Err(e),
            },
            Value::TupleVal(tuple) => match spec_convert_seq(tuple.values@) {
                Ok(items) => Ok(WasmValue::Tuple(items)),
                Err(e) => Err(e),
            },
            Value::OptionVal(opt) => match spec_convert_opt(opt.value) {
                Ok(p) => Ok(WasmValue::Option(p)),
                Err(e) => Err(e),
            },
            Value::ResultVal(res) => match spec_convert_opt(res.value) {
                Ok(p) => Ok(WasmValue::Result(if res.is_ok { Ok(p) } else { Err(p) })),
                Err(e) => Err(e),
            },
            Value::RecordVal(record) => match spec_convert_fields(record.fields@) {
                Ok(fields) => Ok(WasmValue::Record(fields)),
                Err(e) => Err(e),
            },
            Value::VariantVal(variant) => match spec_convert_opt(variant.value) {
                Ok(p) => Ok(WasmValue::Variant(variant.name, p)),
                Err(e) => Err(e),
            },
            Value::EnumVal(name) => Ok(WasmValue::Enum(name)),
            Value::FlagsVal(flags) => Ok(WasmValue::Flags(flags.flags@)),
        },
    }
}

pub open spec fn spec_convert_opt(p: Option<Box<Val>>) -> Result<Option<Box<WasmValue>>, ConvertError>
    decreases p,
{
    match p {
        None => Ok(None),
        Some(b) => match spec_convert(*b) {
            Ok(x) => Ok(Some(Box::new(x))),
            Err(e) => Err(e),
        },
    }
}

pub open spec fn spec_convert_seq(s: Seq<Val>) -> Result<Seq<WasmValue>, ConvertError>
    decreases s,
{
    if s.len() == 0 {
        Ok(Seq::empty())
    } else {
        match spec_convert_seq(s.subrange(0, s.len() - 1)) {
            Err(e) => Err(e),
            Ok(prefix) => match spec_convert(s[s.len() - 1]) {
                Ok(x) => Ok(prefix.push(x)),
                Err(e) => Err(e),
            },
        }
    }
}

pub open spec fn spec_convert_field(f: RecordField) -> Result<(String, WasmValue), ConvertError>
    decreases f,
{
    match f.value {
        None => Err(ConvertError::MissingFieldValue(f.name)),
        Some(b) => match spec_convert(*b) {
            Ok(x) => Ok((f.name, x)),
            Err(e) => Err(e),
        },
    }
}

pub open spec fn spec_convert_fields(s: Seq<RecordField>) -> Result<Seq<(String, WasmValue)>, ConvertError>
    decreases s,
{
    if s.len() == 0 {
        Ok(Seq::empty())
    } else {
        match spec_convert_fields(s.subrange(0, s.len() - 1)) {
            Err(e) => Err(e),
            Ok(prefix) => match spec_convert_field(s[s.len() - 1]) {
                Ok(x) => Ok(prefix.push(x)),
                Err(e) => Err(e),
            },
        }
    }
}

/// The model of a conversion outcome.
pub open spec fn model_result(r: Result<WasmVal, ConvertError>) -> Result<WasmValue, ConvertError> {
    match r {
        Ok(w) => Ok(model(w)),
        Err(e) => Err(e),
    }
}

/// The model of the outcome of converting a sequence of values.
pub open spec fn model_seq_result(r: Result<Vec<WasmVal>, ConvertError>) -> Result<Seq<WasmValue>, ConvertError> {
    match r {
        Ok(v) => Ok(model_seq(v@)),
        Err(e) => Err(e),
    }
}

/// Calls `char::from_u32`, which (as its documentation states) yields the character
/// with the given code point, and `None` for surrogates and numbers above `0x10FFFF`.
#[verifier::external_body]
fn char_from_u32(c: u32) -> (res: Option<char>)
    ensures
        res is Some <==> is_unicode_scalar(c),
        res matches Some(ch) ==> ch == c as char,
{
    char::from_u32(c)
}

proof fn lemma_convert_seq_prefix_err(s: Seq<Val>, k: int, e: ConvertError)
    requires
        0 <= k <= s.len(),
        spec_convert_seq(s.subrange(0, k)) == Err::<Seq<WasmValue>, ConvertError>(e),
    ensures
        spec_convert_seq(s) == Err::<Seq<WasmValue>, ConvertError>(e),
    decreases s.len(),
{
    if k == s.len() {
        assert(s.subrange(0, k) =~= s);
    } else {
        let t = s.subrange(0, s.len() - 1);
        assert(t.subrange(0, k) =~= s.subrange(0, k));
        lemma_convert_seq_prefix_err(t, k, e);
    }
}

/// Converts a sequence of parameter values, element by element in order, stopping at
/// the first element that fails.
pub fn convert_to_wasm_params(task_params: Vec<Val>) -> (res: Result<Vec<WasmVal>, ConvertError>)
    ensures
        model_seq_result(res) == spec_convert_seq(task_params@),
        res matches Ok(v) ==> v@.len() == task_params@.len(),
    decreases task_params, 1nat,
{
    let ghost orig = task_params@;
    let mut out: Vec<WasmVal> = Vec::new();
    let mut rest = task_params;
    let mut i: usize = 0;
    let n = rest.len();
    while rest.len() > 0
        invariant
            i <= n,
            n == orig.len(),
            orig == task_params@,
            rest@ == orig.subrange(i as int, n as int),
            spec_convert_seq(orig.subrange(0, i as int)) == Ok::<Seq<WasmValue>, ConvertError>(model_seq(out@)),
            out@.len() == i,
        decreases rest@.len(),
    {
        let x = rest.remove(0);
        assert(x == orig[i as int]);
        assert(0 <= i < task_params@.len());
        assert(decreases_to!(task_params => task_params@));
        assert(decreases_to!(task_params@ => task_params@[i as int]));
        let r = proto_val_to_wasm_val(x);
        assert(orig.subrange(0, i + 1).subrange(0, i as int) =~= orig.subrange(0, i as int));
        match r {
            Ok(w) => {
                let ghost before = out@;
                out.push(w);
                assert(out@.subrange(0, out@.len() - 1) =~= before);
                i = i + 1;
            },
            Err(e) => {
                proof {
                    let p = orig.subrange(0, i + 1);
                    assert(p[p.len() - 1] == orig[i as int]);
                    assert(p.subrange(0, p.len() - 1) =~= orig.subrange(0, i as int));
                    assert(spec_convert(orig[i as int]) == Err::<WasmValue, ConvertError>(e));
                    lemma_convert_seq_prefix_err(orig, i + 1, e);
                }
                return Err(e);
            },
        }
    }
    assert(orig.subrange(0, n as int) =~= orig);
    Ok(out)
}

/// Converts one task parameter into the component-model value it stands for.
pub fn proto_val_to_wasm_val(proto: Val) -> (res: Result<WasmVal, ConvertError>)
    ensures
        model_result(res) == spec_convert(proto),
    decreases proto, 0nat,
{
    let value = match proto.value {
        None => return Err(ConvertError::MissingValue),
        Some(v) => v,
    };
    match value {
        Value::BoolVal(b) => Ok(WasmVal::Bool(b)),
        Value::S8Val(x) => Ok(WasmVal::S8(x as i8)),
        Value::U8Val(x) => Ok(WasmVal::U8(x as u8)),
        Value::S16Val(x) => Ok(WasmVal::S16(x as i16)),
        Value::U16Val(x) => Ok(WasmVal::U16(x as u16)),
        Value::S32Val(x) => Ok(WasmVal::S32(x)),
        Value::U32Val(x) => Ok(WasmVal::U32(x)),
        Value::S64Val(x) => Ok(WasmVal::S64(x)),
        Value::U64Val(x) => Ok(WasmVal::U64(x)),
        Value::F32Val(x) => Ok(WasmVal::Float32(x)),
        Value::F64Val(x) => Ok(WasmVal::Float64(x)),
        Value::CharVal(c) => match char_from_u32(c) {
            Some(ch) => Ok(WasmVal::Char(ch)),
            None => Err(ConvertError::InvalidChar(c)),
        },
        Value::StringVal(s) => Ok(WasmVal::String(s)),
        Value::ListVal(list) => match convert_to_wasm_params(list.values) {
            Ok(items) => Ok(WasmVal::List(items)),
            Err(e) => Err(e),
        },
        Value::TupleVal(tuple) => match convert_to_wasm_params(tuple.values) {
            Ok(items) => Ok(WasmVal::Tuple(items)),
            Err(e) => Err(e),
        },
        Value::OptionVal(opt) => match convert_boxed(opt.value) {
            Ok(p) => Ok(WasmVal::Option(p)),
            Err(e) => Err(e),
        },
        Value::ResultVal(res) => match convert_boxed(res.value) {
            Ok(p) => Ok(WasmVal::Result(if res.is_ok { Ok(p) } else { Err(p) })),
            Err(e) => Err(e),
        },
        Value::RecordVal(record) => match convert_fields(record.fields) {
            Ok(fields) => Ok(WasmVal::Record(fields)),
            Err(e) => Err(e),
        },
        Value::VariantVal(variant) => match convert_boxed(variant.value) {
            Ok(p) => Ok(WasmVal::Variant(variant.name, p)),
            Err(e) => Err(e),
        },
        Value::EnumVal(name) => Ok(WasmVal::Enum(name)),
        Value::FlagsVal(flags) => Ok(WasmVal::Flags(flags.flags)),
    }
}

/// The model of the outcome of converting an optional boxed value.
pub open spec fn model_opt_result(r: Result<Option<Box<WasmVal>>, ConvertError>) -> Result<Option<Box<WasmValue>>, ConvertError> {
    match r {
        Ok(p) => Ok(model_opt(p)),
        Err(e) => Err(e),
    }
}

/// The model of the outcome of converting record fields.
pub open spec fn model_fields_result(r: Result<Vec<(String, WasmVal)>, ConvertError>) -> Result<Seq<(String, WasmValue)>, ConvertError> {
    match r {
        Ok(v) => Ok(model_fields(v@)),
        Err(e) => Err(e),
    }
}

/// Converts the optional payload of an option, result or variant parameter.
fn convert_boxed(p: Option<Box<Val>>) -> (res: Result<Option<Box<WasmVal>>, ConvertError>)
    ensures
        model_opt_result(res) == spec_convert_opt(p),
    decreases p, 1nat,
{
    match p {
        None => Ok(None),
        Some(b) => match proto_val_to_wasm_val(*b) {
            Ok(w) => Ok(Some(Box::new(w))),
            Err(e) => Err(e),
        },
    }
}

proof fn lemma_convert_fields_prefix_err(s: Seq<RecordField>, k: int, e: ConvertError)
    requires
        0 <= k <= s.len(),
        spec_convert_fields(s.subrange(0, k)) == Err::<Seq<(String, WasmValue)>, ConvertError>(e),
    ensures
        spec_convert_fields(s) == Err::<Seq<(String, WasmValue)>, ConvertError>(e),
    decreases s.len(),
{
    if k == s.len() {
        assert(s.subrange(0, k) =~= s);
    } else {
        let t = s.subrange(0, s.len() - 1);
        assert(t.subrange(0, k) =~= s.subrange(0, k));
        lemma_convert_fields_prefix_err(t, k, e);
    }
}

/// The model of the outcome of converting one record field.
pub open spec fn model_field_result(r: Result<(String, WasmVal), ConvertError>) -> Result<(String, WasmValue), ConvertError> {
    match r {
        Ok(p) => Ok((p.0, model(p.1))),
        Err(e) => Err(e),
    }
}

/// Converts one record field; a field without a value is an error that names it.
fn convert_field(f: RecordField) -> (res: Result<(String, WasmVal), ConvertError>)
    ensures
        model_field_result(res) == spec_convert_field(f),
    decreases f, 1nat,
{
    match f.value {
        None => Err(ConvertError::MissingFieldValue(f.name)),
        Some(b) => match proto_val_to_wasm_val(*b) {
            Ok(w) => Ok((f.name, w)),
            Err(e) => Err(e),
        },
    }
}

/// Converts the fields of a record parameter in order, stopping at the first field
/// that has no value or whose value fails.
fn convert_fields(fields: Vec<RecordField>) -> (res: Result<Vec<(String, WasmVal)>, ConvertError>)
    ensures
        model_fields_result(res) == spec_convert_fields(fields@),
    decreases fields, 1nat,
{
    let ghost orig = fields@;
    let mut out: Vec<(String, WasmVal)> = Vec::new();
    let mut rest = fields;
    let mut i: usize = 0;
    let n = rest.len();
    while rest.len() > 0
        invariant
            i <= n,
            n == orig.len(),
            orig == fields@,
            rest@ == orig.subrange(i as int, n as int),
            spec_convert_fields(orig.subrange(0, i as int)) == Ok::<Seq<(String, WasmValue)>, ConvertError>(model_fields(out@)),
            out@.len() == i,
        decreases rest@.len(),
    {
        let f = rest.remove(0);
        assert(f == orig[i as int]);
        assert(orig.subrange(0, i + 1).subrange(0, i as int) =~= orig.subrange(0, i as int));
        assert(0 <= i < fields@.len());
        assert(decreases_to!(fields => fields@));
        assert(decreases_to!(fields@ => fields@[i as int]));
        let r = convert_field(f);
        match r {
            Ok(pair) => {
                let ghost before = out@;
                out.push(pair);
                assert(out@.subrange(0, out@.len() - 1) =~= before);
                i = i + 1;
            },
            Err(e) => {
                proof {
                    let p = orig.subrange(0, i + 1);
                    assert(p[p.len() - 1] == orig[i as int]);
                    assert(p.subrange(0, p.len() - 1) =~= orig.subrange(0, i as int));
                    lemma_convert_fields_prefix_err(orig, i + 1, e);
                }
                return Err(e);
            },
        }
    }
    assert(orig.subrange(0, n as int) =~= orig);
    Ok(out)
}

/// Why a component task could not be run or did not succeed.
#[derive(Debug)]
pub enum ExecuteError {
    /// The task names no function.
    NoFunction,
    /// The task's function names no artifact.
    NoArtifact,
    /// The function's artifact names no package.
    NoPackage,
    /// The component exports no interface of this name.
    InterfaceNotFound(String),
    /// The interface (second) exports no function of this name (first).
    FunctionNotFound(String, String),
    /// A parameter could not be converted.
    Parameter(ConvertError),
    /// The function reported this error text.
    Execution(String),
    /// The function returned a pair that is not made of two strings.
    NotTwoStrings,
    /// The function did not return a pair.
    NotAPair,
}

/// The export a task calls: the interface `namespace:name/interface` of the
/// artifact's package, and the function's name inside it.
#[derive(Debug)]
pub struct ExportPath {
    pub interface: String,
    pub function: String,
}

/// The interface identifier `namespace:name/interface`.
pub open spec fn interface_identifier(namespace: Seq<char>, name: Seq<char>, interface: Seq<char>) -> Seq<char> {
    namespace + ":"@ + name + "/"@ + interface
}

/// Finds the export that a task names. The task needs a function, the function an
/// artifact, the artifact a package, checked in that order.
pub fn export_path(task: &Task) -> (res: Result<ExportPath, ExecuteError>)
    ensures
        match task.function {
            None => res matches Err(ExecuteError::NoFunction),
            Some(f) => match f.artifact {
                None => res matches Err(ExecuteError::NoArtifact),
                Some(a) => match a.package {
                    None => res matches Err(ExecuteError::NoPackage),
                    Some(p) => res matches Ok(path)
                        && path.interface@ == interface_identifier(p.namespace@, p.name@, f.interface@)
                        && path.function@ == f.name@,
                },
            },
        },
{
    let function = match &task.function {
        Some(f) => f,
        None => return Err(ExecuteError::NoFunction),
    };
    let artifact = match &function.artifact {
        Some(a) => a,
        None => return Err(ExecuteError::NoArtifact),
    };
    let package = match &artifact.package {
        Some(p) => p,
        None => return Err(ExecuteError::NoPackage),
    };
    let mut interface = package.namespace.clone();
    interface.append(":");
    interface.append(package.name.as_str());
    interface.append("/");
    interface.append(function.interface.as_str());
    Ok(ExportPath { interface, function: function.name.clone() })
}

/// Reads the value a component function returned.
pub fn interpret_return(ret: &WasmVal) -> (res: Result<Vec<u8>, ExecuteError>)
    ensures
        match model(*ret) {
            WasmValue::Tuple(items) => if items.len() == 2 {
                match (items[0], items[1]) {
                    (WasmValue::String(result), WasmValue::String(err)) => if err@.len() == 0 {
                        res matches Ok(bytes) && bytes@ == encode_utf8(result@)
                    } else {
                        res matches Err(ExecuteError::Execution(e)) && e@ == err@
                    },
                    _ => res matches Err(ExecuteError::NotTwoStrings),
                }
            } else {
                res matches Err(ExecuteError::NotAPair)
            },
            _ => res matches Err(ExecuteError::NotAPair),
        },
{
    match ret {
        WasmVal::Tuple(items) => {
            proof {
                assert(model_seq(items@).len() == items@.len()) by {
                    lemma_model_seq_len(items@);
                }
            }
            if items.len() == 2 {
                proof {
                    lemma_model_seq_index(items@, 0);
                    lemma_model_seq_index(items@, 1);
                }
                match (&items[0], &items[1]) {
                    (WasmVal::String(result), WasmVal::String(err)) => {
                        if err.as_str().is_empty() {
                            Ok(slice_to_vec(result.as_str().as_bytes()))
                        } else {
                            Err(ExecuteError::Execution(err.clone()))
                        }
                    },
                    _ => Err(ExecuteError::NotTwoStrings),
                }
            } else {
                Err(ExecuteError::NotAPair)
            }
        },
        _ => Err(ExecuteError::NotAPair),
    }
}

pub proof fn lemma_model_seq_len(s: Seq<WasmVal>)
    ensures
        model_seq(s).len() == s.len(),
    decreases s.len(),
{
    if s.len() > 0 {
        lemma_model_seq_len(s.subrange(0, s.len() - 1));
    }
}

pub proof fn lemma_model_seq_index(s: Seq<WasmVal>, i: int)
    requires
        0 <= i < s.len(),
    ensures
        model_seq(s)[i] == model(s[i]),
    decreases s.len(),
{
    let t = s.subrange(0, s.len() - 1);
    lemma_model_seq_len(t);
    if i < s.len() - 1 {
        lemma_model_seq_index(t, i);
    }
}

/// A record field is complete when it has a value and that value is complete.
pub open spec fn field_complete(f: RecordField) -> bool
    decreases f,
{
    match f.value {
        Some(b) => complete(*b),
        None => false,
    }
}

/// A parameter is complete when every value in it, at any depth, has its kind set,
/// every character is a Unicode scalar value, and every record field has a value.
pub open spec fn complete(v: Val) -> bool
    decreases v,
{
    match v.value {
        None => false,
        Some(value) => match value {
            Value::CharVal(c) => is_unicode_scalar(c),
            Value::ListVal(list) => forall|i: int| 0 <= i < list.values@.len() ==> complete(#[trigger] list.values@[i]),
            Value::TupleVal(tuple) => forall|i: int| 0 <= i < tuple.values@.len() ==> complete(#[trigger] tuple.values@[i]),
            Value::OptionVal(opt) => match opt.value { Some(b) => complete(*b), None => true },
            Value::ResultVal(res) => match res.value { Some(b) => complete(*b), None => true },
            Value::VariantVal(variant) => match variant.value { Some(b) => complete(*b), None => true },
            Value::RecordVal(record) => forall|i: int| 0 <= i < record.fields@.len() ==>
                field_complete(#[trigger] record.fields@[i]),
            _ => true,
        },
    }
}

/// A parameter converts exactly when it is complete: every value at any depth has
/// its kind set, every character is a Unicode scalar value, and every record field
/// has a value.
pub proof fn law_convert_ok_iff_complete(v: Val)
    ensures
        spec_convert(v) is Ok <==> complete(v),
    decreases v,
{
    match v.value {
        None => {},
        Some(value) => match value {
            Value::ListVal(list) => {
                assert(decreases_to!(v => list.values@));
                lemma_convert_seq_ok_iff(list.values@);
            },
            Value::TupleVal(tuple) => {
                assert(decreases_to!(v => tuple.values@));
                lemma_convert_seq_ok_iff(tuple.values@);
            },
            Value::OptionVal(opt) => {
                if let Some(b) = opt.value {
                    law_convert_ok_iff_complete(*b);
                }
            },
            Value::ResultVal(res) => {
                if let Some(b) = res.value {
                    law_convert_ok_iff_complete(*b);
                }
            },
            Value::VariantVal(variant) => {
                if let Some(b) = variant.value {
                    law_convert_ok_iff_complete(*b);
                }
            },
            Value::RecordVal(record) => {
                assert(decreases_to!(v => record.fields@));
                lemma_convert_fields_ok_iff(record.fields@);
            },
            _ => {},
        },
    }
}

proof fn lemma_convert_seq_ok_iff(s: Seq<Val>)
    ensures
        spec_convert_seq(s) is Ok <==> forall|i: int| 0 <= i < s.len() ==> complete(#[trigger] s[i]),
    decreases s,
{
    if s.len() > 0 {
        let t = s.subrange(0, s.len() - 1);
        lemma_convert_seq_ok_iff(t);
        law_convert_ok_iff_complete(s[s.len() - 1]);
        if forall|i: int| 0 <= i < s.len() ==> complete(#[trigger] s[i]) {
            assert forall|i: int| 0 <= i < t.len() implies complete(#[trigger] t[i]) by {
                assert(t[i] == s[i]);
            }
        }
        if spec_convert_seq(s) is Ok {
            assert forall|i: int| 0 <= i < s.len() implies complete(#[trigger] s[i]) by {
                if i < s.len() - 1 {
                    assert(t[i] == s[i]);
                }
            }
        }
    }
}

proof fn lemma_convert_fields_ok_iff(s: Seq<RecordField>)
    ensures
        spec_convert_fields(s) is Ok <==> forall|i: int| 0 <= i < s.len() ==>
            field_complete(#[trigger] s[i]),
    decreases s,
{
    if s.len() > 0 {
        let t = s.subrange(0, s.len() - 1);
        lemma_convert_fields_ok_iff(t);
        let last = s[s.len() - 1];
        if let Some(b) = last.value {
            law_convert_ok_iff_complete(*b);
        }
        assert(spec_convert_field(last) is Ok <==> field_complete(last));
        if forall|i: int| 0 <= i < s.len() ==> field_complete(#[trigger] s[i]) {
            assert forall|i: int| 0 <= i < t.len() implies field_complete(#[trigger] t[i]) by {
                assert(t[i] == s[i]);
            }
        }
        if spec_convert_fields(s) is Ok {
            assert forall|i: int| 0 <= i < s.len() implies field_complete(#[trigger] s[i]) by {
                if i < s.len() - 1 {
                    assert(t[i] == s[i]);
                }
            }
        }
    }
}

/// The message of each parameter error.
pub open spec fn convert_error_message(e: ConvertError) -> Seq<char> {
    match e {
        ConvertError::MissingValue => "Val has no value set"@,
        ConvertError::InvalidChar(c) => "Invalid Unicode scalar value: "@ + decimal_digits(c as nat),
        ConvertError::MissingFieldValue(name) => "Record field '"@ + name@ + "' has no value"@,
    }
}

impl ConvertError {
    /// The text that reports this error.
    pub fn message(&self) -> (res: String)
        ensures
            res@ == convert_error_message(*self),
    {
        match self {
            ConvertError::MissingValue => String::from_str("Val has no value set"),
            ConvertError::InvalidChar(c) => {
                let mut m = String::from_str("Invalid Unicode scalar value: ");
                let digits = decimal(*c as u64);
                m.append(digits.as_str());
                m
            },
            ConvertError::MissingFieldValue(name) => {
                let mut m = String::from_str("Record field '");
                m.append(name.as_str());
                m.append("' has no value");
                m
            },
        }
    }
}

/// The message of each execution error.
pub open spec fn execute_error_message(e: ExecuteError) -> Seq<char> {
    match e {
        ExecuteError::NoFunction => "Task has no function"@,
        ExecuteError::NoArtifact => "Function has no artifact"@,
        ExecuteError::NoPackage => "Artifact has no package"@,
        ExecuteError::InterfaceNotFound(i) => "Cannot get interface "@ + i@,
        ExecuteError::FunctionNotFound(f, i) => "Cannot get function "@ + f@ + " in interface "@ + i@,
        ExecuteError::Parameter(c) => convert_error_message(c),
        ExecuteError::Execution(d) => "Execution error: "@ + d@,
        ExecuteError::NotTwoStrings => "Return value tuple does not contain two strings"@,
        ExecuteError::NotAPair => "Return value is not a two-element tuple"@,
    }
}

impl ExecuteError {
    /// The text that reports this error.
    pub fn message(&self) -> (res: String)
        ensures
            res@ == execute_error_message(*self),
    {
        match self {
            ExecuteError::NoFunction => String::from_str("Task has no function"),
            ExecuteError::NoArtifact => String::from_str("Function has no artifact"),
            ExecuteError::NoPackage => String::from_str("Artifact has no package"),
            ExecuteError::InterfaceNotFound(i) => {
                let mut m = String::from_str("Cannot get interface ");
                m.append(i.as_str());
                m
            },
            ExecuteError::FunctionNotFound(f, i) => {
                let mut m = String::from_str("Cannot get function ");
                m.append(f.as_str());
                m.append(" in interface ");
                m.append(i.as_str());
                m
            },
            ExecuteError::Parameter(c) => c.message(),
            ExecuteError::Execution(d) => {
                let mut m = String::from_str("Execution error: ");
                m.append(d.as_str());
                m
            },
            ExecuteError::NotTwoStrings => String::from_str("Return value tuple does not contain two strings"),
            ExecuteError::NotAPair => String::from_str("Return value is not a two-element tuple"),
        }
    }
}

/// The error for an export that the component does not have: the interface where the
/// component exports no interface of that name, and otherwise the function inside it.
pub fn missing_export(path: &ExportPath, interface_found: bool) -> (res: ExecuteError)
    ensures
        !interface_found ==> (res matches ExecuteError::InterfaceNotFound(i) && i@ == path.interface@),
        interface_found ==> (res matches ExecuteError::FunctionNotFound(f, i)
            && f@ == path.function@ && i@ == path.interface@),
{
    if interface_found {
        ExecuteError::FunctionNotFound(path.function.clone(), path.interface.clone())
    } else {
        ExecuteError::InterfaceNotFound(path.interface.clone())
    }
}

/// The stream of the guest that a line of output came from.
#[derive(Debug, Clone, Copy, PartialEq, Eq, Structural)]
pub enum GuestStream {
    Stdout,
    Stderr,
}

/// How a line that the guest wrote is reported: on the runner's own log, and as a row of
/// the task's log.
#[derive(Debug)]
pub struct GuestLine {
    /// Severity on the runner's own log.
    pub severity: LogSeverity,
    /// Text on the runner's own log.
    pub text: String,
    /// Severity of the task log row.
    pub level: LogLevel,
    /// Issuer of the task log row.
    pub issuer: LogIssuer,
    /// Payload of the task log row: the line's UTF-8 bytes.
    pub payload: Vec<u8>,
}

/// Reports a line of guest output: the runner logs `Artifact: <line>`, at info severity
/// for standard output and at error severity for standard error; the task log gets the
/// line's bytes from the artifact, at severity `Error` whichever stream it came from.
pub fn guest_line(stream: GuestStream, line: &str) -> (res: GuestLine)
    ensures
        res.severity == (if stream == GuestStream::Stdout { LogSeverity::Info } else { LogSeverity::Error }),
        res.text@ == "Artifact: "@ + line@,
        res.level == LogLevel::Error,
        res.issuer == LogIssuer::Artifact,
        res.payload@ == encode_utf8(line@),
{
    let mut text = String::from_str("Artifact: ");
    text.append(line);
    let severity = match stream {
        GuestStream::Stdout => LogSeverity::Info,
        GuestStream::Stderr => LogSeverity::Error,
    };
    GuestLine { severity, text, level: LogLevel::Error, issuer: LogIssuer::Artifact, payload: line.as_bytes_vec() }
}

/// How the component engine is set up.
#[derive(Debug)]
pub struct EngineSettings {
    /// Largest linear memory an instance may have, in bytes (pooling allocation).
    pub max_memory_size: u64,
    /// Bytes of address space reserved for each linear memory.
    pub memory_reservation: u64,
    /// Whether memories are initialised copy-on-write.
    pub memory_init_cow: bool,
    /// Whether 64-bit memories are allowed.
    pub wasm_memory64: bool,
}

/// The engine settings: instances come from a pool with memories of at most 4 GiB (the
/// full 32-bit space), which is also the reservation per memory; memories are
/// initialised copy-on-write and 64-bit memories are allowed.
pub fn engine_settings() -> (res: EngineSettings)
    ensures
        res.max_memory_size == 0x1_0000_0000,
        res.memory_reservation == 0x1_0000_0000,
        res.memory_init_cow,
        res.wasm_memory64,
{
    let max_memory: u64 = 1u64 << 32u64;
    assert(max_memory == 0x1_0000_0000) by (bit_vector)
        requires max_memory == 1u64 << 32u64;
    EngineSettings {
        max_memory_size: max_memory,
        memory_reservation: max_memory,
        memory_init_cow: true,
        wasm_memory64: true,
    }
}


/// The parameter `Val` holding `value`.
pub open spec fn param(value: Value) -> Val {
    Val { value: Some(value) }
}

/// Parameters of the full-width kinds (booleans, 32- and 64-bit integers, floating-point
/// bit patterns, strings, enum cases and flags) arrive unchanged; the narrow integers
/// keep every value that fits their width, and any other value is taken modulo the width.
pub proof fn law_scalars_carried(b: bool, s: i32, u: u32, s64: i64, u64v: u64, text: String, flags: Vec<String>)
    ensures
        spec_convert(param(Value::BoolVal(b))) == Ok::<WasmValue, ConvertError>(WasmValue::Bool(b)),
        spec_convert(param(Value::S32Val(s))) == Ok::<WasmValue, ConvertError>(WasmValue::S32(s)),
        spec_convert(param(Value::U32Val(u))) == Ok::<WasmValue, ConvertError>(WasmValue::U32(u)),
        spec_convert(param(Value::S64Val(s64))) == Ok::<WasmValue, ConvertError>(WasmValue::S64(s64)),
        spec_convert(param(Value::U64Val(u64v))) == Ok::<WasmValue, ConvertError>(WasmValue::U64(u64v)),
        spec_convert(param(Value::F32Val(u))) == Ok::<WasmValue, ConvertError>(WasmValue::Float32(u)),
        spec_convert(param(Value::F64Val(u64v))) == Ok::<WasmValue, ConvertError>(WasmValue::Float64(u64v)),
        spec_convert(param(Value::StringVal(text))) == Ok::<WasmValue, ConvertError>(WasmValue::String(text)),
        spec_convert(param(Value::EnumVal(text))) == Ok::<WasmValue, ConvertError>(WasmValue::Enum(text)),
        spec_convert(param(Value::FlagsVal(FlagsVal { flags }))) == Ok::<WasmValue, ConvertError>(
            WasmValue::Flags(flags@),
        ),
        spec_convert(param(Value::S8Val(s))) matches Ok(WasmValue::S8(y))
            && (y - s) % 256 == 0 && (-128 <= s < 128 ==> y == s),
        spec_convert(param(Value::U8Val(u))) matches Ok(WasmValue::U8(y))
            && (y - u) % 256 == 0 && (u < 256 ==> y == u),
        spec_convert(param(Value::S16Val(s))) matches Ok(WasmValue::S16(y))
            && (y - s) % 65536 == 0 && (-32768 <= s < 32768 ==> y == s),
        spec_convert(param(Value::U16Val(u))) matches Ok(WasmValue::U16(y))
            && (y - u) % 65536 == 0 && (u < 65536 ==> y == u),
{
    let a = s as i8;
    let c = u as u8;
    let d = s as i16;
    let e = u as u16;
    assert(((a as int) - (s as int)) % 256 == 0 && (-128 <= s < 128 ==> a == s)) by (bit_vector)
        requires a == s as i8;
    assert(((c as int) - (u as int)) % 256 == 0 && (u < 256 ==> c == u)) by (bit_vector)
        requires c == u as u8;
    assert(((d as int) - (s as int)) % 65536 == 0 && (-32768 <= s < 32768 ==> d == s)) by (bit_vector)
        requires d == s as i16;
    assert(((e as int) - (u as int)) % 65536 == 0 && (u < 65536 ==> e == u)) by (bit_vector)
        requires e == u as u16;
}

/// The payload of an option, result or variant parameter is converted and carried in
/// the same place: an option keeps `None` or the converted value, a result keeps its case
/// (`Ok` exactly when `is_ok`) with the converted payload or none, and a variant keeps its
/// case name; a payload that fails makes the whole parameter fail with its error.
pub proof fn law_payload_carried(is_ok: bool, name: String, payload: Option<Box<Val>>)
    ensures
        payload is None ==> {
            &&& spec_convert(param(Value::OptionVal(OptionVal { value: payload })))
                == Ok::<WasmValue, ConvertError>(WasmValue::Option(None))
            &&& spec_convert(param(Value::ResultVal(ResultVal { is_ok, value: payload })))
                == Ok::<WasmValue, ConvertError>(WasmValue::Result(if is_ok { Ok(None) } else { Err(None) }))
            &&& spec_convert(param(Value::VariantVal(VariantVal { name, value: payload })))
                == Ok::<WasmValue, ConvertError>(WasmValue::Variant(name, None))
        },
        payload matches Some(b) ==> match spec_convert(*b) {
            Ok(x) => {
                &&& spec_convert(param(Value::OptionVal(OptionVal { value: payload })))
                    == Ok::<WasmValue, ConvertError>(WasmValue::Option(Some(Box::new(x))))
                &&& spec_convert(param(Value::ResultVal(ResultVal { is_ok, value: payload })))
                    == Ok::<WasmValue, ConvertError>(WasmValue::Result(
                        if is_ok { Ok(Some(Box::new(x))) } else { Err(Some(Box::new(x))) },
                    ))
                &&& spec_convert(param(Value::VariantVal(VariantVal { name, value: payload })))
                    == Ok::<WasmValue, ConvertError>(WasmValue::Variant(name, Some(Box::new(x))))
            },
            Err(e) => {
                &&& spec_convert(param(Value::OptionVal(OptionVal { value: payload })))
                    == Err::<WasmValue, ConvertError>(e)
                &&& spec_convert(param(Value::ResultVal(ResultVal { is_ok, value: payload })))
                    == Err::<WasmValue, ConvertError>(e)
                &&& spec_convert(param(Value::VariantVal(VariantVal { name, value: payload })))
                    == Err::<WasmValue, ConvertError>(e)
            },
        },
{
}

/// Converting a sequence of values succeeds exactly when every element converts; then
/// the result has one element per input element, in the same order, each the conversion
/// of the element at its position. Otherwise the error is that of the first element
/// that fails.
proof fn lemma_convert_seq_elementwise(s: Seq<Val>)
    ensures
        spec_convert_seq(s) is Ok <==> forall|i: int| 0 <= i < s.len() ==> (#[trigger] spec_convert(s[i])) is Ok,
        spec_convert_seq(s) matches Ok(items) ==> items.len() == s.len() && forall|i: int|
            0 <= i < s.len() ==> #[trigger] spec_convert(s[i]) == Ok::<WasmValue, ConvertError>(items[i]),
        spec_convert_seq(s) matches Err(e) ==> exists|k: int| 0 <= k < s.len()
            && spec_convert(s[k]) == Err::<WasmValue, ConvertError>(e)
            && forall|j: int| 0 <= j < k ==> (#[trigger] spec_convert(s[j])) is Ok,
    decreases s.len(),
{
    if s.len() > 0 {
        let t = s.subrange(0, s.len() - 1);
        lemma_convert_seq_elementwise(t);
        assert forall|i: int| 0 <= i < t.len() implies t[i] == s[i] by {}
        match spec_convert_seq(t) {
            Ok(prefix) => {
                match spec_convert(s[s.len() - 1]) {
                    Ok(x) => {
                        assert forall|i: int| 0 <= i < s.len() implies
                            #[trigger] spec_convert(s[i]) == Ok::<WasmValue, ConvertError>(prefix.push(x)[i]) by {
                            if i < s.len() - 1 {
                                assert(spec_convert(t[i]) == Ok::<WasmValue, ConvertError>(prefix[i]));
                            }
                        }
                    },
                    Err(e) => {
                        assert(spec_convert(s[s.len() - 1]) == Err::<WasmValue, ConvertError>(e));
                        assert forall|j: int| 0 <= j < s.len() - 1 implies (#[trigger] spec_convert(s[j])) is Ok by {
                            assert(spec_convert(t[j]) is Ok);
                        }
                    },
                }
            },
            Err(e) => {
                let k = choose|k: int| 0 <= k < t.len()
                    && spec_convert(t[k]) == Err::<WasmValue, ConvertError>(e)
                    && forall|j: int| 0 <= j < k ==> (#[trigger] spec_convert(t[j])) is Ok;
                assert(spec_convert(s[k]) == Err::<WasmValue, ConvertError>(e));
                assert forall|j: int| 0 <= j < k implies (#[trigger] spec_convert(s[j])) is Ok by {
                    assert(spec_convert(t[j]) is Ok);
                }
                assert(!(spec_convert(s[k]) is Ok));
            },
        }
    }
}

/// A tuple or list parameter converts element by element, in order: it converts exactly
/// when every element does, and then the `i`-th element of the result is the conversion
/// of the `i`-th element of the parameter; otherwise its error is that of the first
/// element that fails.
pub proof fn law_sequence_converts_in_order(values: Vec<Val>)
    ensures
        spec_convert(param(Value::TupleVal(TupleVal { values }))) is Ok
            <==> forall|i: int| 0 <= i < values@.len() ==> (#[trigger] spec_convert(values@[i])) is Ok,
        spec_convert(param(Value::TupleVal(TupleVal { values }))) is Ok
            ==> (spec_convert(param(Value::TupleVal(TupleVal { values }))) matches Ok(WasmValue::Tuple(items))
            && items.len() == values@.len()
            && forall|i: int| 0 <= i < values@.len()
                ==> #[trigger] spec_convert(values@[i]) == Ok::<WasmValue, ConvertError>(items[i])),
        spec_convert(param(Value::ListVal(ListVal { values }))) is Ok
            <==> forall|i: int| 0 <= i < values@.len() ==> (#[trigger] spec_convert(values@[i])) is Ok,
        spec_convert(param(Value::ListVal(ListVal { values }))) is Ok
            ==> (spec_convert(param(Value::ListVal(ListVal { values }))) matches Ok(WasmValue::List(items))
            && items.len() == values@.len()
            && forall|i: int| 0 <= i < values@.len()
                ==> #[trigger] spec_convert(values@[i]) == Ok::<WasmValue, ConvertError>(items[i])),
        spec_convert(param(Value::TupleVal(TupleVal { values }))) matches Err(e) ==> exists|k: int|
            0 <= k < values@.len() && spec_convert(values@[k]) == Err::<WasmValue, ConvertError>(e)
            && forall|j: int| 0 <= j < k ==> (#[trigger] spec_convert(values@[j])) is Ok,
        spec_convert(param(Value::ListVal(ListVal { values }))) matches Err(e) ==> exists|k: int|
            0 <= k < values@.len() && spec_convert(values@[k]) == Err::<WasmValue, ConvertError>(e)
            && forall|j: int| 0 <= j < k ==> (#[trigger] spec_convert(values@[j])) is Ok,
{
    lemma_convert_seq_elementwise(values@);
}


/// A parameter without a kind fails; a character parameter converts to the character
/// with its code point exactly when that code point is a Unicode scalar value, and
/// otherwise fails naming the number.
pub proof fn law_missing_and_char(c: u32)
    ensures
        spec_convert(Val { value: None }) == Err::<WasmValue, ConvertError>(ConvertError::MissingValue),
        is_unicode_scalar(c) ==> (spec_convert(param(Value::CharVal(c))) matches Ok(WasmValue::Char(ch))
            && ch as u32 == c),
        !is_unicode_scalar(c) ==> spec_convert(param(Value::CharVal(c)))
            == Err::<WasmValue, ConvertError>(ConvertError::InvalidChar(c)),
{
}

/// Whether a record field has a value that converts.
pub open spec fn field_converts(f: RecordField) -> bool {
    match f.value {
        Some(b) => spec_convert(*b) is Ok,
        None => false,
    }
}

/// Whether a converted field keeps the field's name and holds the conversion of its value.
pub open spec fn field_becomes(f: RecordField, item: (String, WasmValue)) -> bool {
    item.0 == f.name && match f.value {
        Some(b) => spec_convert(*b) == Ok::<WasmValue, ConvertError>(item.1),
        None => false,
    }
}

proof fn lemma_convert_fields_elementwise(s: Seq<RecordField>)
    ensures
        spec_convert_fields(s) matches Ok(items) ==> items.len() == s.len() && forall|i: int|
            0 <= i < s.len() ==> field_becomes(#[trigger] s[i], items[i]),
        (forall|i: int| 0 <= i < s.len() ==> field_converts(#[trigger] s[i])) ==> spec_convert_fields(s) is Ok,
    decreases s.len(),
{
    if s.len() > 0 {
        let t = s.subrange(0, s.len() - 1);
        lemma_convert_fields_elementwise(t);
        if forall|i: int| 0 <= i < s.len() ==> field_converts(#[trigger] s[i]) {
            assert forall|i: int| 0 <= i < t.len() implies field_converts(#[trigger] t[i]) by {
                assert(t[i] == s[i]);
            }
            assert(field_converts(s[s.len() - 1]));
            assert(spec_convert_field(s[s.len() - 1]) is Ok);
        }
        if let Ok(items) = spec_convert_fields(s) {
            if let Ok(prefix) = spec_convert_fields(t) {
                assert forall|i: int| 0 <= i < s.len() implies field_becomes(#[trigger] s[i], items[i]) by {
                    if i < s.len() - 1 {
                        assert(t[i] == s[i]);
                        assert(field_becomes(t[i], prefix[i]));
                    } else {
                        let last = s[s.len() - 1];
                        if let Ok(x) = spec_convert_field(last) {
                            assert(items[i] == x);
                        }
                    }
                }
            }
        }
    }
}

/// A record parameter converts field by field, in order: it converts when every field has
/// a value that converts, and then the `i`-th field of the result has the name of the
/// `i`-th field of the parameter and the conversion of its value.
pub proof fn law_record_converts_in_order(fields: Vec<RecordField>)
    ensures
        (forall|i: int| 0 <= i < fields@.len() ==> field_converts(#[trigger] fields@[i]))
            ==> spec_convert(param(Value::RecordVal(RecordVal { fields }))) is Ok,
        spec_convert(param(Value::RecordVal(RecordVal { fields }))) is Ok
            ==> (spec_convert(param(Value::RecordVal(RecordVal { fields }))) matches Ok(WasmValue::Record(items))
            && items.len() == fields@.len()
            && forall|i: int| 0 <= i < fields@.len() ==> field_becomes(#[trigger] fields@[i], items[i])),
{
    lemma_convert_fields_elementwise(fields@);
}

} // verus!
