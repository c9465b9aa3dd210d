//! The task message that the queue delivers: which function of which artifact to
//! run, with which arguments, environment and typed parameters.

use vstd::prelude::*;

verus! {

/// A package that holds an artifact, named `namespace:name`.
#[derive(Debug)]
pub struct Package {
    pub namespace: String,
    pub name: String,
}

/// A stored artifact.
#[derive(Debug)]
pub struct Artifact {
    pub package: Option<Package>,
}

/// The function a task runs: for a container task `name` is the image, for a
/// component task it is the exported function inside `interface`.
#[derive(Debug)]
pub struct Function {
    pub name: String,
    pub interface: String,
    pub artifact: Option<Artifact>,
}

/// One environment variable handed to the executed function.
#[derive(Debug)]
pub struct EnvironmentVariable {
    pub key: String,
    pub value: String,
}

/// A task as delivered by the queue.
#[derive(Debug)]
pub struct Task {
    pub function: Option<Function>,
    pub environment_variables: Vec<EnvironmentVariable>,
    pub arguments: Vec<String>,
    pub parameters: Vec<Val>,
}

/// A typed parameter value; `value` is unset when the sender left it out.
#[derive(Debug)]
pub struct Val {
    pub value: Option<Value>,
}

/// The elements of a list parameter.
#[derive(Debug)]
pub struct ListVal {
    pub values: Vec<Val>,
}

/// The elements of a tuple parameter.
#[derive(Debug)]
pub struct TupleVal {
    pub values: Vec<Val>,
}

/// An optional parameter: `None` when `value` is unset.
#[derive(Debug)]
pub struct OptionVal {
    pub value: Option<Box<Val>>,
}

/// A result parameter: `is_ok` tells the case, `value` is its optional payload.
#[derive(Debug)]
pub struct ResultVal {
    pub is_ok: bool,
    pub value: Option<Box<Val>>,
}

/// One named field of a record parameter.
#[derive(Debug)]
pub struct RecordField {
    pub name: String,
    pub value: Option<Box<Val>>,
}

/// The fields of a record parameter, in order.
#[derive(Debug)]
pub struct RecordVal {
    pub fields: Vec<RecordField>,
}

/// A variant parameter: the case name and its optional payload.
#[derive(Debug)]
pub struct VariantVal {
    pub name: String,
    pub value: Option<Box<Val>>,
}

/// The set flag names of a flags parameter.
#[derive(Debug)]
pub struct FlagsVal {
    pub flags: Vec<String>,
}

/// The kinds of parameter value. Narrow integers travel widened (`S8Val`, `S16Val`
/// in an `i32`, `U8Val`, `U16Val` in a `u32`); floating-point values travel as their
/// IEEE-754 bit patterns; a character travels as its code point.
#[derive(Debug)]
pub enum Value {
    BoolVal(bool),
    S8Val(i32),
    U8Val(u32),
    S16Val(i32),
    U16Val(u32),
    S32Val(i32),
    U32Val(u32),
    S64Val(i64),
    U64Val(u64),
    F32Val(u32),
    F64Val(u64),
    CharVal(u32),
    StringVal(String),
    ListVal(ListVal),
    TupleVal(TupleVal),
    OptionVal(OptionVal),
    ResultVal(ResultVal),
    RecordVal(RecordVal),
    VariantVal(VariantVal),
    EnumVal(String),
    FlagsVal(FlagsVal),
}

} // verus!
