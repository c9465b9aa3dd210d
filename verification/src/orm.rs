//! Task log records: the severity and issuer labels stored with every log line,
//! and the validation of a task log entry before it is written to the database.

use vstd::prelude::*;
use vstd::string::*;

verus! {

/// Severity of a task log line.
#[derive(Debug, Clone, Copy, PartialEq, Eq, Structural)]
pub enum LogLevel {
    Debug,
    Info,
    Error,
    Fatal,
}

/// Who produced a task log line: the runner itself or the executed artifact.
#[derive(Debug, Clone, Copy, PartialEq, Eq, Structural)]
pub enum LogIssuer {
    System,
    Artifact,
}

/// The label stored in the `status` column for each severity.
pub open spec fn level_label(level: LogLevel) -> Seq<char> {
    match level {
        LogLevel::Debug => "DEBUG"@,
        LogLevel::Info => "INFO"@,
        LogLevel::Error => "ERROR"@,
        LogLevel::Fatal => "FATAL"@,
    }
}

/// The label stored in the `issuer` column for each issuer.
pub open spec fn issuer_label(issuer: LogIssuer) -> Seq<char> {
    match issuer {
        LogIssuer::System => "SYSTEM"@,
        LogIssuer::Artifact => "ARTIFACT"@,
    }
}

impl LogLevel {
    /// The database label of this severity.
    pub fn as_str(&self) -> (res: &'static str)
        ensures
            res@ == level_label(*self),
    {
        match self {
            LogLevel::Debug => "DEBUG",
            LogLevel::Info => "INFO",
            LogLevel::Error => "ERROR",
            LogLevel::Fatal => "FATAL",
        }
    }
}

impl LogIssuer {
    /// The database label of this issuer.
    pub fn as_str(&self) -> (res: &'static str)
        ensures
            res@ == issuer_label(*self),
    {
        match self {
            LogIssuer::System => "SYSTEM",
            LogIssuer::Artifact => "ARTIFACT",
        }
    }
}

#[verifier::external_type_specification]
#[verifier::external_body]
pub struct ExUuidError(uuid::Error);

/// The 128-bit value (big-endian reading of the 16 bytes) that `uuid::Uuid::parse_str`
/// yields for a string, or `None` where it rejects the string.
pub uninterp spec fn spec_parse_uuid(s: Seq<char>) -> Option<u128>;

/// Calls `uuid::Uuid::parse_str` and hands back the parsed identifier as `Uuid::as_u128`.
/// The contract names the outcome `spec_parse_uuid`, and states the one shape rule that
/// the parser's source applies first: only inputs of 32, 36, 38 or 45 bytes can parse.
/// Which strings of those lengths parse is left unsaid.
#[verifier::external_body]
fn parse_uuid(s: &str) -> (res: Result<u128, uuid::Error>)
    ensures
        res is Ok <==> spec_parse_uuid(s@) is Some,
        res matches Ok(v) ==> spec_parse_uuid(s@) == Some(v),
        res is Ok ==> (s.spec_bytes().len() == 32 || s.spec_bytes().len() == 36
            || s.spec_bytes().len() == 38 || s.spec_bytes().len() == 45),
{
    match uuid::Uuid::parse_str(s) {
        Ok(u) => Ok(u.as_u128()),
        Err(e) => Err(e),
    }
}

/// A validated task log line, ready to be inserted into `task_logs`
/// (the insertion time is taken when the row is written).
#[derive(Debug)]
pub struct LogRecord {
    /// The task identifier as the 128-bit value of its UUID.
    pub task_id: u128,
    pub status: &'static str,
    pub issuer: &'static str,
    pub payload: Vec<u8>,
}

/// Why a task log line could not be recorded.
#[derive(Debug)]
pub enum LogError {
    /// The task identifier is not a UUID.
    InvalidTaskId(uuid::Error),
}

/// Builds the row for a task log line: the task identifier must parse as a UUID;
/// the severity and issuer become their labels and the payload is kept as is.
pub fn log_record(task_id: &str, level: LogLevel, issuer: LogIssuer, data: Vec<u8>) -> (res:
    Result<LogRecord, LogError>)
    ensures
        res is Ok <==> spec_parse_uuid(task_id@) is Some,
        res matches Ok(r) ==> {
            &&& Some(r.task_id) == spec_parse_uuid(task_id@)
            &&& r.status@ == level_label(level)
            &&& r.issuer@ == issuer_label(issuer)
            &&& r.payload@ == data@
        },
        !(task_id.spec_bytes().len() == 32 || task_id.spec_bytes().len() == 36
            || task_id.spec_bytes().len() == 38 || task_id.spec_bytes().len() == 45)
            ==> res is Err,
{
    match parse_uuid(task_id) {
        Ok(id) => Ok(LogRecord { task_id: id, status: level.as_str(), issuer: issuer.as_str(), payload: data }),
        Err(e) => Err(LogError::InvalidTaskId(e)),
    }
}

/// Different severities are stored under different labels, and so are different issuers.
pub proof fn law_labels_distinct(a: LogLevel, b: LogLevel, x: LogIssuer, y: LogIssuer)
    ensures
        level_label(a) == level_label(b) ==> a == b,
        issuer_label(x) == issuer_label(y) ==> x == y,
{
    reveal_strlit("DEBUG");
    reveal_strlit("INFO");
    reveal_strlit("ERROR");
    reveal_strlit("FATAL");
    reveal_strlit("SYSTEM");
    reveal_strlit("ARTIFACT");
    if level_label(a) == level_label(b) && a != b {
        assert(level_label(a)[0] != level_label(b)[0] || level_label(a).len() != level_label(b).len());
    }
    if issuer_label(x) == issuer_label(y) && x != y {
        assert(issuer_label(x).len() != issuer_label(y).len());
    }
}

} // verus!
