//! Task handling: the benchmark measurement hooks a task may carry, and the order
//! of the steps that running one task takes.

use vstd::prelude::*;
use vstd::string::*;
use crate::orm::{LogIssuer, LogLevel};
use crate::task::{EnvironmentVariable, Task};

verus! {

/// Where a task's progress is reported for benchmarking.
#[derive(Debug)]
pub struct Measurement {
    pub id: String,
    pub server: String,
}

/// The value of the last environment variable named `key`, if any.
pub open spec fn last_env_value(envs: Seq<EnvironmentVariable>, key: Seq<char>) -> Option<String>
    decreases envs.len(),
{
    if envs.len() == 0 {
        None
    } else if envs.last().key@ == key {
        Some(envs.last().value)
    } else {
        last_env_value(envs.drop_last(), key)
    }
}

/// The measurement a task asks for: present when both `MEASUREMENT_ID` and
/// `MEASUREMENT_SERVER` are set, each taken from its last occurrence.
pub open spec fn spec_measurement(envs: Seq<EnvironmentVariable>) -> Option<(String, String)> {
    match (last_env_value(envs, "MEASUREMENT_ID"@), last_env_value(envs, "MEASUREMENT_SERVER"@)) {
        (Some(id), Some(server)) => Some((id, server)),
        _ => None,
    }
}

/// Reads the measurement settings from the task's environment variables.
pub fn extract_measurement(task: &Task) -> (res: Option<Measurement>)
    ensures
        match spec_measurement(task.environment_variables@) {
            Some((id, server)) => res matches Some(m) && m.id == id && m.server == server,
            None => res is None,
        },
{
    proof {
        reveal_strlit("MEASUREMENT_ID");
        reveal_strlit("MEASUREMENT_SERVER");
        assert("MEASUREMENT_ID"@.len() != "MEASUREMENT_SERVER"@.len());
    }
    let id_key = String::from_str("MEASUREMENT_ID");
    let server_key = String::from_str("MEASUREMENT_SERVER");
    let envs = &task.environment_variables;
    let mut id: Option<String> = None;
    let mut server: Option<String> = None;
    let mut i: usize = 0;
    while i < envs.len()
        invariant
            i <= envs@.len(),
            id_key@ == "MEASUREMENT_ID"@,
            server_key@ == "MEASUREMENT_SERVER"@,
            "MEASUREMENT_ID"@ != "MEASUREMENT_SERVER"@,
            id == last_env_value(envs@.take(i as int), "MEASUREMENT_ID"@),
            server == last_env_value(envs@.take(i as int), "MEASUREMENT_SERVER"@),
        decreases envs@.len() - i,
    {
        let env = &envs[i];
        assert(envs@.take(i + 1).drop_last() =~= envs@.take(i as int));
        if env.key == id_key {
            id = Some(env.value.clone());
        } else if env.key == server_key {
            server = Some(env.value.clone());
        }
        i = i + 1;
    }
    assert(envs@.take(envs@.len() as int) =~= envs@);
    match (id, server) {
        (Some(id), Some(server)) => Some(Measurement { id, server }),
        _ => None,
    }
}

/// Where some variable at position `i` is named `key` and none after it is, the value
/// for `key` is that variable's value; where no variable is named `key`, there is none.
proof fn lemma_last_env_value(envs: Seq<EnvironmentVariable>, key: Seq<char>)
    ensures
        forall|i: int| 0 <= i < envs.len() && (#[trigger] envs[i]).key@ == key
            && (forall|j: int| i < j < envs.len() ==> (#[trigger] envs[j]).key@ != key)
            ==> last_env_value(envs, key) == Some(envs[i].value),
        (forall|j: int| 0 <= j < envs.len() ==> (#[trigger] envs[j]).key@ != key)
            ==> last_env_value(envs, key) is None,
    decreases envs.len(),
{
    if envs.len() > 0 {
        let t = envs.drop_last();
        lemma_last_env_value(t, key);
        assert forall|j: int| 0 <= j < t.len() implies t[j] == envs[j] by {}
        assert forall|i: int| 0 <= i < envs.len() && (#[trigger] envs[i]).key@ == key
            && (forall|j: int| i < j < envs.len() ==> (#[trigger] envs[j]).key@ != key)
            implies last_env_value(envs, key) == Some(envs[i].value) by {
            if i < envs.len() - 1 {
                assert(envs[envs.len() - 1].key@ != key);
                assert(t[i] == envs[i]);
                assert forall|j: int| i < j < t.len() implies (#[trigger] t[j]).key@ != key by {
                    assert(t[j] == envs[j]);
                }
            }
        }
        if forall|j: int| 0 <= j < envs.len() ==> (#[trigger] envs[j]).key@ != key {
            assert(envs[envs.len() - 1].key@ != key);
            assert forall|j: int| 0 <= j < t.len() implies (#[trigger] t[j]).key@ != key by {
                assert(t[j] == envs[j]);
            }
        }
    }
}

/// Every environment variable counts, wherever it stands: a task asks for a measurement
/// exactly when some variable is named `MEASUREMENT_ID` and some is named
/// `MEASUREMENT_SERVER`, and then the id and the server are the values of the last
/// variable of each name.
pub proof fn law_measurement_from_last_settings(envs: Seq<EnvironmentVariable>, i: int, k: int)
    ensures
        (0 <= i < envs.len() && envs[i].key@ == "MEASUREMENT_ID"@
            && (forall|j: int| i < j < envs.len() ==> (#[trigger] envs[j]).key@ != "MEASUREMENT_ID"@)
            && 0 <= k < envs.len() && envs[k].key@ == "MEASUREMENT_SERVER"@
            && (forall|j: int| k < j < envs.len() ==> (#[trigger] envs[j]).key@ != "MEASUREMENT_SERVER"@))
            ==> spec_measurement(envs) == Some((envs[i].value, envs[k].value)),
        (forall|j: int| 0 <= j < envs.len() ==> (#[trigger] envs[j]).key@ != "MEASUREMENT_ID"@)
            ==> spec_measurement(envs) is None,
        (forall|j: int| 0 <= j < envs.len() ==> (#[trigger] envs[j]).key@ != "MEASUREMENT_SERVER"@)
            ==> spec_measurement(envs) is None,
{
    lemma_last_env_value(envs, "MEASUREMENT_ID"@);
    lemma_last_env_value(envs, "MEASUREMENT_SERVER"@);
}

/// A string with every trailing `/` removed.
pub open spec fn trim_trailing_slashes(s: Seq<char>) -> Seq<char>
    decreases s.len(),
{
    if s.len() > 0 && s.last() == '/' {
        trim_trailing_slashes(s.drop_last())
    } else {
        s
    }
}

/// The address a progress report goes to: `{server}/benchmarks/{endpoint}?request={id}`,
/// with trailing slashes of the server address dropped.
pub open spec fn spec_measurement_url(server: Seq<char>, endpoint: Seq<char>, id: Seq<char>) -> Seq<char> {
    trim_trailing_slashes(server) + "/benchmarks/"@ + endpoint + "?request="@ + id
}

/// Builds the address of a progress report for `endpoint`.
pub fn measurement_url(m: &Measurement, endpoint: &str) -> (res: String)
    ensures
        res@ == spec_measurement_url(m.server@, endpoint@, m.id@),
{
    let server = m.server.as_str();
    let mut k = server.unicode_len();
    assert(server@.take(k as int) =~= server@);
    while k > 0 && server.get_char(k - 1) == '/'
        invariant
            k <= server@.len(),
            trim_trailing_slashes(server@) == trim_trailing_slashes(server@.take(k as int)),
        decreases k,
    {
        assert(server@.take(k as int).drop_last() =~= server@.take(k - 1));
        k = k - 1;
    }
    assert(trim_trailing_slashes(server@.take(k as int)) == server@.take(k as int)) by {
        if k > 0 {
            assert(server@.take(k as int).last() == server@[k - 1]);
        }
    }
    let mut url = String::from_str(server.substring_char(0, k));
    url.append("/benchmarks/");
    url.append(endpoint);
    url.append("?request=");
    url.append(m.id.as_str());
    url
}

/// Why handling a task failed.
#[derive(Debug)]
pub enum TaskError {
    /// Recording a task log line failed with this error text.
    Log(String),
    /// Running the task failed with this error text.
    Execution(String),
}

/// The message of each error.
pub open spec fn task_error_message(e: TaskError) -> Seq<char> {
    match e {
        TaskError::Log(d) => d@,
        TaskError::Execution(d) => "Execution failed: "@ + d@,
    }
}

impl TaskError {
    /// The text that reports this error.
    pub fn message(&self) -> (res: String)
        ensures
            res@ == task_error_message(*self),
    {
        match self {
            TaskError::Log(d) => d.clone(),
            TaskError::Execution(d) => {
                let mut m = String::from_str("Execution failed: ");
                m.append(d.as_str());
                m
            },
        }
    }
}

/// Where the handling of a task stands.
#[derive(Debug, Clone, Copy, PartialEq, Eq, Structural)]
pub enum TaskStage {
    RecordingAssigned,
    ReportingAssigned,
    ReportingPulled,
    RecordingRunning,
    Executing,
    WritingResult,
    ReportingCleanup,
    Finished,
}

/// The position of a stage in the order the handling passes through them.
pub open spec fn task_stage_rank(stage: TaskStage) -> int {
    match stage {
        TaskStage::RecordingAssigned => 0,
        TaskStage::ReportingAssigned => 1,
        TaskStage::ReportingPulled => 2,
        TaskStage::RecordingRunning => 3,
        TaskStage::Executing => 4,
        TaskStage::WritingResult => 5,
        TaskStage::ReportingCleanup => 6,
        TaskStage::Finished => 7,
    }
}

/// What the caller is to do next.
#[derive(Debug)]
pub enum TaskAction {
    /// Record a task log line.
    RecordLog { level: LogLevel, issuer: LogIssuer, message: String },
    /// Send a progress report to this address (its failure is only warned about).
    Report { url: String },
    /// Run the task.
    Execute,
    /// Write the task's result to the queue (its failure is only logged).
    WriteResult(Vec<u8>),
    /// The handling is over, with this outcome.
    Finish(Result<(), TaskError>),
}

/// The outcome of the last action.
#[derive(Debug)]
pub enum TaskEvent {
    Succeeded,
    Failed(String),
    /// The task ran and produced this output.
    Executed(Vec<u8>),
    /// The queue offers no writer for the task's result.
    NoResultWriter,
}

/// Whether an event answers the action pending in a stage.
pub open spec fn task_answers(stage: TaskStage, event: TaskEvent) -> bool {
    match event {
        TaskEvent::Succeeded => stage != TaskStage::Executing && stage != TaskStage::Finished,
        TaskEvent::Failed(_) => stage != TaskStage::Finished,
        TaskEvent::Executed(_) => stage == TaskStage::Executing,
        TaskEvent::NoResultWriter => stage == TaskStage::WritingResult,
    }
}

/// Whether `action` records the system log line `text` at level info.
pub open spec fn records(action: TaskAction, text: Seq<char>) -> bool {
    &&& action matches TaskAction::RecordLog { level, issuer, message }
    &&& level == LogLevel::Info
    &&& issuer == LogIssuer::System
    &&& message@ == text
}

/// Whether `action` reports progress for `endpoint` of measurement `m`.
pub open spec fn reports(action: TaskAction, m: Measurement, endpoint: Seq<char>) -> bool {
    &&& action matches TaskAction::Report { url }
    &&& url@ == spec_measurement_url(m.server@, endpoint, m.id@)
}

/// The handling of one task.
#[derive(Debug)]
pub struct TaskRun {
    pub measurement: Option<Measurement>,
    pub stage: TaskStage,
}

fn record(text: &str) -> (action: TaskAction)
    ensures
        records(action, text@),
{
    TaskAction::RecordLog { level: LogLevel::Info, issuer: LogIssuer::System, message: String::from_str(text) }
}

impl TaskRun {
    /// Begins the handling of a task: the first action records that the task was assigned.
    pub fn start(measurement: Option<Measurement>) -> (res: (TaskRun, TaskAction))
        ensures
            res.0.measurement == measurement,
            res.0.stage == TaskStage::RecordingAssigned,
            records(res.1, "Task assigned"@),
    {
        (TaskRun { measurement, stage: TaskStage::RecordingAssigned }, record("Task assigned"))
    }

    /// Whether `event` answers the pending action.
    pub fn answers(&self, event: &TaskEvent) -> (res: bool)
        ensures
            res == task_answers(self.stage, *event),
    {
        match event {
            TaskEvent::Succeeded => self.stage != TaskStage::Executing && self.stage != TaskStage::Finished,
            TaskEvent::Failed(_) => self.stage != TaskStage::Finished,
            TaskEvent::Executed(_) => self.stage == TaskStage::Executing,
            TaskEvent::NoResultWriter => self.stage == TaskStage::WritingResult,
        }
    }

    /// Takes the outcome of the pending action and decides the next one. A failed log
    /// record or a failed run ends the handling with that error; progress reports
    /// (sent only when the task asks for them) and the result write never fail it;
    /// without a result writer the handling ends at once.
    pub fn step(&mut self, event: TaskEvent) -> (action: TaskAction)
        requires
            task_answers(old(self).stage, event),
        ensures
            final(self).measurement == old(self).measurement,
            task_stage_rank(final(self).stage) > task_stage_rank(old(self).stage),
            match (old(self).stage, event) {
                (TaskStage::RecordingAssigned, TaskEvent::Failed(d)) | (TaskStage::RecordingRunning, TaskEvent::Failed(d)) => {
                    &&& final(self).stage == TaskStage::Finished
                    &&& action == TaskAction::Finish(Err(TaskError::Log(d)))
                },
                (TaskStage::RecordingAssigned, _) => match old(self).measurement {
                    Some(m) => final(self).stage == TaskStage::ReportingAssigned && reports(action, m, "assigned"@),
                    None => final(self).stage == TaskStage::RecordingRunning && records(action, "Task running"@),
                },
                (TaskStage::ReportingAssigned, _) => match old(self).measurement {
                    Some(m) => final(self).stage == TaskStage::ReportingPulled && reports(action, m, "pulled"@),
                    None => final(self).stage == TaskStage::RecordingRunning && records(action, "Task running"@),
                },
                (TaskStage::ReportingPulled, _) => {
                    &&& final(self).stage == TaskStage::RecordingRunning
                    &&& records(action, "Task running"@)
                },
                (TaskStage::RecordingRunning, _) => {
                    &&& final(self).stage == TaskStage::Executing
                    &&& action matches TaskAction::Execute
                },
                (TaskStage::Executing, TaskEvent::Executed(out)) => {
                    &&& final(self).stage == TaskStage::WritingResult
                    &&& action matches TaskAction::WriteResult(bytes)
                    &&& bytes@ == out@
                },
                (TaskStage::Executing, TaskEvent::Failed(d)) => {
                    &&& final(self).stage == TaskStage::Finished
                    &&& action == TaskAction::Finish(Err(TaskError::Execution(d)))
                },
                (TaskStage::WritingResult, TaskEvent::NoResultWriter) => {
                    &&& final(self).stage == TaskStage::Finished
                    &&& action == TaskAction::Finish(Ok(()))
                },
                (TaskStage::WritingResult, _) => match old(self).measurement {
                    Some(m) => final(self).stage == TaskStage::ReportingCleanup && reports(action, m, "cleanup"@),
                    None => final(self).stage == TaskStage::Finished && action == TaskAction::Finish(Ok(())),
                },
                _ => {
                    &&& final(self).stage == TaskStage::Finished
                    &&& action == TaskAction::Finish(Ok(()))
                },
            },
    {
        match self.stage {
            TaskStage::RecordingAssigned => match event {
                TaskEvent::Failed(d) => {
                    self.stage = TaskStage::Finished;
                    TaskAction::Finish(Err(TaskError::Log(d)))
                },
                _ => match &self.measurement {
                    Some(m) => {
                        let url = measurement_url(m, "assigned");
                        self.stage = TaskStage::ReportingAssigned;
                        TaskAction::Report { url }
                    },
                    None => {
                        self.stage = TaskStage::RecordingRunning;
                        record("Task running")
                    },
                },
            },
            TaskStage::ReportingAssigned => match &self.measurement {
                Some(m) => {
                    let url = measurement_url(m, "pulled");
                    self.stage = TaskStage::ReportingPulled;
                    TaskAction::Report { url }
                },
                None => {
                    self.stage = TaskStage::RecordingRunning;
                    record("Task running")
                },
            },
            TaskStage::ReportingPulled => {
                self.stage = TaskStage::RecordingRunning;
                record("Task running")
            },
            TaskStage::RecordingRunning => match event {
                TaskEvent::Failed(d) => {
                    self.stage = TaskStage::Finished;
                    TaskAction::Finish(Err(TaskError::Log(d)))
                },
                _ => {
                    self.stage = TaskStage::Executing;
                    TaskAction::Execute
                },
            },
            TaskStage::Executing => match event {
                TaskEvent::Executed(out) => {
                    self.stage = TaskStage::WritingResult;
                    TaskAction::WriteResult(out)
                },
                TaskEvent::Failed(d) => {
                    self.stage = TaskStage::Finished;
                    TaskAction::Finish(Err(TaskError::Execution(d)))
                },
                _ => {
                    self.stage = TaskStage::Finished;
                    TaskAction::Finish(Ok(()))
                },
            },
            TaskStage::WritingResult => match event {
                TaskEvent::NoResultWriter => {
                    self.stage = TaskStage::Finished;
                    TaskAction::Finish(Ok(()))
                },
                _ => match &self.measurement {
                    Some(m) => {
                        let url = measurement_url(m, "cleanup");
                        self.stage = TaskStage::ReportingCleanup;
                        TaskAction::Report { url }
                    },
                    None => {
                        self.stage = TaskStage::Finished;
                        TaskAction::Finish(Ok(()))
                    },
                },
            },
            _ => {
                self.stage = TaskStage::Finished;
                TaskAction::Finish(Ok(()))
            },
        }
    }
}

/// How the task processor serves the queue.
#[derive(Debug)]
pub struct ProcessorSettings {
    /// The task type the processor handles.
    pub task_type: String,
    /// How many tasks run at once.
    pub concurrency: usize,
    /// The queues served, with their priorities.
    pub queues: Vec<(String, i32)>,
}

/// The processor's settings: tasks of type `job:normal`, one at a time, from the
/// queues `critical`, `default` and `low` with priorities 6, 3 and 1.
pub fn processor_settings() -> (res: ProcessorSettings)
    ensures
        res.task_type@ == "job:normal"@,
        res.concurrency == 1,
        res.queues@.len() == 3,
        res.queues@[0].0@ == "critical"@ && res.queues@[0].1 == 6,
        res.queues@[1].0@ == "default"@ && res.queues@[1].1 == 3,
        res.queues@[2].0@ == "low"@ && res.queues@[2].1 == 1,
{
    let mut queues: Vec<(String, i32)> = Vec::new();
    queues.push((String::from_str("critical"), 6));
    queues.push((String::from_str("default"), 3));
    queues.push((String::from_str("low"), 1));
    ProcessorSettings { task_type: String::from_str("job:normal"), concurrency: 1, queues }
}

/// The log line that records a failed task: at level fatal, from the system, with the
/// failure's text.
pub fn failure_log(message: &str) -> (action: TaskAction)
    ensures
        action matches TaskAction::RecordLog { level, issuer, message: m }
            && level == LogLevel::Fatal && issuer == LogIssuer::System && m@ == message@,
{
    TaskAction::RecordLog { level: LogLevel::Fatal, issuer: LogIssuer::System, message: String::from_str(message) }
}

} // verus!
