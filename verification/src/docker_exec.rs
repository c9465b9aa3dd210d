//! Running a container task: the decisions of the run, from connecting to the
//! container engine to removing the finished container. The engine itself is
//! driven by the caller, which performs each action and reports its outcome.

use vstd::prelude::*;
use vstd::string::*;
use crate::task::{EnvironmentVariable, Task};

verus! {

/// Why a container task failed; each engine failure carries the engine's error text.
#[derive(Debug)]
pub enum DockerError {
    NoFunction,
    Connect(String),
    Pull(String),
    Create(String),
    Start(String),
    Wait(String),
    Logs(String),
    Remove(String),
}

/// The message of each error.
pub open spec fn docker_error_message(e: DockerError) -> Seq<char> {
    match e {
        DockerError::NoFunction => "Task has no function identifier"@,
        DockerError::Connect(d) => "Failed to connect to Docker daemon: "@ + d@,
        DockerError::Pull(d) => "Failed to pull image: "@ + d@,
        DockerError::Create(d) => "Failed to create container: "@ + d@,
        DockerError::Start(d) => "Failed to start container: "@ + d@,
        DockerError::Wait(d) => "Container wait error: "@ + d@,
        DockerError::Logs(d) => "Failed to read container logs: "@ + d@,
        DockerError::Remove(d) => "Failed to remove container: "@ + d@,
    }
}

impl DockerError {
    /// The text that reports this error.
    pub fn message(&self) -> (res: String)
        ensures
            res@ == docker_error_message(*self),
    {
        let (prefix, detail) = match self {
            DockerError::NoFunction => return String::from_str("Task has no function identifier"),
            DockerError::Connect(d) => ("Failed to connect to Docker daemon: ", d),
            DockerError::Pull(d) => ("Failed to pull image: ", d),
            DockerError::Create(d) => ("Failed to create container: ", d),
            DockerError::Start(d) => ("Failed to start container: ", d),
            DockerError::Wait(d) => ("Container wait error: ", d),
            DockerError::Logs(d) => ("Failed to read container logs: ", d),
            DockerError::Remove(d) => ("Failed to remove container: ", d),
        };
        let mut m = String::from_str(prefix);
        m.append(detail.as_str());
        m
    }
}

/// The `KEY=value` entry a container receives for an environment variable.
pub open spec fn env_entry(e: EnvironmentVariable) -> Seq<char> {
    e.key@ + "="@ + e.value@
}

/// A container sees each variable exactly as the task gives it: the entry is the key,
/// one `=`, then the value, character for character, whatever the value holds; where the
/// key has no `=`, cutting the entry at its first `=` gives back the key and the value.
pub proof fn law_env_entry_splits(e: EnvironmentVariable)
    ensures
        env_entry(e).len() == e.key@.len() + 1 + e.value@.len(),
        env_entry(e).take(e.key@.len() as int) == e.key@,
        env_entry(e)[e.key@.len() as int] == '=',
        env_entry(e).skip(e.key@.len() + 1int) == e.value@,
        !e.key@.contains('=') ==> forall|j: int| 0 <= j < e.key@.len() ==> #[trigger] env_entry(e)[j] != '=',
{
    reveal_strlit("=");
    let s = env_entry(e);
    assert(s.take(e.key@.len() as int) =~= e.key@);
    assert(s.skip(e.key@.len() + 1int) =~= e.value@);
    if !e.key@.contains('=') {
        assert forall|j: int| 0 <= j < e.key@.len() implies #[trigger] s[j] != '=' by {
            assert(s[j] == e.key@[j]);
        }
    }
}

/// Builds the container environment: one `KEY=value` entry per task variable, in order.
pub fn container_env(envs: &Vec<EnvironmentVariable>) -> (res: Vec<String>)
    ensures
        res@.len() == envs@.len(),
        forall|i: int| 0 <= i < res@.len() ==> #[trigger] res@[i]@ == env_entry(envs@[i]),
{
    let mut out: Vec<String> = Vec::new();
    let mut i: usize = 0;
    while i < envs.len()
        invariant
            i <= envs@.len(),
            out@.len() == i,
            forall|k: int| 0 <= k < i ==> #[trigger] out@[k]@ == env_entry(envs@[k]),
        decreases envs@.len() - i,
    {
        let mut entry = envs[i].key.clone();
        entry.append("=");
        entry.append(envs[i].value.as_str());
        out.push(entry);
        i = i + 1;
    }
    out
}

/// Where a container run stands.
#[derive(Debug, Clone, Copy, PartialEq, Eq, Structural)]
pub enum DockerStage {
    Connecting,
    Pulling,
    Creating,
    Starting,
    Waiting,
    ReadingLogs,
    Removing,
    Finished,
}

/// The position of a stage in the order a run passes through them.
pub open spec fn docker_stage_rank(stage: DockerStage) -> int {
    match stage {
        DockerStage::Connecting => 0,
        DockerStage::Pulling => 1,
        DockerStage::Creating => 2,
        DockerStage::Starting => 3,
        DockerStage::Waiting => 4,
        DockerStage::ReadingLogs => 5,
        DockerStage::Removing => 6,
        DockerStage::Finished => 7,
    }
}

/// What the caller is to do next.
#[derive(Debug)]
pub enum DockerAction {
    /// Connect to the local container engine.
    Connect,
    /// Pull the image, reading the progress stream to its end.
    PullImage { image: String },
    /// Create a container of the image with this environment.
    CreateContainer { image: String, env: Vec<String> },
    /// Start the container.
    StartContainer { id: String },
    /// Wait until the container exits, reading the wait stream to its end.
    WaitContainer { id: String },
    /// Read the container's standard output and error, in the engine's order.
    ReadLogs { id: String },
    /// Remove the container by force.
    RemoveContainer { id: String },
    /// The run succeeded with this output.
    Finish(Vec<u8>),
    /// The run failed.
    Fail(DockerError),
}

/// The outcome of the last action.
#[derive(Debug)]
pub enum DockerEvent {
    /// The action succeeded (connect, pull, start, wait, remove).
    Succeeded,
    /// The container was created with this identifier.
    Created(String),
    /// The container's logs were read completely.
    LogsRead(Vec<u8>),
    /// The action failed with this error text.
    Failed(String),
}

/// Whether an event answers the action pending in a stage.
pub open spec fn answers(stage: DockerStage, event: DockerEvent) -> bool {
    match event {
        DockerEvent::Failed(_) => stage != DockerStage::Finished,
        DockerEvent::Succeeded => stage == DockerStage::Connecting || stage == DockerStage::Pulling
            || stage == DockerStage::Starting || stage == DockerStage::Waiting || stage == DockerStage::Removing,
        DockerEvent::Created(_) => stage == DockerStage::Creating,
        DockerEvent::LogsRead(_) => stage == DockerStage::ReadingLogs,
    }
}

/// The error with which an action pending in `stage` fails.
pub open spec fn failure(stage: DockerStage, detail: String) -> DockerError {
    match stage {
        DockerStage::Connecting => DockerError::Connect(detail),
        DockerStage::Pulling => DockerError::Pull(detail),
        DockerStage::Creating => DockerError::Create(detail),
        DockerStage::Starting => DockerError::Start(detail),
        DockerStage::Waiting => DockerError::Wait(detail),
        DockerStage::ReadingLogs => DockerError::Logs(detail),
        _ => DockerError::Remove(detail),
    }
}

/// A container run of one task.
#[derive(Debug)]
pub struct DockerRun {
    pub image: String,
    pub env: Vec<String>,
    pub always_pull: bool,
    pub stage: DockerStage,
    pub container_id: String,
    pub output: Vec<u8>,
}

impl DockerRun {
    /// Begins the run of a task: the image is the name of the task's function and the
    /// environment is built from the task's variables; the first action is to connect.
    pub fn start(task: &Task, always_pull: bool) -> (res: Result<(DockerRun, DockerAction), DockerError>)
        ensures
            match task.function {
                None => res matches Err(DockerError::NoFunction),
                Some(f) => res matches Ok((run, action)) && {
                    &&& run.image@ == f.name@
                    &&& run.env@.len() == task.environment_variables@.len()
                    &&& forall|i: int| 0 <= i < run.env@.len() ==> #[trigger] run.env@[i]@ == env_entry(task.environment_variables@[i])
                    &&& run.always_pull == always_pull
                    &&& run.stage == DockerStage::Connecting
                    &&& run.output@ == Seq::<u8>::empty()
                    &&& action matches DockerAction::Connect
                },
            },
    {
        let function = match &task.function {
            Some(f) => f,
            None => return Err(DockerError::NoFunction),
        };
        let run = DockerRun {
            image: function.name.clone(),
            env: container_env(&task.environment_variables),
            always_pull,
            stage: DockerStage::Connecting,
            container_id: String::new(),
            output: Vec::new(),
        };
        Ok((run, DockerAction::Connect))
    }

    /// Whether `event` answers the pending action.
    pub fn answers(&self, event: &DockerEvent) -> (res: bool)
        ensures
            res == answers(self.stage, *event),
    {
        match event {
            DockerEvent::Failed(_) => self.stage != DockerStage::Finished,
            DockerEvent::Succeeded => self.stage == DockerStage::Connecting || self.stage == DockerStage::Pulling
                || self.stage == DockerStage::Starting || self.stage == DockerStage::Waiting
                || self.stage == DockerStage::Removing,
            DockerEvent::Created(_) => self.stage == DockerStage::Creating,
            DockerEvent::LogsRead(_) => self.stage == DockerStage::ReadingLogs,
        }
    }

    /// Takes the outcome of the pending action and decides the next one. Any failure
    /// ends the run with the error of the failed action; the image is pulled first
    /// exactly when `always_pull` is set; the container's logs become the output, which
    /// the run hands back once the container is removed.
    pub fn step(&mut self, event: DockerEvent) -> (action: DockerAction)
        requires
            answers(old(self).stage, event),
        ensures
            final(self).image == old(self).image,
            final(self).env == old(self).env,
            final(self).always_pull == old(self).always_pull,
            docker_stage_rank(final(self).stage) > docker_stage_rank(old(self).stage),
            !(event is Created) ==> final(self).container_id == old(self).container_id,
            !(event is LogsRead) && final(self).stage != DockerStage::Finished ==> final(self).output@ == old(self).output@,
            match event {
                DockerEvent::Failed(d) => {
                    &&& final(self).stage == DockerStage::Finished
                    &&& action == DockerAction::Fail(failure(old(self).stage, d))
                },
                DockerEvent::Succeeded => match old(self).stage {
                    DockerStage::Connecting => if old(self).always_pull {
                        &&& final(self).stage == DockerStage::Pulling
                        &&& action matches DockerAction::PullImage { image }
                        &&& image == old(self).image
                    } else {
                        &&& final(self).stage == DockerStage::Creating
                        &&& action matches DockerAction::CreateContainer { image, env }
                        &&& image == old(self).image
                        &&& env@ == old(self).env@
                    },
                    DockerStage::Pulling => {
                        &&& final(self).stage == DockerStage::Creating
                        &&& action matches DockerAction::CreateContainer { image, env }
                        &&& image == old(self).image
                        &&& env@ == old(self).env@
                    },
                    DockerStage::Starting => {
                        &&& final(self).stage == DockerStage::Waiting
                        &&& final(self).container_id == old(self).container_id
                        &&& action matches DockerAction::WaitContainer { id }
                        &&& id == old(self).container_id
                    },
                    DockerStage::Waiting => {
                        &&& final(self).stage == DockerStage::ReadingLogs
                        &&& final(self).container_id == old(self).container_id
                        &&& action matches DockerAction::ReadLogs { id }
                        &&& id == old(self).container_id
                    },
                    _ => {
                        &&& final(self).stage == DockerStage::Finished
                        &&& action matches DockerAction::Finish(out)
                        &&& out@ == old(self).output@
                    },
                },
                DockerEvent::Created(id) => {
                    &&& final(self).stage == DockerStage::Starting
                    &&& final(self).container_id == id
                    &&& action matches DockerAction::StartContainer { id: started }
                    &&& started == id
                },
                DockerEvent::LogsRead(bytes) => {
                    &&& final(self).stage == DockerStage::Removing
                    &&& final(self).output@ == bytes@
                    &&& final(self).container_id == old(self).container_id
                    &&& action matches DockerAction::RemoveContainer { id }
                    &&& id == old(self).container_id
                },
            },
    {
        match event {
            DockerEvent::Failed(d) => {
                let err = match self.stage {
                    DockerStage::Connecting => DockerError::Connect(d),
                    DockerStage::Pulling => DockerError::Pull(d),
                    DockerStage::Creating => DockerError::Create(d),
                    DockerStage::Starting => DockerError::Start(d),
                    DockerStage::Waiting => DockerError::Wait(d),
                    DockerStage::ReadingLogs => DockerError::Logs(d),
                    _ => DockerError::Remove(d),
                };
                self.stage = DockerStage::Finished;
                DockerAction::Fail(err)
            },
            DockerEvent::Succeeded => match self.stage {
                DockerStage::Connecting => {
                    if self.always_pull {
                        self.stage = DockerStage::Pulling;
                        DockerAction::PullImage { image: self.image.clone() }
                    } else {
                        self.stage = DockerStage::Creating;
                        DockerAction::CreateContainer { image: self.image.clone(), env: clone_strings(&self.env) }
                    }
                },
                DockerStage::Pulling => {
                    self.stage = DockerStage::Creating;
                    DockerAction::CreateContainer { image: self.image.clone(), env: clone_strings(&self.env) }
                },
                DockerStage::Starting => {
                    self.stage = DockerStage::Waiting;
                    DockerAction::WaitContainer { id: self.container_id.clone() }
                },
                DockerStage::Waiting => {
                    self.stage = DockerStage::ReadingLogs;
                    DockerAction::ReadLogs { id: self.container_id.clone() }
                },
                _ => {
                    self.stage = DockerStage::Finished;
                    let mut out: Vec<u8> = Vec::new();
                    std::mem::swap(&mut out, &mut self.output);
                    DockerAction::Finish(out)
                },
            },
            DockerEvent::Created(id) => {
                self.stage = DockerStage::Starting;
                self.container_id = id.clone();
                DockerAction::StartContainer { id }
            },
            DockerEvent::LogsRead(bytes) => {
                self.stage = DockerStage::Removing;
                self.output = bytes;
                DockerAction::RemoveContainer { id: self.container_id.clone() }
            },
        }
    }
}

/// Copies a list of strings.
fn clone_strings(v: &Vec<String>) -> (res: Vec<String>)
    ensures
        res@ == v@,
{
    let mut out: Vec<String> = Vec::new();
    let mut i: usize = 0;
    while i < v.len()
        invariant
            i <= v@.len(),
            out@ == v@.take(i as int),
        decreases v@.len() - i,
    {
        out.push(v[i].clone());
        assert(v@.take(i + 1) =~= v@.take(i as int).push(v@[i as int]));
        i = i + 1;
    }
    assert(v@.take(v@.len() as int) =~= v@);
    out
}

} // verus!
