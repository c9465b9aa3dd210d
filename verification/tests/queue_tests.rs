use enclave_runner::orm::{LogIssuer, LogLevel};
use enclave_runner::queue::{
    extract_measurement, measurement_url, processor_settings, Measurement, TaskAction, TaskError,
    TaskEvent, TaskRun, TaskStage,
};
use enclave_runner::task::{EnvironmentVariable, Task};

fn env(key: &str, value: &str) -> EnvironmentVariable {
    EnvironmentVariable { key: key.to_string(), value: value.to_string() }
}

fn task_with_env(envs: Vec<EnvironmentVariable>) -> Task {
    Task { function: None, environment_variables: envs, arguments: vec![], parameters: vec![] }
}

#[test]
fn measurement_needs_both_variables() {
    let t = task_with_env(vec![env("MEASUREMENT_ID", "42"), env("OTHER", "x")]);
    assert!(extract_measurement(&t).is_none());
    let t = task_with_env(vec![env("MEASUREMENT_SERVER", "http://bench")]);
    assert!(extract_measurement(&t).is_none());
    assert!(extract_measurement(&task_with_env(vec![])).is_none());
}

#[test]
fn measurement_takes_last_occurrence() {
    let t = task_with_env(vec![
        env("MEASUREMENT_ID", "1"),
        env("MEASUREMENT_SERVER", "http://a"),
        env("PATH", "/bin"),
        env("MEASUREMENT_ID", "2"),
    ]);
    let m = extract_measurement(&t).unwrap();
    assert_eq!(m.id, "2");
    assert_eq!(m.server, "http://a");
}

#[test]
fn measurement_keys_are_case_sensitive() {
    let t = task_with_env(vec![env("measurement_id", "1"), env("MEASUREMENT_SERVER", "http://a")]);
    assert!(extract_measurement(&t).is_none());
}

#[test]
fn measurement_url_trims_trailing_slashes() {
    let m = Measurement { id: "abc".to_string(), server: "http://bench:8080//".to_string() };
    assert_eq!(measurement_url(&m, "assigned"), "http://bench:8080/benchmarks/assigned?request=abc");
    let m = Measurement { id: "7".to_string(), server: "http://bench".to_string() };
    assert_eq!(measurement_url(&m, "cleanup"), "http://bench/benchmarks/cleanup?request=7");
    let m = Measurement { id: "7".to_string(), server: "/".to_string() };
    assert_eq!(measurement_url(&m, "pulled"), "/benchmarks/pulled?request=7");
}

#[test]
fn processor_settings_values() {
    let s = processor_settings();
    assert_eq!(s.task_type, "job:normal");
    assert_eq!(s.concurrency, 1);
    assert_eq!(
        s.queues,
        vec![("critical".to_string(), 6), ("default".to_string(), 3), ("low".to_string(), 1)]
    );
}

fn assert_records(action: &TaskAction, text: &str) {
    match action {
        TaskAction::RecordLog { level, issuer, message } => {
            assert_eq!(*level, LogLevel::Info);
            assert_eq!(*issuer, LogIssuer::System);
            assert_eq!(message, text);
        }
        other => panic!("expected a log record, got {:?}", other),
    }
}

fn assert_reports(action: &TaskAction, url: &str) {
    match action {
        TaskAction::Report { url: u } => assert_eq!(u, url),
        other => panic!("expected a report, got {:?}", other),
    }
}

#[test]
fn task_run_with_measurement() {
    let m = Measurement { id: "r1".to_string(), server: "http://s/".to_string() };
    let (mut run, a) = TaskRun::start(Some(m));
    assert_records(&a, "Task assigned");
    let a = run.step(TaskEvent::Succeeded);
    assert_reports(&a, "http://s/benchmarks/assigned?request=r1");
    let a = run.step(TaskEvent::Failed("unreachable".to_string()));
    assert_reports(&a, "http://s/benchmarks/pulled?request=r1");
    let a = run.step(TaskEvent::Succeeded);
    assert_records(&a, "Task running");
    let a = run.step(TaskEvent::Succeeded);
    assert!(matches!(a, TaskAction::Execute));
    let a = run.step(TaskEvent::Executed(b"out".to_vec()));
    assert!(matches!(a, TaskAction::WriteResult(ref b) if b == b"out"));
    let a = run.step(TaskEvent::Failed("write failed".to_string()));
    assert_reports(&a, "http://s/benchmarks/cleanup?request=r1");
    let a = run.step(TaskEvent::Succeeded);
    assert!(matches!(a, TaskAction::Finish(Ok(()))));
    assert_eq!(run.stage, TaskStage::Finished);
}

#[test]
fn task_run_without_measurement_skips_reports() {
    let (mut run, a) = TaskRun::start(None);
    assert_records(&a, "Task assigned");
    let a = run.step(TaskEvent::Succeeded);
    assert_records(&a, "Task running");
    let a = run.step(TaskEvent::Succeeded);
    assert!(matches!(a, TaskAction::Execute));
    let a = run.step(TaskEvent::Executed(vec![]));
    assert!(matches!(a, TaskAction::WriteResult(_)));
    let a = run.step(TaskEvent::Succeeded);
    assert!(matches!(a, TaskAction::Finish(Ok(()))));
}

#[test]
fn task_run_log_failure_ends_task() {
    let (mut run, _) = TaskRun::start(None);
    let a = run.step(TaskEvent::Failed("db down".to_string()));
    match a {
        TaskAction::Finish(Err(e)) => assert_eq!(e.message(), "db down"),
        other => panic!("unexpected {:?}", other),
    }
    assert!(!run.answers(&TaskEvent::Succeeded));
}

#[test]
fn task_run_execution_failure_ends_task() {
    let (mut run, _) = TaskRun::start(None);
    run.step(TaskEvent::Succeeded);
    run.step(TaskEvent::Succeeded);
    let a = run.step(TaskEvent::Failed("no image".to_string()));
    match a {
        TaskAction::Finish(Err(e)) => {
            assert!(matches!(e, TaskError::Execution(_)));
            assert_eq!(e.message(), "Execution failed: no image");
        }
        other => panic!("unexpected {:?}", other),
    }
}

#[test]
fn task_run_without_result_writer_skips_cleanup() {
    let m = Measurement { id: "r".to_string(), server: "http://s".to_string() };
    let (mut run, _) = TaskRun::start(Some(m));
    run.step(TaskEvent::Succeeded);
    run.step(TaskEvent::Succeeded);
    run.step(TaskEvent::Succeeded);
    run.step(TaskEvent::Succeeded);
    assert!(run.answers(&TaskEvent::Executed(vec![])));
    run.step(TaskEvent::Executed(vec![1]));
    assert!(run.answers(&TaskEvent::NoResultWriter));
    let a = run.step(TaskEvent::NoResultWriter);
    assert!(matches!(a, TaskAction::Finish(Ok(()))));
}

#[test]
fn failure_log_is_fatal_system_line() {
    match enclave_runner::queue::failure_log("Execution failed: boom") {
        TaskAction::RecordLog { level, issuer, message } => {
            assert_eq!(level, LogLevel::Fatal);
            assert_eq!(issuer, LogIssuer::System);
            assert_eq!(message, "Execution failed: boom");
        }
        other => panic!("unexpected {:?}", other),
    }
}
