use enclave_runner::docker_exec::{
    container_env, DockerAction, DockerError, DockerEvent, DockerRun, DockerStage,
};
use enclave_runner::task::{EnvironmentVariable, Function, Task};

fn task(image: Option<&str>) -> Task {
    Task {
        function: image.map(|i| Function { name: i.to_string(), interface: String::new(), artifact: None }),
        environment_variables: vec![
            EnvironmentVariable { key: "A".to_string(), value: "1".to_string() },
            EnvironmentVariable { key: "B".to_string(), value: "x=y".to_string() },
        ],
        arguments: vec![],
        parameters: vec![],
    }
}

#[test]
fn container_env_entries() {
    let t = task(None);
    assert_eq!(container_env(&t.environment_variables), vec!["A=1".to_string(), "B=x=y".to_string()]);
}

#[test]
fn run_needs_a_function() {
    let e = DockerRun::start(&task(None), false).unwrap_err();
    assert!(matches!(e, DockerError::NoFunction));
    assert_eq!(e.message(), "Task has no function identifier");
}

#[test]
fn run_with_pull() {
    let (mut run, a) = DockerRun::start(&task(Some("alpine:3")), true).unwrap();
    assert!(matches!(a, DockerAction::Connect));
    let a = run.step(DockerEvent::Succeeded);
    assert!(matches!(a, DockerAction::PullImage { ref image } if image == "alpine:3"));
    let a = run.step(DockerEvent::Succeeded);
    match a {
        DockerAction::CreateContainer { image, env } => {
            assert_eq!(image, "alpine:3");
            assert_eq!(env, vec!["A=1".to_string(), "B=x=y".to_string()]);
        }
        other => panic!("unexpected {:?}", other),
    }
    let a = run.step(DockerEvent::Created("c1".to_string()));
    assert!(matches!(a, DockerAction::StartContainer { ref id } if id == "c1"));
    let a = run.step(DockerEvent::Succeeded);
    assert!(matches!(a, DockerAction::WaitContainer { ref id } if id == "c1"));
    let a = run.step(DockerEvent::Succeeded);
    assert!(matches!(a, DockerAction::ReadLogs { ref id } if id == "c1"));
    let a = run.step(DockerEvent::LogsRead(b"hello\n".to_vec()));
    assert!(matches!(a, DockerAction::RemoveContainer { ref id } if id == "c1"));
    let a = run.step(DockerEvent::Succeeded);
    assert!(matches!(a, DockerAction::Finish(ref out) if out == b"hello\n"));
    assert_eq!(run.stage, DockerStage::Finished);
    assert!(!run.answers(&DockerEvent::Failed(String::new())));
}

#[test]
fn run_without_pull_creates_right_after_connecting() {
    let (mut run, _) = DockerRun::start(&task(Some("busybox")), false).unwrap();
    let a = run.step(DockerEvent::Succeeded);
    assert!(matches!(a, DockerAction::CreateContainer { ref image, .. } if image == "busybox"));
}

#[test]
fn failures_end_the_run_with_their_stage() {
    let (mut run, _) = DockerRun::start(&task(Some("img")), true).unwrap();
    run.step(DockerEvent::Succeeded);
    match run.step(DockerEvent::Failed("denied".to_string())) {
        DockerAction::Fail(e) => {
            assert!(matches!(e, DockerError::Pull(_)));
            assert_eq!(e.message(), "Failed to pull image: denied");
        }
        other => panic!("unexpected {:?}", other),
    }
    let (mut run, _) = DockerRun::start(&task(Some("img")), false).unwrap();
    match run.step(DockerEvent::Failed("no socket".to_string())) {
        DockerAction::Fail(e) => assert_eq!(e.message(), "Failed to connect to Docker daemon: no socket"),
        other => panic!("unexpected {:?}", other),
    }
}

#[test]
fn docker_error_messages() {
    assert_eq!(DockerError::Create("c".to_string()).message(), "Failed to create container: c");
    assert_eq!(DockerError::Start("s".to_string()).message(), "Failed to start container: s");
    assert_eq!(DockerError::Wait("w".to_string()).message(), "Container wait error: w");
    assert_eq!(DockerError::Logs("l".to_string()).message(), "Failed to read container logs: l");
    assert_eq!(DockerError::Remove("r".to_string()).message(), "Failed to remove container: r");
}
