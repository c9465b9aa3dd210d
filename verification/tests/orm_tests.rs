use enclave_runner::orm::{log_record, LogError, LogIssuer, LogLevel};

#[test]
fn log_level_labels() {
    assert_eq!(LogLevel::Debug.as_str(), "DEBUG");
    assert_eq!(LogLevel::Info.as_str(), "INFO");
    assert_eq!(LogLevel::Error.as_str(), "ERROR");
    assert_eq!(LogLevel::Fatal.as_str(), "FATAL");
}

#[test]
fn log_issuer_labels() {
    assert_eq!(LogIssuer::System.as_str(), "SYSTEM");
    assert_eq!(LogIssuer::Artifact.as_str(), "ARTIFACT");
}

#[test]
fn log_record_of_hyphenated_task_id() {
    let r = log_record(
        "550e8400-e29b-41d4-a716-446655440000",
        LogLevel::Info,
        LogIssuer::System,
        b"Task assigned".to_vec(),
    )
    .unwrap();
    assert_eq!(r.task_id, 0x550e8400_e29b_41d4_a716_446655440000u128);
    assert_eq!(r.status, "INFO");
    assert_eq!(r.issuer, "SYSTEM");
    assert_eq!(r.payload, b"Task assigned".to_vec());
}

#[test]
fn log_record_of_simple_task_id() {
    let r = log_record("a1a2a3a4b1b2c1c2d1d2d3d4d5d6d7d8", LogLevel::Fatal, LogIssuer::Artifact, vec![1, 2])
        .unwrap();
    assert_eq!(r.task_id, 0xa1a2a3a4_b1b2_c1c2_d1d2_d3d4d5d6d7d8u128);
    assert_eq!(r.status, "FATAL");
    assert_eq!(r.issuer, "ARTIFACT");
}

#[test]
fn log_record_rejects_non_uuid() {
    assert!(matches!(
        log_record("not-a-uuid", LogLevel::Error, LogIssuer::System, vec![]),
        Err(LogError::InvalidTaskId(_))
    ));
    assert!(log_record("", LogLevel::Error, LogIssuer::System, vec![]).is_err());
    assert!(log_record("zzzzzzzz-e29b-41d4-a716-446655440000", LogLevel::Error, LogIssuer::System, vec![]).is_err());
}
