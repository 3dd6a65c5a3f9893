use monarch_store::error_classifier::{ClassifiedError, PacmanErrorKind, RecoveryAction};

#[test]
fn test_database_lock_detection() {
    let output = "error: failed to init transaction (unable to lock database)";
    let err = ClassifiedError::from_output(output).unwrap();
    assert_eq!(err.kind, PacmanErrorKind::DatabaseLocked);
}

#[test]
fn test_keyring_error_detection() {
    let output = "error: package: signature from \"Developer\" is invalid";
    let err = ClassifiedError::from_output(output).unwrap();
    assert_eq!(err.kind, PacmanErrorKind::KeyringError);
}

#[test]
fn test_package_not_found_detection() {
    let output = "error: target not found: nonexistent-package";
    let err = ClassifiedError::from_output(output).unwrap();
    assert_eq!(err.kind, PacmanErrorKind::PackageNotFound);
}

#[test]
fn test_mirror_failure_detection() {
    let output = "error: failed retrieving file 'extra.db' from mirror.example.com : The requested URL returned error: 404";
    let err = ClassifiedError::from_output(output).unwrap();
    assert_eq!(err.kind, PacmanErrorKind::MirrorFailure);
}

#[test]
fn classifies_case_insensitively_and_keeps_raw_message() {
    let output = "ERROR: Database Is Locked";
    let err = ClassifiedError::from_output(output).unwrap();
    assert_eq!(err.kind, PacmanErrorKind::DatabaseLocked);
    assert_eq!(err.title, "Database Locked");
    assert_eq!(err.raw_message, output);
    assert!(matches!(err.recovery_action, Some(RecoveryAction::UnlockDatabase)));
    assert!(err.is_auto_recoverable());
}

#[test]
fn lock_wins_over_later_patterns() {
    let err = ClassifiedError::from_output("db.lck exists; permission denied; 404").unwrap();
    assert_eq!(err.kind, PacmanErrorKind::DatabaseLocked);
}

#[test]
fn each_remaining_kind_is_detected() {
    let cases = [
        ("No space left on device", PacmanErrorKind::DiskFull),
        ("error: conflicting dependencies", PacmanErrorKind::DependencyConflict),
        ("/usr/bin/x exists in filesystem", PacmanErrorKind::FileConflict),
        ("failed integrity check", PacmanErrorKind::CorruptedPackage),
        ("Operation not permitted", PacmanErrorKind::PermissionDenied),
    ];
    for (text, kind) in cases {
        let err = ClassifiedError::from_output(text).unwrap();
        assert_eq!(err.kind, kind);
    }
    let conflict = ClassifiedError::from_output("breaks dependency 'x'").unwrap();
    match &conflict.recovery_action {
        Some(RecoveryAction::ShowManualSteps(s)) => assert!(s.starts_with("Review the conflicting")),
        _ => panic!("expected manual steps"),
    }
    assert!(!conflict.is_auto_recoverable());
}

#[test]
fn unknown_output_is_not_classified() {
    assert!(ClassifiedError::from_output("everything is fine").is_none());
    assert!(ClassifiedError::from_output("").is_none());
}
