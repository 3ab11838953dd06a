use fp_log::line::format_err;
use fp_log::line::format_info;
use fp_log::line::format_log;
use fp_log::log::LogError;
use fp_log::registry::Registry;
use fp_log::FPLoggerError;

#[test]
fn formatting_matches_the_tags() {
    assert_eq!(format_info("hello"), "[INFO] hello\n");
    assert_eq!(format_err("bad"), " [ERR] bad\n");
    assert_eq!(format_log("note"), "[LOG] note\n");
    assert_eq!(format_info(""), "[INFO] \n");
}

#[test]
fn creation_failure_renders_its_cause() {
    let with_cause =
        FPLoggerError::CreationFailure(Some("permission denied".to_string()));
    assert_eq!(
        with_cause.message(),
        "failed to create fplogger\n\t- permission denied"
    );
    let without_cause = FPLoggerError::CreationFailure(None);
    assert_eq!(
        without_cause.message(),
        "failed to create fplogger\n\t- unspecified reason"
    );
}

#[test]
fn write_failure_renders_its_cause() {
    let with_cause = FPLoggerError::LogWriteFailure(Some("disk full".to_string()));
    assert_eq!(with_cause.message(), "failed to log message\n\t- disk full");
    let without_cause = FPLoggerError::LogWriteFailure(None);
    assert_eq!(
        without_cause.message(),
        "failed to log message\n\t- unspecified reason"
    );
}

#[test]
fn log_error_renders_both_phases() {
    let creation = LogError::LogFileCreationError(Some("no such directory".to_string()));
    assert_eq!(
        creation.message(),
        "failed to create log file\n\t- no such directory"
    );
    let creation_unknown = LogError::LogFileCreationError(None);
    assert_eq!(
        creation_unknown.message(),
        "failed to create log file\n\t- unspecified reason"
    );
    let write = LogError::LogFileWriteError(None);
    assert_eq!(
        write.message(),
        "failed to write to log file\n\t- unspecified reason"
    );
}

#[test]
fn registry_write_error_names_the_missing_key() {
    let mut registry = Registry::new();
    let outcome = registry.write("nowhere.log", b"dropped");
    let error = match outcome {
        Ok(()) => panic!("write against an empty registry succeeded"),
        Err(e) => e,
    };
    assert!(matches!(&error, LogError::LogFileWriteError(Some(_))));
    assert_eq!(
        error.message(),
        "failed to write to log file\n\t- no log destination is registered for this key"
    );
}

#[test]
fn registry_write_many_error_names_the_missing_key() {
    let mut registry = Registry::new();
    let outcome = registry.write_many("nowhere.log", &vec![b"dropped".to_vec()]);
    assert!(matches!(
        outcome,
        Err(LogError::LogFileWriteError(Some(_)))
    ));
}

#[test]
fn registry_write_resolves_registered_keys() {
    let mut registry = Registry::new();
    registry.register("direct.log");
    assert!(registry.contains("direct.log"));
    registry.write("direct.log", b"raw").unwrap();
    registry
        .write_many("direct.log", &vec![b"g1".to_vec(), b"g2".to_vec()])
        .unwrap();
    assert_eq!(registry.contents("direct.log").unwrap(), b"rawg1g2".to_vec());
    assert!(registry.contents("absent.log").is_none());
}
