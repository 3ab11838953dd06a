use fp_log::registry::Registry;
use fp_log::FPLogger;
use fp_log::FPLoggerError;

#[test]
fn info_appends_exact_bytes() {
    let mut registry = Registry::new();
    let logger = FPLogger::new(&mut registry, "app.log").unwrap();
    logger.info(&mut registry, "hello").unwrap();
    let written = registry.contents("app.log").unwrap();
    assert_eq!(written, b"[INFO] hello\n".to_vec());
}

#[test]
fn err_appends_exact_bytes() {
    let mut registry = Registry::new();
    let logger = FPLogger::new(&mut registry, "app.log").unwrap();
    logger.err(&mut registry, "bad").unwrap();
    let written = registry.contents("app.log").unwrap();
    assert_eq!(written, b" [ERR] bad\n".to_vec());
}

#[test]
fn tags_line_up_in_a_column() {
    let mut registry = Registry::new();
    let logger = FPLogger::new(&mut registry, "app.log").unwrap();
    logger.info(&mut registry, "one").unwrap();
    logger.err(&mut registry, "two").unwrap();
    let written = registry.contents("app.log").unwrap();
    assert_eq!(written, b"[INFO] one\n [ERR] two\n".to_vec());
}

#[test]
fn registration_is_idempotent() {
    let mut registry = Registry::new();
    let first = FPLogger::new(&mut registry, "shared.log").unwrap();
    first.info(&mut registry, "before").unwrap();
    // A second handle for the same key finds the existing sink: nothing
    // is truncated and both handles write to the same destination.
    let second = FPLogger::new(&mut registry, "shared.log").unwrap();
    let kept = registry.contents("shared.log").unwrap();
    assert_eq!(kept, b"[INFO] before\n".to_vec());
    second.info(&mut registry, "after").unwrap();
    let written = registry.contents("shared.log").unwrap();
    assert_eq!(written, b"[INFO] before\n[INFO] after\n".to_vec());
}

#[test]
fn one_sink_per_key() {
    let mut registry = Registry::new();
    let _ = FPLogger::new(&mut registry, "only.log").unwrap();
    let _ = FPLogger::new(&mut registry, "only.log").unwrap();
    let _ = FPLogger::new(&mut registry, "only.log").unwrap();
    assert_eq!(registry.sink_count(), 1);
    let _ = FPLogger::new(&mut registry, "other.log").unwrap();
    assert_eq!(registry.sink_count(), 2);
}

#[test]
fn empty_group_appends_nothing() {
    let mut registry = Registry::new();
    let logger = FPLogger::new(&mut registry, "app.log").unwrap();
    logger.info(&mut registry, "kept").unwrap();
    logger.info_many(&mut registry, &Vec::new()).unwrap();
    let written = registry.contents("app.log").unwrap();
    assert_eq!(written, b"[INFO] kept\n".to_vec());
}

#[test]
fn grouped_lines_form_one_block() {
    let mut registry = Registry::new();
    let logger = FPLogger::new(&mut registry, "app.log").unwrap();
    let group = vec!["a".to_string(), "b".to_string(), "c".to_string()];
    logger.info_many(&mut registry, &group).unwrap();
    logger.info(&mut registry, "x").unwrap();
    let written = registry.contents("app.log").unwrap();
    assert_eq!(
        written,
        b"[INFO] a\n[INFO] b\n[INFO] c\n[INFO] x\n".to_vec()
    );
}

#[test]
fn err_many_groups_lines() {
    let mut registry = Registry::new();
    let logger = FPLogger::new(&mut registry, "app.log").unwrap();
    let group = vec!["first".to_string(), "second".to_string()];
    logger.err_many(&mut registry, &group).unwrap();
    let written = registry.contents("app.log").unwrap();
    assert_eq!(written, b" [ERR] first\n [ERR] second\n".to_vec());
}

#[test]
fn different_keys_stay_independent() {
    let mut registry = Registry::new();
    let a = FPLogger::new(&mut registry, "a.log").unwrap();
    let b = FPLogger::new(&mut registry, "b.log").unwrap();
    a.info(&mut registry, "for a").unwrap();
    b.err(&mut registry, "for b").unwrap();
    a.info(&mut registry, "again").unwrap();
    assert_eq!(
        registry.contents("a.log").unwrap(),
        b"[INFO] for a\n[INFO] again\n".to_vec()
    );
    assert_eq!(registry.contents("b.log").unwrap(), b" [ERR] for b\n".to_vec());
}

#[test]
fn write_against_unregistered_key_fails() {
    let mut registry = Registry::new();
    let mut other = Registry::new();
    let logger = FPLogger::new(&mut registry, "app.log").unwrap();
    // The handle was registered in `registry`, not in `other`.
    let outcome = logger.info(&mut other, "lost");
    let error = match outcome {
        Ok(()) => panic!("write against an unregistered key succeeded"),
        Err(e) => e,
    };
    assert!(matches!(error, FPLoggerError::LogWriteFailure(Some(_))));
    assert_eq!(
        error.message(),
        "failed to log message\n\t- failed to write to log file\n\t- \
         no log destination is registered for this key"
    );
    assert!(!other.contains("app.log"));
    assert_eq!(other.sink_count(), 0);
}

#[test]
fn failed_group_write_changes_nothing() {
    let mut empty = Registry::new();
    let mut registry = Registry::new();
    let logger = FPLogger::new(&mut registry, "app.log").unwrap();
    let group = vec!["a".to_string()];
    assert!(logger.info_many(&mut empty, &group).is_err());
    assert_eq!(empty.sink_count(), 0);
}

#[test]
fn cloned_handles_share_the_sink() {
    let mut registry = Registry::new();
    let logger = FPLogger::new(&mut registry, "app.log").unwrap();
    let copy = logger.clone();
    logger.info(&mut registry, "one").unwrap();
    copy.info(&mut registry, "two").unwrap();
    assert_eq!(
        registry.contents("app.log").unwrap(),
        b"[INFO] one\n[INFO] two\n".to_vec()
    );
    assert_eq!(registry.sink_count(), 1);
}
