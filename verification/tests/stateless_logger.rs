use fp_log::logger::FPLogger;
use fp_log::sink::Sink;

#[test]
fn log_tags_and_terminates() {
    let logger = FPLogger::new();
    let mut sink = Sink::create();
    logger.log(&mut sink, "plain entry");
    assert_eq!(sink.contents(), b"[LOG] plain entry\n".to_vec());
    assert_eq!(sink.flushed_len(), 18);
}

#[test]
fn info_and_err_tag_their_lines() {
    let logger = FPLogger::new();
    let mut sink = Sink::create();
    logger.info(&mut sink, "hello");
    logger.err(&mut sink, "bad");
    assert_eq!(sink.contents(), b"[INFO] hello\n [ERR] bad\n".to_vec());
}

#[test]
fn log_many_groups_lines() {
    let logger = FPLogger::new();
    let mut sink = Sink::create();
    let msgs = vec!["a".to_string(), "b".to_string()];
    logger.log_many(&mut sink, &msgs);
    assert_eq!(sink.contents(), b"[LOG] a\n[LOG] b\n".to_vec());
}

#[test]
fn info_many_and_err_many_group_lines() {
    let logger = FPLogger::new();
    let mut sink = Sink::create();
    logger.info_many(&mut sink, &vec!["i".to_string()]);
    logger.err_many(&mut sink, &vec!["e".to_string()]);
    assert_eq!(sink.contents(), b"[INFO] i\n [ERR] e\n".to_vec());
}

#[test]
fn empty_groups_write_nothing() {
    let logger = FPLogger::new();
    let mut sink = Sink::create();
    logger.log_many(&mut sink, &Vec::new());
    logger.info_many(&mut sink, &Vec::new());
    logger.err_many(&mut sink, &Vec::new());
    assert_eq!(sink.contents(), Vec::<u8>::new());
    assert_eq!(sink.flushed_len(), 0);
}

#[test]
fn non_ascii_messages_land_as_utf8() {
    let logger = FPLogger::new();
    let mut sink = Sink::create();
    logger.info(&mut sink, "héllo");
    assert_eq!(sink.contents(), "[INFO] héllo\n".as_bytes().to_vec());
}
