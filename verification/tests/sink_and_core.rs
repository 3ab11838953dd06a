use fp_log::logger_core::LoggerCore;
use fp_log::sink::concat_chunks;
use fp_log::sink::Sink;

#[test]
fn fresh_sink_is_empty_and_flushed() {
    let sink = Sink::create();
    assert_eq!(sink.contents(), Vec::<u8>::new());
    assert_eq!(sink.flushed_len(), 0);
}

#[test]
fn append_without_flush_keeps_watermark() {
    let mut sink = Sink::create();
    sink.append(b"abc", false);
    assert_eq!(sink.contents(), b"abc".to_vec());
    assert_eq!(sink.flushed_len(), 0);
    sink.append(b"de", true);
    assert_eq!(sink.contents(), b"abcde".to_vec());
    assert_eq!(sink.flushed_len(), 5);
}

#[test]
fn grouped_append_flushes_once_at_the_end() {
    let mut sink = Sink::create();
    let chunks = vec![b"one".to_vec(), b"two".to_vec(), b"three".to_vec()];
    sink.append_grouped(&chunks);
    assert_eq!(sink.contents(), b"onetwothree".to_vec());
    assert_eq!(sink.flushed_len(), 11);
}

#[test]
fn grouped_append_of_nothing_is_a_noop() {
    let mut sink = Sink::create();
    sink.append(b"kept", false);
    sink.append_grouped(&Vec::new());
    assert_eq!(sink.contents(), b"kept".to_vec());
    // Nothing to flush: the watermark does not move either.
    assert_eq!(sink.flushed_len(), 0);
}

#[test]
fn concat_chunks_joins_in_order() {
    let chunks = vec![b"a".to_vec(), Vec::new(), b"bc".to_vec()];
    assert_eq!(concat_chunks(&chunks), b"abc".to_vec());
    assert_eq!(concat_chunks(&Vec::new()), Vec::<u8>::new());
}

#[test]
fn core_log_writes_verbatim_and_flushes() {
    let core = LoggerCore::new();
    let mut sink = Sink::create();
    core.log(&mut sink, b"raw bytes");
    assert_eq!(sink.contents(), b"raw bytes".to_vec());
    assert_eq!(sink.flushed_len(), 9);
}

#[test]
fn core_log_many_writes_one_block() {
    let core = LoggerCore::new();
    let mut sink = Sink::create();
    let messages = vec![b"first\n".to_vec(), b"second\n".to_vec()];
    core.log_many(&mut sink, &messages);
    assert_eq!(sink.contents(), b"first\nsecond\n".to_vec());
    assert_eq!(sink.flushed_len(), 13);
}

#[test]
fn core_log_many_of_nothing_is_a_noop() {
    let core = LoggerCore::new();
    let mut sink = Sink::create();
    core.log_many(&mut sink, &Vec::new());
    assert_eq!(sink.contents(), Vec::<u8>::new());
    assert_eq!(sink.flushed_len(), 0);
}
