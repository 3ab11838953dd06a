//! A stateless logger over a caller-supplied destination.
//!
//! This logger holds no resource and no key: the caller passes the
//! [`Sink`] to write to on every call, keeping ownership entirely on the
//! caller's side. It formats each message with its level tag and one line
//! feed, then delegates to [`LoggerCore`].

use vstd::prelude::*;

use crate::line::err_line;
use crate::line::err_lines_bytes;
use crate::line::format_err;
use crate::line::format_err_many;
use crate::line::format_info;
use crate::line::format_info_many;
use crate::line::format_log;
use crate::line::format_log_many;
use crate::line::info_line;
use crate::line::info_lines_bytes;
use crate::line::line_bytes;
use crate::line::log_line;
use crate::line::log_lines_bytes;
use crate::line::string_bytes;
use crate::sink::chunk_views;
use crate::sink::Sink;
use crate::logger_core::LoggerCore;

verus! {

/// A basic logger over destinations its callers own.
pub struct FPLogger {
    core: LoggerCore,
}

impl FPLogger {
    /// Creates a new [`FPLogger`].
    pub fn new() -> (r: FPLogger) {
        FPLogger { core: LoggerCore::new() }
    }

    /// Appends `"[LOG] {msg}\n"` to the destination and flushes it.
    pub fn log(&self, dest: &mut Sink, msg: &str)
        requires
            old(dest).wf(),
        ensures
            final(dest).wf(),
            final(dest)@.bytes == old(dest)@.bytes + line_bytes(log_line(msg@)),
            final(dest)@.flushed == final(dest)@.bytes.len(),
    {
        let formatted = format_log(msg);
        let bytes = string_bytes(&formatted);
        self.core.log(dest, bytes.as_slice());
    }

    /// Appends each message as a `"[LOG] "`-tagged line, the whole group
    /// written and flushed as one contiguous block.
    pub fn log_many(&self, dest: &mut Sink, msgs: &Vec<String>)
        requires
            old(dest).wf(),
        ensures
            final(dest).wf(),
            final(dest)@.bytes == old(dest)@.bytes + log_lines_bytes(msgs@).flatten(),
            msgs@.len() == 0 ==> final(dest)@ == old(dest)@,
            msgs@.len() > 0 ==> final(dest)@.flushed == final(dest)@.bytes.len(),
    {
        let chunks = format_log_many(msgs);
        proof {
            assert(chunk_views(chunks@) =~~= log_lines_bytes(msgs@));
        }
        self.core.log_many(dest, &chunks);
    }

    /// Appends `"[INFO] {msg}\n"` to the destination and flushes it.
    pub fn info(&self, dest: &mut Sink, msg: &str)
        requires
            old(dest).wf(),
        ensures
            final(dest).wf(),
            final(dest)@.bytes == old(dest)@.bytes + line_bytes(info_line(msg@)),
            final(dest)@.flushed == final(dest)@.bytes.len(),
    {
        let formatted = format_info(msg);
        let bytes = string_bytes(&formatted);
        self.core.log(dest, bytes.as_slice());
    }

    /// Appends each message as an `"[INFO] "`-tagged line, the whole group
    /// written and flushed as one contiguous block.
    pub fn info_many(&self, dest: &mut Sink, msgs: &Vec<String>)
        requires
            old(dest).wf(),
        ensures
            final(dest).wf(),
            final(dest)@.bytes == old(dest)@.bytes + info_lines_bytes(msgs@).flatten(),
            msgs@.len() == 0 ==> final(dest)@ == old(dest)@,
            msgs@.len() > 0 ==> final(dest)@.flushed == final(dest)@.bytes.len(),
    {
        let chunks = format_info_many(msgs);
        proof {
            assert(chunk_views(chunks@) =~~= info_lines_bytes(msgs@));
        }
        self.core.log_many(dest, &chunks);
    }

    /// Appends `" [ERR] {msg}\n"` to the destination and flushes it.
    pub fn err(&self, dest: &mut Sink, msg: &str)
        requires
            old(dest).wf(),
        ensures
            final(dest).wf(),
            final(dest)@.bytes == old(dest)@.bytes + line_bytes(err_line(msg@)),
            final(dest)@.flushed == final(dest)@.bytes.len(),
    {
        let formatted = format_err(msg);
        let bytes = string_bytes(&formatted);
        self.core.log(dest, bytes.as_slice());
    }

    /// Appends each message as an `" [ERR] "`-tagged line, the whole group
    /// written and flushed as one contiguous block.
    pub fn err_many(&self, dest: &mut Sink, msgs: &Vec<String>)
        requires
            old(dest).wf(),
        ensures
            final(dest).wf(),
            final(dest)@.bytes == old(dest)@.bytes + err_lines_bytes(msgs@).flatten(),
            msgs@.len() == 0 ==> final(dest)@ == old(dest)@,
            msgs@.len() > 0 ==> final(dest)@.flushed == final(dest)@.bytes.len(),
    {
        let chunks = format_err_many(msgs);
        proof {
            assert(chunk_views(chunks@) =~~= err_lines_bytes(msgs@));
        }
        self.core.log_many(dest, &chunks);
    }
}

} // verus!
