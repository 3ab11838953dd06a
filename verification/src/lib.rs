//! A minimal, registry-backed logging core.
//!
//! Callers obtain a lightweight handle ([`FPLogger`]) bound to a destination
//! key and append level-tagged text lines to the destination behind it. A
//! shared [`registry::Registry`] guarantees that every handle bound to the
//! same key converges on a single [`sink::Sink`], that registration is
//! idempotent, and that grouped writes land as one contiguous block.
//!
//! The registry is an explicit value handed to every call rather than an
//! implicit process-wide global, so independent registries can coexist and a
//! host program decides where the one shared instance lives. Destination
//! resources themselves (files, sockets) are bound by the host program,
//! which forwards each sink's bytes to the real resource; a failure to open
//! one is reported by the host as a [`FPLoggerError::CreationFailure`].

use vstd::prelude::*;
use vstd::string::StringExecFns;

pub mod laws;
pub mod line;
pub mod log;
pub mod logger;
pub mod logger_core;
pub mod registry;
pub mod sink;

use crate::line::err_line;
use crate::line::err_lines_bytes;
use crate::line::format_err;
use crate::line::format_err_many;
use crate::line::format_info;
use crate::line::format_info_many;
use crate::line::info_line;
use crate::line::info_lines_bytes;
use crate::line::line_bytes;
use crate::line::string_bytes;
use crate::log::cause_text;
use crate::log::write_error_text;
use crate::registry::register_step;
use crate::registry::unknown_key_cause;
use crate::registry::write_many_step;
use crate::registry::write_step;
use crate::registry::Registry;
use crate::sink::chunk_views;

verus! {

/// Error type for an [`FPLogger`].
#[derive(Debug)]
pub enum FPLoggerError {
    /// Error during the creation of an [`FPLogger`].
    CreationFailure(Option<String>),
    /// Error while writing to a log.
    LogWriteFailure(Option<String>),
}

/// The rendered text of a handle-creation failure with the given cause.
pub open spec fn fplogger_creation_text(cause: Seq<char>) -> Seq<char> {
    "failed to create fplogger\n\t- "@ + cause
}

/// The rendered text of a failed log call with the given cause.
pub open spec fn fplogger_write_text(cause: Seq<char>) -> Seq<char> {
    "failed to log message\n\t- "@ + cause
}

impl FPLoggerError {
    /// The characters of the rendered error: which phase failed, then the
    /// cause on an indented line of its own.
    pub open spec fn spec_message(&self) -> Seq<char> {
        match self {
            FPLoggerError::CreationFailure(cause) => fplogger_creation_text(cause_text(*cause)),
            FPLoggerError::LogWriteFailure(cause) => fplogger_write_text(cause_text(*cause)),
        }
    }

    /// Renders the error as text, preserving the cause.
    pub fn message(&self) -> (r: String)
        ensures
            r@ == self.spec_message(),
    {
        match self {
            FPLoggerError::CreationFailure(cause) => {
                let mut r = String::from_str("failed to create fplogger\n\t- ");
                append_cause(&mut r, cause);
                r
            },
            FPLoggerError::LogWriteFailure(cause) => {
                let mut r = String::from_str("failed to log message\n\t- ");
                append_cause(&mut r, cause);
                r
            },
        }
    }
}

/// Appends the rendered cause to a message under construction.
fn append_cause(r: &mut String, cause: &Option<String>)
    ensures
        final(r)@ == old(r)@ + cause_text(*cause),
{
    match cause {
        Some(c) => r.append(c.as_str()),
        None => r.append("unspecified reason"),
    }
}

/// The exact error a handle returns when its key has no registered sink:
/// the registry's failure, wrapped with its cause preserved.
pub open spec fn unregistered_write_error(e: FPLoggerError) -> bool {
    &&& e matches FPLoggerError::LogWriteFailure(Some(c))
    &&& c@ == write_error_text(unknown_key_cause())
}

/// A basic logger: a lightweight handle bound to a destination key.
///
/// The handle owns no resource; every operation resolves the key through
/// the registry it is handed, so all handles bound to one key share one
/// sink. Creating the in-memory sink cannot fail; a host program that
/// binds the key to a real resource reports an open failure as a
/// [`FPLoggerError::CreationFailure`] itself.
#[derive(Clone)]
pub struct FPLogger {
    key: String,
}

impl FPLogger {
    /// The destination key this handle is bound to.
    pub closed spec fn key_view(&self) -> Seq<char> {
        self.key@
    }

    /// Creates a new [`FPLogger`] bound to `filepath`, registering a sink
    /// for it: the first handle for a key creates the sink, every later
    /// one reuses it untouched.
    pub fn new(registry: &mut Registry, filepath: &str) -> (r: Result<FPLogger, FPLoggerError>)
        requires
            old(registry).wf(),
        ensures
            final(registry).wf(),
            final(registry)@ == register_step(old(registry)@, filepath@),
            r matches Ok(h) && h.key_view() == filepath@,
    {
        registry.register(filepath);
        Ok(FPLogger { key: String::from_str(filepath) })
    }

    /// Logs an info message: appends `"[INFO] {msg}\n"` to this handle's
    /// destination and flushes it. Succeeds exactly when the registry
    /// holds a sink for this handle's key.
    pub fn info(&self, registry: &mut Registry, msg: &str) -> (r: Result<(), FPLoggerError>)
        requires
            old(registry).wf(),
        ensures
            final(registry).wf(),
            r.is_ok() <==> old(registry)@.contains_key(self.key_view()),
            r.is_ok() ==> final(registry)@ == write_step(
                old(registry)@,
                self.key_view(),
                line_bytes(info_line(msg@)),
            ),
            r.is_err() ==> final(registry)@ == old(registry)@,
            r matches Err(e) ==> unregistered_write_error(e),
    {
        let formatted = format_info(msg);
        let bytes = string_bytes(&formatted);
        match registry.write(self.key.as_str(), bytes.as_slice()) {
            Ok(_) => Ok(()),
            Err(inner) => Err(FPLoggerError::LogWriteFailure(Some(inner.message()))),
        }
    }

    /// Logs many info messages as one contiguous block: each formatted as
    /// `"[INFO] {msg}\n"`, written and flushed as a group. An empty group
    /// succeeds and appends nothing.
    pub fn info_many(&self, registry: &mut Registry, msgs: &Vec<String>) -> (r: Result<
        (),
        FPLoggerError,
    >)
        requires
            old(registry).wf(),
        ensures
            final(registry).wf(),
            r.is_ok() <==> old(registry)@.contains_key(self.key_view()),
            r.is_ok() ==> final(registry)@ == write_many_step(
                old(registry)@,
                self.key_view(),
                info_lines_bytes(msgs@),
            ),
            r.is_err() ==> final(registry)@ == old(registry)@,
            r matches Err(e) ==> unregistered_write_error(e),
    {
        let chunks = format_info_many(msgs);
        proof {
            assert(chunk_views(chunks@) =~~= info_lines_bytes(msgs@));
        }
        match registry.write_many(self.key.as_str(), &chunks) {
            Ok(_) => Ok(()),
            Err(inner) => Err(FPLoggerError::LogWriteFailure(Some(inner.message()))),
        }
    }

    /// Logs an error message: appends `" [ERR] {msg}\n"` to this handle's
    /// destination and flushes it. Succeeds exactly when the registry
    /// holds a sink for this handle's key.
    pub fn err(&self, registry: &mut Registry, msg: &str) -> (r: Result<(), FPLoggerError>)
        requires
            old(registry).wf(),
        ensures
            final(registry).wf(),
            r.is_ok() <==> old(registry)@.contains_key(self.key_view()),
            r.is_ok() ==> final(registry)@ == write_step(
                old(registry)@,
                self.key_view(),
                line_bytes(err_line(msg@)),
            ),
            r.is_err() ==> final(registry)@ == old(registry)@,
            r matches Err(e) ==> unregistered_write_error(e),
    {
        let formatted = format_err(msg);
        let bytes = string_bytes(&formatted);
        match registry.write(self.key.as_str(), bytes.as_slice()) {
            Ok(_) => Ok(()),
            Err(inner) => Err(FPLoggerError::LogWriteFailure(Some(inner.message()))),
        }
    }

    /// Logs many error messages as one contiguous block: each formatted as
    /// `" [ERR] {msg}\n"`, written and flushed as a group. An empty group
    /// succeeds and appends nothing.
    pub fn err_many(&self, registry: &mut Registry, msgs: &Vec<String>) -> (r: Result<
        (),
        FPLoggerError,
    >)
        requires
            old(registry).wf(),
        ensures
            final(registry).wf(),
            r.is_ok() <==> old(registry)@.contains_key(self.key_view()),
            r.is_ok() ==> final(registry)@ == write_many_step(
                old(registry)@,
                self.key_view(),
                err_lines_bytes(msgs@),
            ),
            r.is_err() ==> final(registry)@ == old(registry)@,
            r matches Err(e) ==> unregistered_write_error(e),
    {
        let chunks = format_err_many(msgs);
        proof {
            assert(chunk_views(chunks@) =~~= err_lines_bytes(msgs@));
        }
        match registry.write_many(self.key.as_str(), &chunks) {
            Ok(_) => Ok(()),
            Err(inner) => Err(FPLoggerError::LogWriteFailure(Some(inner.message()))),
        }
    }
}

} // verus!
