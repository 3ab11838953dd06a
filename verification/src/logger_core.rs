//! The core write discipline shared by every logger: single appends flush
//! at once, grouped appends are concatenated and flushed as one block.
//!
//! [`LoggerCore`] is stateless; the caller supplies the destination on
//! every call, so it can back custom loggers as well as the bundled ones.

use vstd::prelude::*;

use crate::sink::chunk_views;
use crate::sink::concat_chunks;
use crate::sink::Sink;

verus! {

/// The core functionality of a logger; usable on its own to build custom
/// loggers around a [`Sink`].
pub struct LoggerCore;

impl LoggerCore {
    /// Creates a new [`LoggerCore`].
    pub fn new() -> (r: LoggerCore) {
        LoggerCore
    }

    /// Appends one message to the destination, verbatim, and flushes it.
    pub fn log(&self, destination: &mut Sink, log_message: &[u8])
        requires
            old(destination).wf(),
        ensures
            final(destination).wf(),
            final(destination)@.bytes == old(destination)@.bytes + log_message@,
            final(destination)@.flushed == final(destination)@.bytes.len(),
    {
        destination.append(log_message, true);
    }

    /// Appends the messages as one contiguous block — their concatenation,
    /// written and flushed in a single step, so nothing can stand between
    /// them on the destination. An empty group writes and flushes nothing.
    pub fn log_many(&self, destination: &mut Sink, log_messages: &Vec<Vec<u8>>)
        requires
            old(destination).wf(),
        ensures
            final(destination).wf(),
            final(destination)@.bytes == old(destination)@.bytes + chunk_views(
                log_messages@,
            ).flatten(),
            log_messages@.len() == 0 ==> final(destination)@ == old(destination)@,
            log_messages@.len() > 0 ==> final(destination)@.flushed == final(
                destination
            )@.bytes.len(),
    {
        if log_messages.len() == 0 {
            proof {
                assert(old(destination)@.bytes + chunk_views(log_messages@).flatten() =~= old(
                    destination,
                )@.bytes);
            }
            return ;
        }
        let concatenated = concat_chunks(log_messages);
        self.log(destination, concatenated.as_slice());
    }
}

} // verus!
