//! The sink: owner of one log destination, offering ordered, byte-exact
//! appends with explicit control over when the destination is flushed.
//!
//! A [`Sink`] models the destination as the sequence of bytes appended so
//! far, together with a watermark recording how much of that sequence has
//! been flushed. A host program that binds a sink to a real resource (a
//! file, a socket) forwards the bytes and performs the flushes itself.

use vstd::prelude::*;

verus! {

/// The abstract state of a [`Sink`]: every byte appended so far, and how
/// many of those bytes have been flushed.
#[verifier::ext_equal]
pub struct SinkView {
    /// All bytes appended to the destination, in order.
    pub bytes: Seq<u8>,
    /// How many leading bytes have been flushed.
    pub flushed: nat,
}

/// The state of a freshly created sink: no bytes, all of them flushed.
pub open spec fn empty_sink() -> SinkView {
    SinkView { bytes: Seq::<u8>::empty(), flushed: 0 }
}

/// The views of a sequence of byte chunks; their flattening is the exact
/// byte sequence a grouped append produces.
pub open spec fn chunk_views(chunks: Seq<Vec<u8>>) -> Seq<Seq<u8>> {
    chunks.map_values(|c: Vec<u8>| c@)
}

/// Concatenates the chunks into one byte vector, in order, with no added
/// separator.
pub fn concat_chunks(chunks: &Vec<Vec<u8>>) -> (r: Vec<u8>)
    ensures
        r@ == chunk_views(chunks@).flatten(),
{
    let mut r: Vec<u8> = Vec::new();
    let mut i: usize = 0;
    while i < chunks.len()
        invariant
            i <= chunks@.len(),
            r@ == chunk_views(chunks@.take(i as int)).flatten(),
        decreases chunks@.len() - i,
    {
        let chunk = &chunks[i];
        proof {
            assert(r@ =~= chunk_views(chunks@.take(i as int)).flatten() + chunk@.take(0));
        }
        let mut j: usize = 0;
        while j < chunk.len()
            invariant
                j <= chunk@.len(),
                i < chunks@.len(),
                chunk@ == chunks@[i as int]@,
                r@ == chunk_views(chunks@.take(i as int)).flatten() + chunk@.take(j as int),
            decreases chunk@.len() - j,
        {
            proof {
                assert(chunk@.take(j + 1) =~= chunk@.take(j as int).push(chunk@[j as int]));
            }
            r.push(chunk[j]);
            j += 1;
        }
        proof {
            assert(chunk@.take(chunk@.len() as int) =~= chunk@);
            assert(chunk_views(chunks@.take(i + 1)) =~= chunk_views(chunks@.take(i as int)).push(
                chunks@[i as int]@,
            ));
            chunk_views(chunks@.take(i as int)).lemma_flatten_push(chunks@[i as int]@);
        }
        i += 1;
    }
    proof {
        assert(chunks@.take(chunks@.len() as int) =~= chunks@);
    }
    r
}

/// One log destination. It accepts raw bytes verbatim — no framing is
/// added — and flushes only when asked to, so that a group of chunks can
/// be made visible as one block.
pub struct Sink {
    data: Vec<u8>,
    flushed: usize,
}

impl View for Sink {
    type V = SinkView;

    closed spec fn view(&self) -> SinkView {
        SinkView { bytes: self.data@, flushed: self.flushed as nat }
    }
}

impl Sink {
    /// A sink never flushes more than it has written.
    pub open spec fn wf(&self) -> bool {
        self@.flushed <= self@.bytes.len()
    }

    /// Creates a sink whose destination starts out empty, matching
    /// create-or-truncate semantics: whatever the destination held before
    /// is gone.
    pub fn create() -> (s: Sink)
        ensures
            s@ == empty_sink(),
            s.wf(),
    {
        Sink { data: Vec::new(), flushed: 0 }
    }

    /// Appends `bytes` verbatim; flushes everything written so far when
    /// `flush` is true, and otherwise leaves the flush watermark alone.
    pub fn append(&mut self, bytes: &[u8], flush: bool)
        requires
            old(self).wf(),
        ensures
            final(self).wf(),
            final(self)@.bytes == old(self)@.bytes + bytes@,
            final(self)@.flushed == if flush {
                final(self)@.bytes.len()
            } else {
                old(self)@.flushed
            },
    {
        let mut j: usize = 0;
        while j < bytes.len()
            invariant
                j <= bytes@.len(),
                self.data@ == old(self).data@ + bytes@.take(j as int),
                self.flushed == old(self).flushed,
                old(self).wf(),
            decreases bytes@.len() - j,
        {
            proof {
                assert(bytes@.take(j + 1) =~= bytes@.take(j as int).push(bytes@[j as int]));
            }
            self.data.push(bytes[j]);
            j += 1;
        }
        proof {
            assert(bytes@.take(bytes@.len() as int) =~= bytes@);
        }
        if flush {
            self.flushed = self.data.len();
        }
    }

    /// Appends each chunk in order and flushes once, after the last one,
    /// so the whole group becomes visible as one contiguous block. An
    /// empty group is a no-op: nothing is written and nothing is flushed.
    pub fn append_grouped(&mut self, chunks: &Vec<Vec<u8>>)
        requires
            old(self).wf(),
        ensures
            final(self).wf(),
            final(self)@.bytes == old(self)@.bytes + chunk_views(chunks@).flatten(),
            chunks@.len() == 0 ==> final(self)@ == old(self)@,
            chunks@.len() > 0 ==> final(self)@.flushed == final(self)@.bytes.len(),
    {
        let n = chunks.len();
        let mut i: usize = 0;
        while i < n
            invariant
                n == chunks@.len(),
                i <= n,
                self.wf(),
                self@.bytes == old(self)@.bytes + chunk_views(chunks@.take(i as int)).flatten(),
                i == 0 ==> self@ == old(self)@,
                i < n ==> self@.flushed == old(self)@.flushed,
                i == n && n > 0 ==> self@.flushed == self@.bytes.len(),
            decreases n - i,
        {
            let is_last = i == n - 1;
            proof {
                assert(chunk_views(chunks@.take(i + 1)) =~= chunk_views(
                    chunks@.take(i as int),
                ).push(chunks@[i as int]@));
                chunk_views(chunks@.take(i as int)).lemma_flatten_push(chunks@[i as int]@);
            }
            self.append(chunks[i].as_slice(), is_last);
            i += 1;
        }
        proof {
            assert(chunks@.take(n as int) =~= chunks@);
        }
    }

    /// A copy of every byte appended so far.
    pub fn contents(&self) -> (r: Vec<u8>)
        ensures
            r@ == self@.bytes,
    {
        let mut r: Vec<u8> = Vec::new();
        let mut j: usize = 0;
        while j < self.data.len()
            invariant
                j <= self.data@.len(),
                r@ == self.data@.take(j as int),
            decreases self.data@.len() - j,
        {
            proof {
                assert(self.data@.take(j + 1) =~= self.data@.take(j as int).push(
                    self.data@[j as int],
                ));
            }
            r.push(self.data[j]);
            j += 1;
        }
        proof {
            assert(self.data@.take(self.data@.len() as int) =~= self.data@);
        }
        r
    }

    /// How many leading bytes have been flushed.
    pub fn flushed_len(&self) -> (n: usize)
        ensures
            n == self@.flushed,
    {
        self.flushed
    }
}

} // verus!
