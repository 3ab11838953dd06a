//! The guarantees the registry and the sinks give their callers, stated
//! and proved over the same map transformers the contracts use.

use vstd::prelude::*;

use crate::registry::register_step;
use crate::registry::write_many_step;
use crate::registry::write_step;
use crate::sink::empty_sink;
use crate::sink::SinkView;

verus! {

/// Applies a whole sequence of registrations, in order.
pub open spec fn register_all(
    m: Map<Seq<char>, SinkView>,
    keys: Seq<Seq<char>>,
) -> Map<Seq<char>, SinkView>
    decreases keys.len(),
{
    if keys.len() == 0 {
        m
    } else {
        register_all(register_step(m, keys.first()), keys.drop_first())
    }
}

/// Registration is idempotent: registering a key makes it present, a
/// repeated registration changes nothing, and the sink for the key is the
/// one it had before — or a fresh, empty one the first time. In
/// particular, a second registration never truncates the destination.
pub proof fn lemma_register_idempotent(m: Map<Seq<char>, SinkView>, k: Seq<char>)
    ensures
        register_step(m, k).contains_key(k),
        register_step(register_step(m, k), k) == register_step(m, k),
        m.contains_key(k) ==> register_step(m, k) == m,
        register_step(m, k)[k] == if m.contains_key(k) {
            m[k]
        } else {
            empty_sink()
        },
{
}

/// The single-sink guarantee: once a key has a sink, no sequence of
/// further registrations — of this key or any other — replaces or resets
/// it; the one destination opened for the key is the one every handle
/// keeps writing to.
pub proof fn lemma_single_sink(m: Map<Seq<char>, SinkView>, keys: Seq<Seq<char>>, k: Seq<char>)
    requires
        m.contains_key(k),
    ensures
        register_all(m, keys).contains_key(k),
        register_all(m, keys)[k] == m[k],
    decreases keys.len(),
{
    if keys.len() > 0 {
        lemma_register_idempotent(m, keys.first());
        lemma_single_sink(register_step(m, keys.first()), keys.drop_first(), k);
    }
}

/// Different keys are independent: neither registering `a` nor writing to
/// it touches the sink of any other key `b`.
pub proof fn lemma_different_key_independence(
    m: Map<Seq<char>, SinkView>,
    a: Seq<char>,
    b: Seq<char>,
    bytes: Seq<u8>,
    chunks: Seq<Seq<u8>>,
)
    requires
        a != b,
    ensures
        register_step(m, a).contains_key(b) == m.contains_key(b),
        write_step(m, a, bytes).contains_key(b) == m.contains_key(b),
        write_many_step(m, a, chunks).contains_key(b) == m.contains_key(b),
        m.contains_key(b) ==> register_step(m, a)[b] == m[b],
        m.contains_key(b) ==> write_step(m, a, bytes)[b] == m[b],
        m.contains_key(b) ==> write_many_step(m, a, chunks)[b] == m[b],
{
}

/// A grouped write is one contiguous block: the destination afterwards is
/// exactly what it held before, followed by the concatenation of the
/// group's chunks — no other bytes stand between or inside them.
pub proof fn lemma_group_contiguous(
    m: Map<Seq<char>, SinkView>,
    k: Seq<char>,
    chunks: Seq<Seq<u8>>,
)
    requires
        chunks.len() > 0,
    ensures
        write_many_step(m, k, chunks)[k].bytes == m[k].bytes + chunks.flatten(),
        write_many_step(m, k, chunks)[k].bytes.subrange(
            m[k].bytes.len() as int,
            write_many_step(m, k, chunks)[k].bytes.len() as int,
        ) == chunks.flatten(),
{
    assert(write_many_step(m, k, chunks)[k].bytes.subrange(
        m[k].bytes.len() as int,
        write_many_step(m, k, chunks)[k].bytes.len() as int,
    ) =~= chunks.flatten());
}

/// No interleaving within a group: however a competing single write to
/// the same key is ordered around a grouped write, it lands wholly before
/// or wholly after the group — never inside it.
pub proof fn lemma_no_interleaving(
    m: Map<Seq<char>, SinkView>,
    k: Seq<char>,
    chunks: Seq<Seq<u8>>,
    other: Seq<u8>,
)
    requires
        chunks.len() > 0,
    ensures
        write_step(write_many_step(m, k, chunks), k, other)[k].bytes == m[k].bytes
            + chunks.flatten() + other,
        write_many_step(write_step(m, k, other), k, chunks)[k].bytes == m[k].bytes + other
            + chunks.flatten(),
{
}

/// Destinations are append-only: no registration and no write — to this
/// key or any other — disturbs the bytes a destination already holds;
/// they stay in place as a prefix, and a block once contiguous stays
/// contiguous.
pub proof fn lemma_append_only(
    m: Map<Seq<char>, SinkView>,
    k: Seq<char>,
    a: Seq<char>,
    bytes: Seq<u8>,
    chunks: Seq<Seq<u8>>,
)
    requires
        m.contains_key(k),
    ensures
        register_step(m, a).contains_key(k),
        write_step(m, a, bytes).contains_key(k),
        write_many_step(m, a, chunks).contains_key(k),
        m[k].bytes.is_prefix_of(register_step(m, a)[k].bytes),
        m[k].bytes.is_prefix_of(write_step(m, a, bytes)[k].bytes),
        m[k].bytes.is_prefix_of(write_many_step(m, a, chunks)[k].bytes),
{
    assert(m[k].bytes.is_prefix_of(m[k].bytes + bytes)) by {
        assert(m[k].bytes =~= (m[k].bytes + bytes).take(m[k].bytes.len() as int));
    }
    assert(m[k].bytes.is_prefix_of(m[k].bytes + chunks.flatten())) by {
        assert(m[k].bytes =~= (m[k].bytes + chunks.flatten()).take(m[k].bytes.len() as int));
    }
    assert(m[k].bytes.is_prefix_of(m[k].bytes));
}

/// An empty group is a no-op: it changes no sink and flushes nothing.
pub proof fn lemma_empty_group_noop(m: Map<Seq<char>, SinkView>, k: Seq<char>)
    ensures
        write_many_step(m, k, Seq::<Seq<u8>>::empty()) == m,
{
}

} // verus!
