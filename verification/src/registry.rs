//! The shared registry: one sink per destination key.
//!
//! The registry maps each destination key to exactly one [`Sink`].
//! Registering a key creates its sink the first time and is a no-op after
//! that, so independently created handles for the same key converge on a
//! single destination. Lookup-then-create is one operation on an
//! exclusively borrowed registry, so no two registrations of the same key
//! can both observe it as absent.
//!
//! The registry is an explicit value: a host program creates one at
//! startup and hands it to every handle call. Exclusive access comes from
//! the borrow itself, so there are no locks here and no poisoned-lock
//! failure mode; writes through one registry are serialized by
//! construction.

use vstd::prelude::*;
use vstd::string::StringExecFns;

use crate::log::LogError;
use crate::sink::empty_sink;
use crate::sink::chunk_views;
use crate::sink::Sink;
use crate::sink::SinkView;

verus! {

/// One registered destination: its key and its sink.
struct Entry {
    key: String,
    sink: Sink,
}

/// The map a sequence of entries denotes; a later entry for a key would
/// shadow an earlier one, but a registry never holds two entries for one
/// key.
spec fn entry_map(s: Seq<Entry>) -> Map<Seq<char>, SinkView>
    decreases s.len(),
{
    if s.len() == 0 {
        Map::<Seq<char>, SinkView>::empty()
    } else {
        entry_map(s.drop_last()).insert(s.last().key@, s.last().sink@)
    }
}

/// No two entries share a key.
spec fn keys_unique(s: Seq<Entry>) -> bool {
    forall|i: int, j: int|
        0 <= i < j < s.len() ==> (#[trigger] s[i]).key@ != (#[trigger] s[j]).key@
}

/// How registration transforms the registry's map: absent keys gain a
/// fresh, empty sink; present keys keep the sink they have.
pub open spec fn register_step(
    m: Map<Seq<char>, SinkView>,
    k: Seq<char>,
) -> Map<Seq<char>, SinkView> {
    if m.contains_key(k) {
        m
    } else {
        m.insert(k, empty_sink())
    }
}

/// A sink after appending `bytes` and flushing.
pub open spec fn appended(s: SinkView, bytes: Seq<u8>) -> SinkView {
    SinkView { bytes: s.bytes + bytes, flushed: s.bytes.len() + bytes.len() }
}

/// How a single write transforms the registry's map.
pub open spec fn write_step(
    m: Map<Seq<char>, SinkView>,
    k: Seq<char>,
    bytes: Seq<u8>,
) -> Map<Seq<char>, SinkView> {
    m.insert(k, appended(m[k], bytes))
}

/// How a grouped write transforms the registry's map: the chunks land as
/// one contiguous block, and an empty group changes nothing.
pub open spec fn write_many_step(
    m: Map<Seq<char>, SinkView>,
    k: Seq<char>,
    chunks: Seq<Seq<u8>>,
) -> Map<Seq<char>, SinkView> {
    if chunks.len() == 0 {
        m
    } else {
        m.insert(k, appended(m[k], chunks.flatten()))
    }
}

proof fn lemma_entry_map_contains(s: Seq<Entry>, k: Seq<char>)
    ensures
        entry_map(s).contains_key(k) <==> (exists|i: int|
            0 <= i < s.len() && (#[trigger] s[i]).key@ == k),
    decreases s.len(),
{
    if s.len() > 0 {
        lemma_entry_map_contains(s.drop_last(), k);
        if s.last().key@ == k {
            assert(s[s.len() - 1].key@ == k);
        } else {
            if exists|i: int| 0 <= i < s.len() && (#[trigger] s[i]).key@ == k {
                let i = choose|i: int| 0 <= i < s.len() && (#[trigger] s[i]).key@ == k;
                assert(s.drop_last()[i].key@ == k);
            }
            if exists|i: int| 0 <= i < s.drop_last().len() && (#[trigger] s.drop_last()[i]).key@
                == k {
                let i = choose|i: int|
                    0 <= i < s.drop_last().len() && (#[trigger] s.drop_last()[i]).key@ == k;
                assert(s[i].key@ == k);
            }
        }
    }
}

proof fn lemma_entry_map_at(s: Seq<Entry>, i: int)
    requires
        keys_unique(s),
        0 <= i < s.len(),
    ensures
        entry_map(s).contains_key(s[i].key@),
        entry_map(s)[s[i].key@] == s[i].sink@,
    decreases s.len(),
{
    if i < s.len() - 1 {
        assert(keys_unique(s.drop_last()));
        lemma_entry_map_at(s.drop_last(), i);
        assert(s.drop_last()[i] == s[i]);
        assert(s.last().key@ != s[i].key@);
    }
}

proof fn lemma_entry_map_push(s: Seq<Entry>, e: Entry)
    ensures
        entry_map(s.push(e)) == entry_map(s).insert(e.key@, e.sink@),
{
    assert(s.push(e).drop_last() =~= s);
    assert(s.push(e).last() == e);
}

proof fn lemma_entry_map_update(s: Seq<Entry>, i: int, e: Entry)
    requires
        keys_unique(s),
        0 <= i < s.len(),
        e.key@ == s[i].key@,
    ensures
        entry_map(s.update(i, e)) == entry_map(s).insert(e.key@, e.sink@),
    decreases s.len(),
{
    let s2 = s.update(i, e);
    if i == s.len() - 1 {
        assert(s2.drop_last() =~= s.drop_last());
        assert(s2.last() == e);
        assert(entry_map(s).insert(e.key@, e.sink@) =~~= entry_map(s.drop_last()).insert(
            e.key@,
            e.sink@,
        ));
    } else {
        assert(keys_unique(s.drop_last()));
        assert(s2.drop_last() =~= s.drop_last().update(i, e));
        assert(s2.last() == s.last());
        lemma_entry_map_update(s.drop_last(), i, e);
        assert(s.last().key@ != e.key@);
        assert(entry_map(s.drop_last()).insert(e.key@, e.sink@).insert(
            s.last().key@,
            s.last().sink@,
        ) =~~= entry_map(s.drop_last()).insert(s.last().key@, s.last().sink@).insert(
            e.key@,
            e.sink@,
        ));
    }
}

proof fn lemma_entry_map_dom_len(s: Seq<Entry>)
    requires
        keys_unique(s),
    ensures
        entry_map(s).dom().finite(),
        entry_map(s).dom().len() == s.len(),
    decreases s.len(),
{
    if s.len() == 0 {
        assert(entry_map(s).dom() =~= Set::<Seq<char>>::empty());
    } else {
        assert(keys_unique(s.drop_last()));
        lemma_entry_map_dom_len(s.drop_last());
        lemma_entry_map_contains(s.drop_last(), s.last().key@);
        assert forall|i: int| 0 <= i < s.drop_last().len() implies (#[trigger] s.drop_last()[
            i
        ]).key@ != s.last().key@ by {
            assert(s[i].key@ != s[s.len() - 1].key@);
        }
    }
}

/// The process-wide map from destination key to its single shared sink.
pub struct Registry {
    entries: Vec<Entry>,
}

impl View for Registry {
    type V = Map<Seq<char>, SinkView>;

    closed spec fn view(&self) -> Map<Seq<char>, SinkView> {
        entry_map(self.entries@)
    }
}

impl Registry {
    /// Every key appears once and every sink flushes at most what it has
    /// written.
    pub closed spec fn wf(&self) -> bool {
        keys_unique(self.entries@) && (forall|i: int|
            0 <= i < self.entries@.len() ==> (#[trigger] self.entries@[i]).sink.wf())
    }

    /// Creates an empty registry.
    pub fn new() -> (r: Registry)
        ensures
            r@ == Map::<Seq<char>, SinkView>::empty(),
            r.wf(),
    {
        Registry { entries: Vec::new() }
    }

    /// The position of the entry for `key`, if one is registered.
    fn find(&self, key: &String) -> (r: Option<usize>)
        ensures
            match r {
                Some(i) => i < self.entries@.len() && self.entries@[i as int].key@ == key@,
                None => forall|i: int|
                    0 <= i < self.entries@.len() ==> (#[trigger] self.entries@[i]).key@ != key@,
            },
    {
        let n = self.entries.len();
        let mut i: usize = 0;
        while i < n
            invariant
                n == self.entries@.len(),
                i <= n,
                forall|j: int| 0 <= j < i ==> (#[trigger] self.entries@[j]).key@ != key@,
            decreases n - i,
        {
            if self.entries[i].key == *key {
                return Some(i);
            }
            i += 1;
        }
        None
    }

    /// Ensures a sink exists for `key`: the first registration creates an
    /// empty one, and every later registration finds the existing sink and
    /// leaves it exactly as it is.
    pub fn register(&mut self, key: &str)
        requires
            old(self).wf(),
        ensures
            final(self).wf(),
            final(self)@ == register_step(old(self)@, key@),
    {
        let k = String::from_str(key);
        match self.find(&k) {
            Some(_) => {
                proof {
                    lemma_entry_map_contains(self.entries@, k@);
                }
            },
            None => {
                proof {
                    lemma_entry_map_contains(self.entries@, k@);
                }
                let ghost olds = self.entries@;
                let e = Entry { key: k, sink: Sink::create() };
                let ghost ev = e;
                self.entries.push(e);
                proof {
                    lemma_entry_map_push(olds, ev);
                    assert forall|i: int, j: int|
                        0 <= i < j < self.entries@.len() implies (#[trigger] self.entries@[i]).key@
                        != (#[trigger] self.entries@[j]).key@ by {
                        if j < olds.len() as int {
                            assert(olds[i].key@ != olds[j].key@);
                        } else {
                            assert(olds[i].key@ != ev.key@);
                        }
                    }
                }
            },
        }
    }

    /// Resolves `key` to its sink, appends `bytes` and flushes. Succeeds
    /// exactly when a sink is registered for `key`; otherwise nothing
    /// changes and the error names the missing registration as its cause.
    pub fn write(&mut self, key: &str, bytes: &[u8]) -> (r: Result<(), LogError>)
        requires
            old(self).wf(),
        ensures
            final(self).wf(),
            r.is_ok() <==> old(self)@.contains_key(key@),
            r.is_ok() ==> final(self)@ == write_step(old(self)@, key@, bytes@),
            r.is_err() ==> final(self)@ == old(self)@,
            r matches Err(e) ==> unknown_key_error(e),
    {
        let k = String::from_str(key);
        match self.find(&k) {
            Some(i) => {
                proof {
                    lemma_entry_map_at(self.entries@, i as int);
                }
                let ghost olds = self.entries@;
                let entry = &mut self.entries[i];
                entry.sink.append(bytes, true);
                proof {
                    let e2 = self.entries@[i as int];
                    assert(e2.key@ == k@);
                    lemma_entry_map_update(olds, i as int, e2);
                    assert(e2.sink@ =~= appended(olds[i as int].sink@, bytes@));
                    assert(entry_map(self.entries@) =~~= write_step(entry_map(olds), k@, bytes@));
                    assert forall|a: int, b: int|
                        0 <= a < b < self.entries@.len() implies (#[trigger] self.entries@[a]).key@
                        != (#[trigger] self.entries@[b]).key@ by {
                        assert(olds[a].key@ != olds[b].key@);
                    }
                }
                Ok(())
            },
            None => {
                proof {
                    lemma_entry_map_contains(self.entries@, k@);
                }
                Err(LogError::LogFileWriteError(Some(String::from_str("no log destination is registered for this key"))))
            },
        }
    }

    /// Resolves `key` to its sink and appends the whole group, flushing
    /// once after the last chunk, so the group lands as one contiguous
    /// block. An empty group succeeds without writing or flushing
    /// anything. Succeeds exactly when a sink is registered for `key`.
    pub fn write_many(&mut self, key: &str, chunks: &Vec<Vec<u8>>) -> (r: Result<(), LogError>)
        requires
            old(self).wf(),
        ensures
            final(self).wf(),
            r.is_ok() <==> old(self)@.contains_key(key@),
            r.is_ok() ==> final(self)@ == write_many_step(old(self)@, key@, chunk_views(chunks@)),
            r.is_err() ==> final(self)@ == old(self)@,
            r matches Err(e) ==> unknown_key_error(e),
    {
        let k = String::from_str(key);
        match self.find(&k) {
            Some(i) => {
                proof {
                    lemma_entry_map_at(self.entries@, i as int);
                }
                let ghost olds = self.entries@;
                let entry = &mut self.entries[i];
                entry.sink.append_grouped(chunks);
                proof {
                    let e2 = self.entries@[i as int];
                    assert(e2.key@ == k@);
                    lemma_entry_map_update(olds, i as int, e2);
                    if chunks@.len() == 0 {
                        assert(e2.sink@ == olds[i as int].sink@);
                        assert(entry_map(olds).insert(k@, e2.sink@) =~~= entry_map(olds));
                        assert(entry_map(self.entries@) =~~= write_many_step(
                            entry_map(olds),
                            k@,
                            chunk_views(chunks@),
                        ));
                    } else {
                        assert(e2.sink@ =~= appended(
                            olds[i as int].sink@,
                            chunk_views(chunks@).flatten(),
                        ));
                        assert(entry_map(self.entries@) =~~= write_many_step(
                            entry_map(olds),
                            k@,
                            chunk_views(chunks@),
                        ));
                    }
                    assert forall|a: int, b: int|
                        0 <= a < b < self.entries@.len() implies (#[trigger] self.entries@[a]).key@
                        != (#[trigger] self.entries@[b]).key@ by {
                        assert(olds[a].key@ != olds[b].key@);
                    }
                }
                Ok(())
            },
            None => {
                proof {
                    lemma_entry_map_contains(self.entries@, k@);
                }
                Err(LogError::LogFileWriteError(Some(String::from_str("no log destination is registered for this key"))))
            },
        }
    }

    /// Whether a sink is registered for `key`.
    pub fn contains(&self, key: &str) -> (b: bool)
        requires
            self.wf(),
        ensures
            b == self@.contains_key(key@),
    {
        let k = String::from_str(key);
        let r = self.find(&k);
        proof {
            lemma_entry_map_contains(self.entries@, k@);
        }
        r.is_some()
    }

    /// How many destinations are registered — one sink per key, never
    /// more.
    pub fn sink_count(&self) -> (n: usize)
        requires
            self.wf(),
        ensures
            n == self@.dom().len(),
    {
        proof {
            lemma_entry_map_dom_len(self.entries@);
        }
        self.entries.len()
    }

    /// A copy of every byte written to the sink for `key`, or nothing when
    /// no sink is registered for it.
    pub fn contents(&self, key: &str) -> (r: Option<Vec<u8>>)
        requires
            self.wf(),
        ensures
            match r {
                Some(v) => self@.contains_key(key@) && v@ == self@[key@].bytes,
                None => !self@.contains_key(key@),
            },
    {
        let k = String::from_str(key);
        match self.find(&k) {
            Some(i) => {
                proof {
                    lemma_entry_map_at(self.entries@, i as int);
                }
                let entry = &self.entries[i];
                Some(entry.sink.contents())
            },
            None => {
                proof {
                    lemma_entry_map_contains(self.entries@, k@);
                }
                None
            },
        }
    }
}

/// The cause carried by a write against an unregistered key.
pub open spec fn unknown_key_cause() -> Seq<char> {
    "no log destination is registered for this key"@
}

/// The exact error a write against an unregistered key returns.
pub open spec fn unknown_key_error(e: LogError) -> bool {
    &&& e matches LogError::LogFileWriteError(Some(c))
    &&& c@ == unknown_key_cause()
}

} // verus!
