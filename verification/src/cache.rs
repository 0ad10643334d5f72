//! The cache-or-compute orchestrator.
//!
//! A lookup first tries the durable store; only a fully readable entry is a
//! hit. On a miss the fallback computation runs; its successful text is
//! persisted and returned, its failure is wrapped as a `Callback` error and
//! nothing is stored. The store itself is modelled here as a map from key to
//! text; the surrounding program keeps that map on disk, one file per key,
//! and drives the same decision functions.

use vstd::prelude::*;

verus! {

/// Errors of the cache-or-compute pipeline.
#[derive(Debug)]
pub enum CacheError {
    /// The durable store failed (root creation or entry write): fatal.
    Io(String),
    /// The fallback computation failed; holds its rendered message.
    Callback(String),
}

/// Outcome of attempting to read a durable entry for a key.
#[derive(Debug)]
pub enum ReadAttempt {
    /// An entry was found and its whole contents were read.
    Readable(String),
    /// No entry, or the entry could not be opened or fully read.
    Unreadable,
}

/// The orchestrator's decision after the read attempt.
#[derive(Debug)]
pub enum LookupStep {
    /// Serve these bytes; the fallback computation must not run.
    Hit(String),
    /// Run the fallback computation.
    Miss,
}

/// The read-failure policy: only a fully readable entry is a hit; any open
/// or partial-read failure is treated as "not cached yet", never surfaced
/// as an error of its own.
pub fn classify_read(attempt: ReadAttempt) -> (step: LookupStep)
    ensures
        attempt matches ReadAttempt::Readable(v) ==> step == LookupStep::Hit(v),
        attempt is Unreadable ==> step is Miss,
{
    match attempt {
        ReadAttempt::Readable(v) => LookupStep::Hit(v),
        ReadAttempt::Unreadable => LookupStep::Miss,
    }
}

/// The write policy after a successful computation on a cold key: the value
/// is served only when persisting it succeeded; a persistence failure is
/// fatal even though the computed value is known good.
pub fn settle_write(value: String, wrote: Result<(), String>) -> (r: Result<String, CacheError>)
    ensures
        wrote is Ok ==> (r matches Ok(v) && v == value),
        wrote matches Err(m) ==> (r matches Err(e) && e == CacheError::Io(m)),
{
    match wrote {
        Ok(()) => Ok(value),
        Err(m) => Err(CacheError::Io(m)),
    }
}

/// The store as the orchestrator sees it: at most one entry per key. A later
/// write for the same key overrides an earlier one.
pub open spec fn entries_map(s: Seq<(String, String)>) -> Map<Seq<char>, Seq<char>>
    decreases s.len(),
{
    if s.len() == 0 {
        Map::empty()
    } else {
        entries_map(s.drop_last()).insert(s.last().0@, s.last().1@)
    }
}

/// An in-memory image of the durable store: the entries in write order,
/// viewed as the map where the latest write per key wins.
pub struct CacheState {
    entries: Vec<(String, String)>,
}

impl View for CacheState {
    type V = Map<Seq<char>, Seq<char>>;

    closed spec fn view(&self) -> Map<Seq<char>, Seq<char>> {
        entries_map(self.entries@)
    }
}

proof fn lemma_unmatched_suffix(s: Seq<(String, String)>, k: Seq<char>, i: int)
    requires
        0 <= i <= s.len(),
        forall|j: int| i <= j < s.len() ==> s[j].0@ != k,
    ensures
        entries_map(s).contains_key(k) == entries_map(s.take(i)).contains_key(k),
        entries_map(s).contains_key(k) ==> entries_map(s)[k] == entries_map(s.take(i))[k],
    decreases s.len() - i,
{
    if i < s.len() {
        let shorter = s.take(s.len() - 1);
        assert(s.drop_last() == shorter);
        lemma_unmatched_suffix(shorter, k, i);
        assert(shorter.take(i) =~= s.take(i));
    } else {
        assert(s.take(i) =~= s);
    }
}

impl CacheState {
    /// An empty store.
    pub fn new() -> (c: CacheState)
        ensures
            c@ == Map::<Seq<char>, Seq<char>>::empty(),
    {
        CacheState { entries: Vec::new() }
    }

    /// Reads the entry for `key`, if one exists.
    pub fn read(&self, key: &str) -> (r: Option<String>)
        ensures
            self@.contains_key(key@) ==> (r matches Some(v) && v@ == self@[key@]),
            !self@.contains_key(key@) ==> r is None,
    {
        let k: String = key.to_owned();
        let mut i: usize = self.entries.len();
        while i > 0
            invariant
                k@ == key@,
                i <= self.entries@.len(),
                forall|j: int| i <= j < self.entries@.len() ==> self.entries@[j].0@ != key@,
            decreases i,
        {
            i = i - 1;
            if self.entries[i].0 == k {
                proof {
                    let s = self.entries@;
                    lemma_unmatched_suffix(s, key@, i + 1);
                    assert(s.take(i + 1).drop_last() == s.take(i as int));
                    assert(s.take(i + 1).last() == s[i as int]);
                }
                return Some(self.entries[i].1.clone());
            }
        }
        proof {
            lemma_unmatched_suffix(self.entries@, key@, 0);
            assert(self.entries@.take(0) =~= Seq::<(String, String)>::empty());
        }
        None
    }

    /// Persists `value` under `key`, overriding any earlier entry.
    pub fn write(&mut self, key: &str, value: String)
        ensures
            final(self)@ == old(self)@.insert(key@, value@),
    {
        let k: String = key.to_owned();
        let ghost pair_view = (k@, value@);
        self.entries.push((k, value));
        proof {
            assert(self.entries@.drop_last() =~= old(self).entries@);
            assert(self.entries@.last().0@ == pair_view.0);
            assert(self.entries@.last().1@ == pair_view.1);
        }
    }
}

/// What a lookup decides before any computation runs: a readable entry is
/// served as it stands, anything else falls through to the computation.
pub fn begin_lookup(cache: &CacheState, key: &str) -> (step: LookupStep)
    ensures
        cache@.contains_key(key@) ==> (step matches LookupStep::Hit(v) && v@ == cache@[key@]),
        !cache@.contains_key(key@) ==> step is Miss,
{
    match cache.read(key) {
        Some(v) => LookupStep::Hit(v),
        None => LookupStep::Miss,
    }
}

/// Completes a lookup after a miss: a successful computation is persisted
/// and served; a failed one is wrapped as a `Callback` error and nothing is
/// stored.
pub fn finish_lookup(cache: &mut CacheState, key: &str, computed: Result<String, String>) -> (r:
    Result<String, CacheError>)
    ensures
        computed matches Ok(v) ==> (r matches Ok(rv) && rv == v && final(cache)@ == old(
        cache)@.insert(key@, v@)),
        computed matches Err(m) ==> (r matches Err(e) && e == CacheError::Callback(m) && *final(
        cache) == *old(cache)),
{
    match computed {
        Ok(v) => {
            cache.write(key, v.clone());
            Ok(v)
        },
        Err(m) => Err(CacheError::Callback(m)),
    }
}

/// The value a full lookup returns over the store `m`: the stored bytes on a
/// hit, otherwise whatever the computation produced, its failure kept as a
/// failure.
pub open spec fn flow_value(
    m: Map<Seq<char>, Seq<char>>,
    k: Seq<char>,
    computed: Result<Seq<char>, Seq<char>>,
) -> Result<Seq<char>, Seq<char>> {
    if m.contains_key(k) {
        Ok(m[k])
    } else {
        computed
    }
}

/// The store a full lookup leaves behind: unchanged on a hit and on a failed
/// computation; extended by the computed value on a successful miss.
pub open spec fn flow_store(
    m: Map<Seq<char>, Seq<char>>,
    k: Seq<char>,
    computed: Result<Seq<char>, Seq<char>>,
) -> Map<Seq<char>, Seq<char>> {
    if m.contains_key(k) {
        m
    } else {
        match computed {
            Ok(v) => m.insert(k, v),
            Err(_) => m,
        }
    }
}

/// The view of a computation outcome whose success and failure both carry
/// text.
pub open spec fn text_result_view(c: Result<String, String>) -> Result<Seq<char>, Seq<char>> {
    match c {
        Ok(v) => Ok(v@),
        Err(m) => Err(m@),
    }
}

/// The whole pipeline over the in-memory store image: serve a readable
/// entry; otherwise serve and persist the computed value, or return its
/// failure as a `Callback` error and persist nothing. `computed` stands for
/// what the fallback computation would produce for `key`; on a hit it is
/// ignored, as the computation is never run.
pub fn get_cached_or_compute(cache: &mut CacheState, key: &str, computed: Result<String, String>)
    -> (r: Result<String, CacheError>)
    ensures
        final(cache)@ == flow_store(old(cache)@, key@, text_result_view(computed)),
        flow_value(old(cache)@, key@, text_result_view(computed)) matches Ok(v) ==> (r matches Ok(rv) && rv@ == v),
        flow_value(old(cache)@, key@, text_result_view(computed)) matches Err(m) ==> (r matches Err(e)
            && e matches CacheError::Callback(msg) && msg@ == m),
{
    match begin_lookup(cache, key) {
        LookupStep::Hit(v) => Ok(v),
        LookupStep::Miss => finish_lookup(cache, key, computed),
    }
}

/// Cache-hit purity: when an entry exists for `k`, the pipeline returns
/// exactly its bytes and leaves the store unchanged, whatever the fallback
/// computation would have produced.
pub proof fn lemma_cache_hit_purity(
    m: Map<Seq<char>, Seq<char>>,
    k: Seq<char>,
    computed: Result<Seq<char>, Seq<char>>,
)
    requires
        m.contains_key(k),
    ensures
        flow_value(m, k, computed) == Ok::<Seq<char>, Seq<char>>(m[k]),
        flow_store(m, k, computed) == m,
{
}

/// Cache-miss persistence: after a successful computation on a cold key,
/// a later lookup for the same key is a hit on the stored value — even when
/// its own computation would fail.
pub proof fn lemma_miss_persistence(
    m: Map<Seq<char>, Seq<char>>,
    k: Seq<char>,
    v: Seq<char>,
    later: Result<Seq<char>, Seq<char>>,
)
    requires
        !m.contains_key(k),
    ensures
        flow_value(m, k, Ok(v)) == Ok::<Seq<char>, Seq<char>>(v),
        flow_store(m, k, Ok(v)).contains_key(k),
        flow_value(flow_store(m, k, Ok(v)), k, later) == Ok::<Seq<char>, Seq<char>>(v),
        flow_store(flow_store(m, k, Ok(v)), k, later) == flow_store(m, k, Ok(v)),
{
}

/// Miss-then-failure leaves no entry: a failed computation on a cold key
/// stores nothing, so the key is still absent afterwards.
pub proof fn lemma_failure_leaves_no_entry(m: Map<Seq<char>, Seq<char>>, k: Seq<char>, e: Seq<char>)
    requires
        !m.contains_key(k),
    ensures
        flow_store(m, k, Err(e)) == m,
        !flow_store(m, k, Err(e)).contains_key(k),
        flow_value(m, k, Err(e)) == Err::<Seq<char>, Seq<char>>(e),
{
}

} // verus!
