//! Tiered key/value lookup engine.
//!
//! A `TransactionKeyValueStore` wraps one backend (anything implementing
//! `TransactionKeyValueStoreTrait`) and records per-kind observability
//! counters around each batched lookup. A `FallbackTransactionKVStore`
//! composes two such stores: it queries the primary once, collects the keys
//! the primary missed, queries the fallback once with exactly those keys, and
//! writes each fallback answer back into the position the key came from.

use vstd::prelude::*;

verus! {

/// Key for a transaction or for its effects: a 32-byte digest.
#[derive(Debug, Clone, Copy, PartialEq, Eq)]
pub struct TransactionDigest(pub [u8; 32]);

/// Key for a transaction's events: a 32-byte digest.
#[derive(Debug, Clone, Copy, PartialEq, Eq)]
pub struct TransactionEventsDigest(pub [u8; 32]);

/// A stored transaction, kept as its serialized bytes.
#[derive(Debug, Clone, PartialEq, Eq)]
pub struct Transaction(pub Vec<u8>);

/// A stored transaction-effects record, kept as its serialized bytes.
#[derive(Debug, Clone, PartialEq, Eq)]
pub struct TransactionEffects(pub Vec<u8>);

/// A stored transaction-events record, kept as its serialized bytes.
#[derive(Debug, Clone, PartialEq, Eq)]
pub struct TransactionEvents(pub Vec<u8>);

/// Errors surfaced by the lookup engine and its backends.
#[derive(Debug, Clone, Copy, PartialEq, Eq)]
pub enum SuiError {
    /// A single-key convenience lookup found no transaction for the digest.
    TransactionNotFound { digest: TransactionDigest },
    /// A single-key convenience lookup found no events for the digest.
    TransactionEventsNotFound { digest: TransactionEventsDigest },
    /// A backend's batched query failed as a whole (timeout, connection
    /// fault); the caller must not read any absence out of this call.
    Storage,
}

pub type SuiResult<T> = Result<T, SuiError>;

/// One batch of results: positionally aligned values for the three key kinds.
pub type KvResults = (Vec<Option<Transaction>>, Vec<Option<TransactionEffects>>, Vec<Option<TransactionEvents>>);

/// Batch-get contract every storage tier implements: one round trip answers
/// all three key slices, each result positionally aligned with its keys.
pub trait TransactionKeyValueStoreTrait {
    fn multi_get(
        &mut self,
        transactions: &Vec<TransactionDigest>,
        effects: &Vec<TransactionDigest>,
        events: &Vec<TransactionEventsDigest>,
    ) -> (r: SuiResult<KvResults>)
        ensures
            r matches Ok(t) ==> t.0@.len() == transactions@.len() && t.1@.len() == effects@.len()
                && t.2@.len() == events@.len(),
    ;
}

/// Saturating sum, the arithmetic every observability counter uses.
pub open spec fn sat_add(a: int, b: int) -> u64 {
    if a + b <= u64::MAX { (a + b) as u64 } else { u64::MAX }
}

fn sat_add_u64(a: u64, b: u64) -> (r: u64)
    ensures
        r == sat_add(a as int, b as int),
{
    if a <= u64::MAX - b {
        a + b
    } else {
        u64::MAX
    }
}

/// Per-store observability counters, one field per (metric, key kind).
/// The sums and counts stand for the latency and batch-size histograms.
#[derive(Debug, Clone, Copy, PartialEq, Eq, Structural)]
pub struct KeyValueStoreMetrics {
    pub num_fetches_latency_ms_sum: u64,
    pub num_fetches_latency_ms_count: u64,
    pub num_fetches_batch_size_sum: u64,
    pub num_fetches_batch_size_count: u64,
    pub num_fetches_success_tx: u64,
    pub num_fetches_success_fx: u64,
    pub num_fetches_success_events: u64,
    pub num_fetches_not_found_tx: u64,
    pub num_fetches_not_found_fx: u64,
    pub num_fetches_not_found_events: u64,
    pub num_fetches_error_tx: u64,
    pub num_fetches_error_fx: u64,
    pub num_fetches_error_events: u64,
}

impl KeyValueStoreMetrics {
    /// A fresh sink with every counter at zero.
    pub fn new() -> (r: KeyValueStoreMetrics)
        ensures
            r == KeyValueStoreMetrics::spec_zero(),
    {
        KeyValueStoreMetrics {
            num_fetches_latency_ms_sum: 0,
            num_fetches_latency_ms_count: 0,
            num_fetches_batch_size_sum: 0,
            num_fetches_batch_size_count: 0,
            num_fetches_success_tx: 0,
            num_fetches_success_fx: 0,
            num_fetches_success_events: 0,
            num_fetches_not_found_tx: 0,
            num_fetches_not_found_fx: 0,
            num_fetches_not_found_events: 0,
            num_fetches_error_tx: 0,
            num_fetches_error_fx: 0,
            num_fetches_error_events: 0,
        }
    }

    pub open spec fn spec_zero() -> KeyValueStoreMetrics {
        KeyValueStoreMetrics {
            num_fetches_latency_ms_sum: 0,
            num_fetches_latency_ms_count: 0,
            num_fetches_batch_size_sum: 0,
            num_fetches_batch_size_count: 0,
            num_fetches_success_tx: 0,
            num_fetches_success_fx: 0,
            num_fetches_success_events: 0,
            num_fetches_not_found_tx: 0,
            num_fetches_not_found_fx: 0,
            num_fetches_not_found_events: 0,
            num_fetches_error_tx: 0,
            num_fetches_error_fx: 0,
            num_fetches_error_events: 0,
        }
    }
}

/// How many positions of a result slice are absent.
pub open spec fn spec_count_nones<T>(s: Seq<Option<T>>) -> nat
    decreases s.len(),
{
    if s.len() == 0 {
        0
    } else {
        spec_count_nones(s.drop_last()) + if s.last() is None {
            1nat
        } else {
            0nat
        }
    }
}

fn count_nones<T>(v: &Vec<Option<T>>) -> (r: u64)
    ensures
        r == spec_count_nones(v@),
        r <= v@.len(),
{
    let mut r: u64 = 0;
    let mut i: usize = 0;
    while i < v.len()
        invariant
            i <= v@.len(),
            r == spec_count_nones(v@.take(i as int)),
            r <= i,
        decreases v@.len() - i,
    {
        proof {
            assert(v@.take(i + 1).drop_last() =~= v@.take(i as int));
            assert(v@.take(i + 1).last() == v@[i as int]);
        }
        if v[i].is_none() {
            r = r + 1;
        }
        i = i + 1;
    }
    proof {
        assert(v@.take(v@.len() as int) =~= v@);
    }
    r
}

/// The positions, in ascending order, at which a result slice is absent.
pub open spec fn miss_indices<T>(s: Seq<Option<T>>) -> Seq<usize>
    decreases s.len(),
{
    if s.len() == 0 {
        Seq::empty()
    } else {
        let prefix = miss_indices(s.drop_last());
        if s.last() is None {
            prefix.push((s.len() - 1) as usize)
        } else {
            prefix
        }
    }
}

/// What `miss_indices` lists: exactly the absent positions, each once,
/// strictly ascending.
pub proof fn lemma_miss_indices_correct<T>(s: Seq<Option<T>>)
    requires
        s.len() <= usize::MAX,
    ensures
        forall|j: int|
            0 <= j < miss_indices(s).len() ==> miss_indices(s)[j] < s.len() && s[miss_indices(
                s,
            )[j] as int] is None,
        forall|i: int| 0 <= i < s.len() && s[i] is None ==> miss_indices(s).contains(i as usize),
        forall|i: int| 0 <= i < s.len() && s[i] is Some ==> !miss_indices(s).contains(i as usize),
        forall|j1: int, j2: int|
            0 <= j1 < j2 < miss_indices(s).len() ==> miss_indices(s)[j1] < miss_indices(s)[j2],
    decreases s.len(),
{
    if s.len() > 0 {
        let dl = s.drop_last();
        lemma_miss_indices_correct(dl);
        assert(forall|i: int| 0 <= i < dl.len() ==> dl[i] == s[i]);
        let m = miss_indices(s);
        let mp = miss_indices(dl);
        if s.last() is None {
            assert(m == mp.push((s.len() - 1) as usize));
            assert forall|j: int| 0 <= j < m.len() implies m[j] < s.len() && s[m[j] as int] is None by {
                if j < mp.len() {
                    assert(m[j] == mp[j]);
                    assert(dl[mp[j] as int] is None);
                } else {
                    assert(m[j] == (s.len() - 1) as usize);
                }
            }
            assert forall|i: int| 0 <= i < s.len() && s[i] is None implies m.contains(
                i as usize,
            ) by {
                if i < s.len() - 1 {
                    let j = choose|j: int| 0 <= j < mp.len() && mp[j] == i as usize;
                    assert(m[j] == i as usize);
                } else {
                    assert(m.last() == i as usize);
                }
            }
            assert forall|i: int| 0 <= i < s.len() && s[i] is Some implies !m.contains(
                i as usize,
            ) by {
                if m.contains(i as usize) {
                    let j = choose|j: int| 0 <= j < m.len() && m[j] == i as usize;
                    assert(s[m[j] as int] is None);
                }
            }
        } else {
            assert(m == mp);
            assert forall|j: int| 0 <= j < m.len() implies m[j] < s.len() && s[m[j] as int] is None by {
                assert(dl[mp[j] as int] is None);
            }
            assert forall|i: int| 0 <= i < s.len() && s[i] is None implies m.contains(
                i as usize,
            ) by {
                assert(i < dl.len());
                let j = choose|j: int| 0 <= j < mp.len() && mp[j] == i as usize;
                assert(m[j] == i as usize);
            }
            assert forall|i: int| 0 <= i < s.len() && s[i] is Some implies !m.contains(
                i as usize,
            ) by {
                if m.contains(i as usize) {
                    let j = choose|j: int| 0 <= j < m.len() && m[j] == i as usize;
                    assert(s[m[j] as int] is None);
                }
            }
        }
    }
}

/// No misses at all: a slice the primary fully answered contributes no
/// fallback keys, so a fully answered batch issues no fallback query.
pub proof fn lemma_all_hits_no_misses<T>(s: Seq<Option<T>>)
    requires
        forall|i: int| 0 <= i < s.len() ==> s[i] is Some,
    ensures
        miss_indices(s).len() == 0,
    decreases s.len(),
{
    if s.len() > 0 {
        let dl = s.drop_last();
        assert(forall|i: int| 0 <= i < dl.len() ==> dl[i] == s[i]);
        lemma_all_hits_no_misses(dl);
    }
}

/// How the merged batch relates to the two tiers' answers: a position the
/// primary answered keeps the primary's value; a position the primary missed
/// carries the fallback's answer for exactly that key's slot, so a key absent
/// from both tiers stays absent and a key only the fallback knows appears at
/// its original position.
pub proof fn lemma_fallback_merge<T>(
    primary: Seq<Option<T>>,
    fallback: Seq<Option<T>>,
    merged: Seq<Option<T>>,
)
    requires
        primary.len() <= usize::MAX,
        fallback.len() == miss_indices(primary).len(),
        merged.len() == primary.len(),
        forall|j: int|
            0 <= j < miss_indices(primary).len() ==> merged[miss_indices(primary)[j] as int]
                == fallback[j],
        forall|i: int|
            0 <= i < merged.len() && !miss_indices(primary).contains(i as usize) ==> merged[i]
                == primary[i],
    ensures
        forall|i: int| 0 <= i < primary.len() && primary[i] is Some ==> merged[i] == primary[i],
        forall|i: int|
            0 <= i < primary.len() && primary[i] is None ==> exists|j: int|
                0 <= j < fallback.len() && miss_indices(primary)[j] == i as usize && merged[i]
                    == fallback[j],
{
    lemma_miss_indices_correct(primary);
    assert forall|i: int| 0 <= i < primary.len() && primary[i] is None implies exists|j: int|
        0 <= j < fallback.len() && miss_indices(primary)[j] == i as usize && merged[i] == fallback[j] by {
        let m = miss_indices(primary);
        let j = choose|j: int| 0 <= j < m.len() && m[j] == i as usize;
        assert(merged[m[j] as int] == fallback[j]);
    }
}

/// Collect the keys at the positions a result slice left absent, together
/// with those positions.
pub fn find_fallback<T, K: Copy>(values: &Vec<Option<T>>, keys: &Vec<K>) -> (r: (Vec<K>, Vec<
    usize,
>))
    requires
        values@.len() == keys@.len(),
    ensures
        r.1@ == miss_indices(values@),
        r.0@.len() == r.1@.len(),
        forall|j: int| 0 <= j < r.1@.len() ==> r.0@[j] == keys@[r.1@[j] as int],
{
    let mut fallback_keys: Vec<K> = Vec::new();
    let mut fallback_indices: Vec<usize> = Vec::new();
    let mut i: usize = 0;
    while i < values.len()
        invariant
            i <= values@.len(),
            values@.len() == keys@.len(),
            fallback_indices@ == miss_indices(values@.take(i as int)),
            fallback_keys@.len() == fallback_indices@.len(),
            forall|j: int|
                0 <= j < fallback_indices@.len() ==> fallback_keys@[j] == keys@[fallback_indices@[j] as int],
        decreases values@.len() - i,
    {
        proof {
            assert(values@.take(i + 1).drop_last() =~= values@.take(i as int));
            assert(values@.take(i + 1).last() == values@[i as int]);
            lemma_miss_indices_correct(values@.take(i as int));
        }
        if values[i].is_none() {
            fallback_keys.push(keys[i]);
            fallback_indices.push(i);
        }
        i = i + 1;
    }
    proof {
        assert(values@.take(values@.len() as int) =~= values@);
    }
    (fallback_keys, fallback_indices)
}

/// Write each fallback answer back into the original position its key was
/// missed at; every other position keeps its value.
pub fn merge_res<T>(values: &mut Vec<Option<T>>, fallback_values: Vec<Option<T>>, indices: &Vec<
    usize,
>)
    requires
        indices@.len() == fallback_values@.len(),
        forall|j: int| 0 <= j < indices@.len() ==> indices@[j] < old(values)@.len(),
        forall|j1: int, j2: int| 0 <= j1 < j2 < indices@.len() ==> indices@[j1] != indices@[j2],
    ensures
        final(values)@.len() == old(values)@.len(),
        forall|j: int|
            0 <= j < indices@.len() ==> final(values)@[indices@[j] as int] == fallback_values@[j],
        forall|i: int|
            0 <= i < final(values)@.len() && !indices@.contains(i as usize) ==> final(values)@[i]
                == old(values)@[i],
{
    let mut fallback_values = fallback_values;
    let ghost all_fallback = fallback_values@;
    let mut j: usize = 0;
    while j < indices.len()
        invariant
            j <= indices@.len(),
            indices@.len() == all_fallback.len(),
            fallback_values@ == all_fallback.skip(j as int),
            forall|k: int| 0 <= k < indices@.len() ==> indices@[k] < values@.len(),
            forall|k1: int, k2: int| 0 <= k1 < k2 < indices@.len() ==> indices@[k1] != indices@[k2],
            values@.len() == old(values)@.len(),
            forall|k: int| 0 <= k < j ==> values@[indices@[k] as int] == all_fallback[k],
            forall|i: int|
                0 <= i < values@.len() && !indices@.contains(i as usize) ==> values@[i] == old(
                    values,
                )@[i],
            forall|k: int| j <= k < indices@.len() ==> values@[indices@[k] as int] == old(values)@[indices@[k] as int],
        decreases indices@.len() - j,
    {
        proof {
            assert(all_fallback.skip(j as int)[0] == all_fallback[j as int]);
            assert(all_fallback.skip(j as int).remove(0) =~= all_fallback.skip(j + 1));
        }
        let v = fallback_values.remove(0);
        let idx = indices[j];
        values.set(idx, v);
        j = j + 1;
    }
}

#[verifier::external_type_specification]
#[verifier::external_body]
pub struct ExInstant(std::time::Instant);

/// Relies on std::time::Instant::now: a monotonic clock read; nothing is
/// promised of the value.
#[verifier::external_body]
fn now_instant() -> std::time::Instant {
    std::time::Instant::now()
}

/// Relies on std::time::Instant::elapsed: the time since `start`, converted
/// to milliseconds; nothing is promised of the value.
#[verifier::external_body]
fn elapsed_millis(start: &std::time::Instant) -> u64 {
    start.elapsed().as_millis() as u64
}

/// One storage tier together with its observability counters. Every batched
/// lookup goes through `multi_get`, which forwards to the wrapped backend and
/// records per-kind success, miss and error counts around it.
pub struct TransactionKeyValueStore<S: TransactionKeyValueStoreTrait> {
    pub store_name: String,
    pub metrics: KeyValueStoreMetrics,
    pub inner: S,
}

impl<S: TransactionKeyValueStoreTrait> TransactionKeyValueStore<S> {
    pub fn new(store_name: String, metrics: KeyValueStoreMetrics, inner: S) -> (r: Self)
        ensures
            r.store_name == store_name,
            r.metrics == metrics,
            r.inner == inner,
    {
        TransactionKeyValueStore { store_name, metrics, inner }
    }

    /// Batched lookup across the three key kinds, in one backend round trip.
    /// The result is whatever the backend answered; the counters record one
    /// batch, its size, its latency, and then per kind: the requested counts
    /// on success, the absent counts on success, and the requested counts as
    /// errors when the whole call failed.
    pub fn multi_get(
        &mut self,
        transactions: &Vec<TransactionDigest>,
        effects: &Vec<TransactionDigest>,
        events: &Vec<TransactionEventsDigest>,
    ) -> (r: SuiResult<KvResults>)
        ensures
            r matches Ok(t) ==> t.0@.len() == transactions@.len() && t.1@.len() == effects@.len()
                && t.2@.len() == events@.len(),
            final(self).store_name == old(self).store_name,
            final(self).metrics == spec_metrics_after(
                old(self).metrics,
                transactions@.len() as int,
                effects@.len() as int,
                events@.len() as int,
                r,
                final(self).metrics.num_fetches_latency_ms_sum,
            ),
            final(self).metrics.num_fetches_latency_ms_sum >= old(self).metrics.num_fetches_latency_ms_sum,
    {
        let start = now_instant();
        let res = self.inner.multi_get(transactions, effects, events);
        let elapsed = elapsed_millis(&start);

        let num_txns = transactions.len() as u64;
        let num_effects = effects.len() as u64;
        let num_events = events.len() as u64;
        let total_keys = sat_add_u64(sat_add_u64(num_txns, num_effects), num_events);

        self.metrics.num_fetches_latency_ms_sum = sat_add_u64(
            self.metrics.num_fetches_latency_ms_sum,
            elapsed,
        );
        self.metrics.num_fetches_latency_ms_count = sat_add_u64(
            self.metrics.num_fetches_latency_ms_count,
            1,
        );
        self.metrics.num_fetches_batch_size_sum = sat_add_u64(
            self.metrics.num_fetches_batch_size_sum,
            total_keys,
        );
        self.metrics.num_fetches_batch_size_count = sat_add_u64(
            self.metrics.num_fetches_batch_size_count,
            1,
        );

        match &res {
            Ok(r3) => {
                let txns_not_found = count_nones(&r3.0);
                let effects_not_found = count_nones(&r3.1);
                let events_not_found = count_nones(&r3.2);

                if num_txns > 0 {
                    self.metrics.num_fetches_success_tx = sat_add_u64(
                        self.metrics.num_fetches_success_tx,
                        num_txns,
                    );
                }
                if num_effects > 0 {
                    self.metrics.num_fetches_success_fx = sat_add_u64(
                        self.metrics.num_fetches_success_fx,
                        num_effects,
                    );
                }
                if num_events > 0 {
                    self.metrics.num_fetches_success_events = sat_add_u64(
                        self.metrics.num_fetches_success_events,
                        num_events,
                    );
                }

                if txns_not_found > 0 {
                    self.metrics.num_fetches_not_found_tx = sat_add_u64(
                        self.metrics.num_fetches_not_found_tx,
                        txns_not_found,
                    );
                }
                if effects_not_found > 0 {
                    self.metrics.num_fetches_not_found_fx = sat_add_u64(
                        self.metrics.num_fetches_not_found_fx,
                        effects_not_found,
                    );
                }
                if events_not_found > 0 {
                    self.metrics.num_fetches_not_found_events = sat_add_u64(
                        self.metrics.num_fetches_not_found_events,
                        events_not_found,
                    );
                }
            },
            Err(_) => {
                self.metrics.num_fetches_error_tx = sat_add_u64(
                    self.metrics.num_fetches_error_tx,
                    num_txns,
                );
                self.metrics.num_fetches_error_fx = sat_add_u64(
                    self.metrics.num_fetches_error_fx,
                    num_effects,
                );
                self.metrics.num_fetches_error_events = sat_add_u64(
                    self.metrics.num_fetches_error_events,
                    num_events,
                );
            },
        }

        res
    }

    /// Lookup of transactions alone.
    pub fn multi_get_tx(&mut self, keys: &Vec<TransactionDigest>) -> (r: SuiResult<
        Vec<Option<Transaction>>,
    >)
        ensures
            r matches Ok(v) ==> v@.len() == keys@.len()
                && final(self).metrics.num_fetches_success_tx == (if keys@.len() > 0 {
                sat_add(old(self).metrics.num_fetches_success_tx as int, keys@.len() as int)
            } else {
                old(self).metrics.num_fetches_success_tx
            }) && final(self).metrics.num_fetches_not_found_tx == (if spec_count_nones(v@) > 0 {
                sat_add(
                    old(self).metrics.num_fetches_not_found_tx as int,
                    spec_count_nones(v@) as int,
                )
            } else {
                old(self).metrics.num_fetches_not_found_tx
            }) && final(self).metrics.num_fetches_error_tx == old(self).metrics.num_fetches_error_tx,
            r is Ok ==> final(self).metrics.num_fetches_success_fx == old(self).metrics.num_fetches_success_fx && final(self).metrics.num_fetches_success_events
                == old(self).metrics.num_fetches_success_events && final(self).metrics.num_fetches_not_found_fx == old(self).metrics.num_fetches_not_found_fx
                && final(self).metrics.num_fetches_not_found_events == old(self).metrics.num_fetches_not_found_events,
            r is Err ==> final(self).metrics.num_fetches_error_tx == sat_add(
                old(self).metrics.num_fetches_error_tx as int,
                keys@.len() as int,
            ),
            final(self).metrics.num_fetches_batch_size_count == sat_add(
                old(self).metrics.num_fetches_batch_size_count as int,
                1,
            ),
            final(self).store_name == old(self).store_name,
    {
        let no_fx: Vec<TransactionDigest> = Vec::new();
        let no_ev: Vec<TransactionEventsDigest> = Vec::new();
        match self.multi_get(keys, &no_fx, &no_ev) {
            Ok(t) => Ok(t.0),
            Err(e) => Err(e),
        }
    }

    /// Lookup of transaction effects alone, keyed by transaction digest.
    pub fn multi_get_fx_by_tx_digest(&mut self, keys: &Vec<TransactionDigest>) -> (r: SuiResult<
        Vec<Option<TransactionEffects>>,
    >)
        ensures
            r matches Ok(v) ==> v@.len() == keys@.len()
                && final(self).metrics.num_fetches_success_fx == (if keys@.len() > 0 {
                sat_add(old(self).metrics.num_fetches_success_fx as int, keys@.len() as int)
            } else {
                old(self).metrics.num_fetches_success_fx
            }) && final(self).metrics.num_fetches_not_found_fx == (if spec_count_nones(v@) > 0 {
                sat_add(
                    old(self).metrics.num_fetches_not_found_fx as int,
                    spec_count_nones(v@) as int,
                )
            } else {
                old(self).metrics.num_fetches_not_found_fx
            }) && final(self).metrics.num_fetches_error_fx == old(self).metrics.num_fetches_error_fx,
            r is Ok ==> final(self).metrics.num_fetches_success_tx == old(self).metrics.num_fetches_success_tx && final(self).metrics.num_fetches_success_events
                == old(self).metrics.num_fetches_success_events && final(self).metrics.num_fetches_not_found_tx == old(self).metrics.num_fetches_not_found_tx
                && final(self).metrics.num_fetches_not_found_events == old(self).metrics.num_fetches_not_found_events,
            r is Err ==> final(self).metrics.num_fetches_error_fx == sat_add(
                old(self).metrics.num_fetches_error_fx as int,
                keys@.len() as int,
            ),
            final(self).metrics.num_fetches_batch_size_count == sat_add(
                old(self).metrics.num_fetches_batch_size_count as int,
                1,
            ),
            final(self).store_name == old(self).store_name,
    {
        let no_tx: Vec<TransactionDigest> = Vec::new();
        let no_ev: Vec<TransactionEventsDigest> = Vec::new();
        match self.multi_get(&no_tx, keys, &no_ev) {
            Ok(t) => Ok(t.1),
            Err(e) => Err(e),
        }
    }

    /// Lookup of transaction events alone.
    pub fn multi_get_events(&mut self, keys: &Vec<TransactionEventsDigest>) -> (r: SuiResult<
        Vec<Option<TransactionEvents>>,
    >)
        ensures
            r matches Ok(v) ==> v@.len() == keys@.len()
                && final(self).metrics.num_fetches_success_events == (if keys@.len() > 0 {
                sat_add(old(self).metrics.num_fetches_success_events as int, keys@.len() as int)
            } else {
                old(self).metrics.num_fetches_success_events
            }) && final(self).metrics.num_fetches_not_found_events == (if spec_count_nones(v@)
                > 0 {
                sat_add(
                    old(self).metrics.num_fetches_not_found_events as int,
                    spec_count_nones(v@) as int,
                )
            } else {
                old(self).metrics.num_fetches_not_found_events
            }) && final(self).metrics.num_fetches_error_events == old(self).metrics.num_fetches_error_events,
            r is Ok ==> final(self).metrics.num_fetches_success_tx == old(self).metrics.num_fetches_success_tx && final(self).metrics.num_fetches_success_fx == old(self).metrics.num_fetches_success_fx && final(self).metrics.num_fetches_not_found_tx
                == old(self).metrics.num_fetches_not_found_tx && final(self).metrics.num_fetches_not_found_fx == old(self).metrics.num_fetches_not_found_fx,
            r is Err ==> final(self).metrics.num_fetches_error_events == sat_add(
                old(self).metrics.num_fetches_error_events as int,
                keys@.len() as int,
            ),
            final(self).metrics.num_fetches_batch_size_count == sat_add(
                old(self).metrics.num_fetches_batch_size_count as int,
                1,
            ),
            final(self).store_name == old(self).store_name,
    {
        let no_tx: Vec<TransactionDigest> = Vec::new();
        let no_fx: Vec<TransactionDigest> = Vec::new();
        match self.multi_get(&no_tx, &no_fx, keys) {
            Ok(t) => Ok(t.2),
            Err(e) => Err(e),
        }
    }

    /// Single-digest convenience lookup; the backend decides the value, and
    /// an absent value becomes `TransactionNotFound` for exactly the
    /// requested digest (a backend failure is passed through unchanged).
    pub fn get_tx(&mut self, digest: TransactionDigest) -> (r: SuiResult<Transaction>)
        ensures
            final(self).store_name == old(self).store_name,
            final(self).metrics.num_fetches_batch_size_count == sat_add(
                old(self).metrics.num_fetches_batch_size_count as int,
                1,
            ),
            r is Ok ==> final(self).metrics.num_fetches_success_tx == sat_add(
                old(self).metrics.num_fetches_success_tx as int,
                1,
            ) && final(self).metrics.num_fetches_not_found_tx == old(self).metrics.num_fetches_not_found_tx && final(self).metrics.num_fetches_error_tx == old(self).metrics.num_fetches_error_tx,
    {
        let mut keys: Vec<TransactionDigest> = Vec::new();
        keys.push(digest);
        match self.multi_get_tx(&keys) {
            Ok(v) => {
                let ghost vv = v@;
                match first_some(v) {
                    Some(t) => {
                        proof {
                            assert(vv.len() == 1);
                            assert(vv.last() == vv[0] && vv[0] == Some(t));
                            assert(vv.drop_last().len() == 0);
                            assert(spec_count_nones(vv.drop_last()) == 0);
                            assert(spec_count_nones(vv) == 0);
                        }
                        Ok(t)
                    },
                    None => Err(SuiError::TransactionNotFound { digest }),
                }
            },
            Err(e) => Err(e),
        }
    }

    /// Single-digest convenience lookup for effects; the backend decides the
    /// value, and an absent value becomes `TransactionNotFound` for exactly
    /// the requested digest (a backend failure is passed through unchanged).
    pub fn get_fx_by_tx_digest(&mut self, digest: TransactionDigest) -> (r: SuiResult<
        TransactionEffects,
    >)
        ensures
            final(self).store_name == old(self).store_name,
            final(self).metrics.num_fetches_batch_size_count == sat_add(
                old(self).metrics.num_fetches_batch_size_count as int,
                1,
            ),
            r is Ok ==> final(self).metrics.num_fetches_success_fx == sat_add(
                old(self).metrics.num_fetches_success_fx as int,
                1,
            ) && final(self).metrics.num_fetches_not_found_fx == old(self).metrics.num_fetches_not_found_fx && final(self).metrics.num_fetches_error_fx == old(self).metrics.num_fetches_error_fx,
    {
        let mut keys: Vec<TransactionDigest> = Vec::new();
        keys.push(digest);
        match self.multi_get_fx_by_tx_digest(&keys) {
            Ok(v) => {
                let ghost vv = v@;
                match first_some(v) {
                    Some(t) => {
                        proof {
                            assert(vv.len() == 1);
                            assert(vv.last() == vv[0] && vv[0] == Some(t));
                            assert(vv.drop_last().len() == 0);
                            assert(spec_count_nones(vv.drop_last()) == 0);
                            assert(spec_count_nones(vv) == 0);
                        }
                        Ok(t)
                    },
                    None => Err(SuiError::TransactionNotFound { digest }),
                }
            },
            Err(e) => Err(e),
        }
    }

    /// Single-digest convenience lookup for events; the backend decides the
    /// value, and an absent value becomes `TransactionEventsNotFound` for
    /// exactly the requested digest (a backend failure is passed through
    /// unchanged).
    pub fn get_events(&mut self, digest: TransactionEventsDigest) -> (r: SuiResult<
        TransactionEvents,
    >)
        ensures
            final(self).store_name == old(self).store_name,
            final(self).metrics.num_fetches_batch_size_count == sat_add(
                old(self).metrics.num_fetches_batch_size_count as int,
                1,
            ),
            r is Ok ==> final(self).metrics.num_fetches_success_events == sat_add(
                old(self).metrics.num_fetches_success_events as int,
                1,
            ) && final(self).metrics.num_fetches_not_found_events == old(self).metrics.num_fetches_not_found_events && final(self).metrics.num_fetches_error_events == old(self).metrics.num_fetches_error_events,
    {
        let mut keys: Vec<TransactionEventsDigest> = Vec::new();
        keys.push(digest);
        match self.multi_get_events(&keys) {
            Ok(v) => {
                let ghost vv = v@;
                match first_some(v) {
                    Some(t) => {
                        proof {
                            assert(vv.len() == 1);
                            assert(vv.last() == vv[0] && vv[0] == Some(t));
                            assert(vv.drop_last().len() == 0);
                            assert(spec_count_nones(vv.drop_last()) == 0);
                            assert(spec_count_nones(vv) == 0);
                        }
                        Ok(t)
                    },
                    None => Err(SuiError::TransactionEventsNotFound { digest }),
                }
            },
            Err(e) => Err(e),
        }
    }
}

/// What a result slice's first slot holds, treating an empty batch as absent.
fn first_some<T>(v: Vec<Option<T>>) -> (r: Option<T>)
    ensures
        r == (if v@.len() > 0 {
            v@[0]
        } else {
            None::<T>
        }),
{
    let mut v = v;
    if v.len() == 0 {
        None
    } else {
        v.remove(0)
    }
}

/// The counters after one batched lookup of `ntx`/`nfx`/`nev` keys that
/// answered `r`, with the latency sum given (the clock's reading is not a
/// function of the inputs).
pub open spec fn spec_metrics_after(
    m: KeyValueStoreMetrics,
    ntx: int,
    nfx: int,
    nev: int,
    r: SuiResult<KvResults>,
    latency_sum: u64,
) -> KeyValueStoreMetrics {
    match r {
        Ok(t) => KeyValueStoreMetrics {
            num_fetches_latency_ms_sum: latency_sum,
            num_fetches_latency_ms_count: sat_add(m.num_fetches_latency_ms_count as int, 1),
            num_fetches_batch_size_sum: sat_add(
                m.num_fetches_batch_size_sum as int,
                ntx + nfx + nev,
            ),
            num_fetches_batch_size_count: sat_add(m.num_fetches_batch_size_count as int, 1),
            num_fetches_success_tx: if ntx > 0 {
                sat_add(m.num_fetches_success_tx as int, ntx)
            } else {
                m.num_fetches_success_tx
            },
            num_fetches_success_fx: if nfx > 0 {
                sat_add(m.num_fetches_success_fx as int, nfx)
            } else {
                m.num_fetches_success_fx
            },
            num_fetches_success_events: if nev > 0 {
                sat_add(m.num_fetches_success_events as int, nev)
            } else {
                m.num_fetches_success_events
            },
            num_fetches_not_found_tx: if spec_count_nones(t.0@) > 0 {
                sat_add(m.num_fetches_not_found_tx as int, spec_count_nones(t.0@) as int)
            } else {
                m.num_fetches_not_found_tx
            },
            num_fetches_not_found_fx: if spec_count_nones(t.1@) > 0 {
                sat_add(m.num_fetches_not_found_fx as int, spec_count_nones(t.1@) as int)
            } else {
                m.num_fetches_not_found_fx
            },
            num_fetches_not_found_events: if spec_count_nones(t.2@) > 0 {
                sat_add(m.num_fetches_not_found_events as int, spec_count_nones(t.2@) as int)
            } else {
                m.num_fetches_not_found_events
            },
            num_fetches_error_tx: m.num_fetches_error_tx,
            num_fetches_error_fx: m.num_fetches_error_fx,
            num_fetches_error_events: m.num_fetches_error_events,
        },
        Err(_) => KeyValueStoreMetrics {
            num_fetches_latency_ms_sum: latency_sum,
            num_fetches_latency_ms_count: sat_add(m.num_fetches_latency_ms_count as int, 1),
            num_fetches_batch_size_sum: sat_add(
                m.num_fetches_batch_size_sum as int,
                ntx + nfx + nev,
            ),
            num_fetches_batch_size_count: sat_add(m.num_fetches_batch_size_count as int, 1),
            num_fetches_success_tx: m.num_fetches_success_tx,
            num_fetches_success_fx: m.num_fetches_success_fx,
            num_fetches_success_events: m.num_fetches_success_events,
            num_fetches_not_found_tx: m.num_fetches_not_found_tx,
            num_fetches_not_found_fx: m.num_fetches_not_found_fx,
            num_fetches_not_found_events: m.num_fetches_not_found_events,
            num_fetches_error_tx: sat_add(m.num_fetches_error_tx as int, ntx),
            num_fetches_error_fx: sat_add(m.num_fetches_error_fx as int, nfx),
            num_fetches_error_events: sat_add(m.num_fetches_error_events as int, nev),
        },
    }
}

/// Read-through composition of two tiers: the primary is asked once for the
/// whole batch, the fallback once for exactly the keys the primary missed,
/// and a fallback answer lands at the position its key was requested at.
/// Nothing is written back into the primary.
pub struct FallbackTransactionKVStore<
    P: TransactionKeyValueStoreTrait,
    F: TransactionKeyValueStoreTrait,
> {
    pub primary: TransactionKeyValueStore<P>,
    pub fallback: TransactionKeyValueStore<F>,
}

impl<P: TransactionKeyValueStoreTrait, F: TransactionKeyValueStoreTrait> FallbackTransactionKVStore<
    P,
    F,
> {
    /// Compose the two tiers and wrap the composition as a store of its own,
    /// under its own label and counters.
    pub fn new_kv(
        primary: TransactionKeyValueStore<P>,
        fallback: TransactionKeyValueStore<F>,
        metrics: KeyValueStoreMetrics,
        label: String,
    ) -> (r: TransactionKeyValueStore<FallbackTransactionKVStore<P, F>>)
        ensures
            r.store_name == label,
            r.metrics == metrics,
            r.inner.primary == primary,
            r.inner.fallback == fallback,
    {
        let store = FallbackTransactionKVStore { primary, fallback };
        TransactionKeyValueStore::new(label, metrics, store)
    }
}

impl<
    P: TransactionKeyValueStoreTrait,
    F: TransactionKeyValueStoreTrait,
> TransactionKeyValueStoreTrait for FallbackTransactionKVStore<P, F> {
    fn multi_get(
        &mut self,
        transactions: &Vec<TransactionDigest>,
        effects: &Vec<TransactionDigest>,
        events: &Vec<TransactionEventsDigest>,
    ) -> (r: SuiResult<KvResults>)
        ensures
            final(self).primary.metrics.num_fetches_batch_size_count == sat_add(
                old(self).primary.metrics.num_fetches_batch_size_count as int,
                1,
            ),
            final(self).fallback.metrics.num_fetches_batch_size_count == old(self).fallback.metrics.num_fetches_batch_size_count || final(self).fallback.metrics.num_fetches_batch_size_count == sat_add(
                old(self).fallback.metrics.num_fetches_batch_size_count as int,
                1,
            ),
    {
        let mut res = match self.primary.multi_get(transactions, effects, events) {
            Ok(x) => x,
            Err(e) => return Err(e),
        };

        let (fallback_transactions, indices_transactions) = find_fallback(&res.0, transactions);
        let (fallback_effects, indices_effects) = find_fallback(&res.1, effects);
        let (fallback_events, indices_events) = find_fallback(&res.2, events);

        if fallback_transactions.len() == 0 && fallback_effects.len() == 0
            && fallback_events.len() == 0 {
            return Ok(res);
        }

        let secondary_res = match self.fallback.multi_get(
            &fallback_transactions,
            &fallback_effects,
            &fallback_events,
        ) {
            Ok(x) => x,
            Err(e) => return Err(e),
        };

        let n0 = res.0.len();
        let n1 = res.1.len();
        let n2 = res.2.len();
        proof {
            assert(res.0@.len() == n0 && res.1@.len() == n1 && res.2@.len() == n2);
            lemma_miss_indices_correct(res.0@);
            lemma_miss_indices_correct(res.1@);
            lemma_miss_indices_correct(res.2@);
        }
        merge_res(&mut res.0, secondary_res.0, &indices_transactions);
        merge_res(&mut res.1, secondary_res.1, &indices_effects);
        merge_res(&mut res.2, secondary_res.2, &indices_events);

        Ok((res.0, res.1, res.2))
    }
}

} // verus!
