use indexer_read::key_value_store::{
    find_fallback, merge_res, FallbackTransactionKVStore, KeyValueStoreMetrics, SuiError,
    Transaction, TransactionDigest, TransactionEffects, TransactionEvents,
    TransactionKeyValueStore, TransactionKeyValueStoreTrait,
};

fn digest(tag: u8) -> TransactionDigest {
    let mut d = [0u8; 32];
    d[0] = tag;
    TransactionDigest(d)
}

fn ev_digest(tag: u8) -> indexer_read::key_value_store::TransactionEventsDigest {
    let mut d = [0u8; 32];
    d[0] = tag;
    indexer_read::key_value_store::TransactionEventsDigest(d)
}

/// An in-memory tier that also counts how often it is queried.
struct StubStore {
    tx: Vec<(TransactionDigest, Vec<u8>)>,
    fx: Vec<(TransactionDigest, Vec<u8>)>,
    ev: Vec<(indexer_read::key_value_store::TransactionEventsDigest, Vec<u8>)>,
    calls: usize,
    fail: bool,
}

impl StubStore {
    fn empty() -> StubStore {
        StubStore { tx: vec![], fx: vec![], ev: vec![], calls: 0, fail: false }
    }
}

impl TransactionKeyValueStoreTrait for StubStore {
    fn multi_get(
        &mut self,
        transactions: &Vec<TransactionDigest>,
        effects: &Vec<TransactionDigest>,
        events: &Vec<indexer_read::key_value_store::TransactionEventsDigest>,
    ) -> Result<
        (Vec<Option<Transaction>>, Vec<Option<TransactionEffects>>, Vec<Option<TransactionEvents>>),
        SuiError,
    > {
        self.calls += 1;
        if self.fail {
            return Err(SuiError::Storage);
        }
        let tx = transactions
            .iter()
            .map(|k| self.tx.iter().find(|(d, _)| d.0 == k.0).map(|(_, v)| Transaction(v.clone())))
            .collect();
        let fx = effects
            .iter()
            .map(|k| {
                self.fx.iter().find(|(d, _)| d.0 == k.0).map(|(_, v)| TransactionEffects(v.clone()))
            })
            .collect();
        let ev = events
            .iter()
            .map(|k| {
                self.ev.iter().find(|(d, _)| d.0 == k.0).map(|(_, v)| TransactionEvents(v.clone()))
            })
            .collect();
        Ok((tx, fx, ev))
    }
}

fn wrap(stub: StubStore, name: &str) -> TransactionKeyValueStore<StubStore> {
    TransactionKeyValueStore::new(name.to_owned(), KeyValueStoreMetrics::new(), stub)
}

fn fallback_pair(
    primary: StubStore,
    fallback: StubStore,
) -> TransactionKeyValueStore<FallbackTransactionKVStore<StubStore, StubStore>> {
    FallbackTransactionKVStore::new_kv(
        wrap(primary, "rocks"),
        wrap(fallback, "remote"),
        KeyValueStoreMetrics::new(),
        "fallback".to_owned(),
    )
}

#[test]
fn full_primary_hit_issues_no_fallback_query() {
    let mut primary = StubStore::empty();
    primary.tx.push((digest(1), b"t1".to_vec()));
    primary.tx.push((digest(2), b"t2".to_vec()));
    let fallback = StubStore::empty();

    let mut store = fallback_pair(primary, fallback);
    let keys = vec![digest(1), digest(2)];
    let (tx, _, _) = store.multi_get(&keys, &vec![], &vec![]).unwrap();
    assert_eq!(tx.len(), 2);
    assert!(tx[0].is_some() && tx[1].is_some());
    assert_eq!(store.inner.primary.inner.calls, 1);
    assert_eq!(store.inner.fallback.inner.calls, 0);
}

#[test]
fn fallback_fills_misses_at_their_original_positions() {
    let mut primary = StubStore::empty();
    primary.tx.push((digest(1), b"p1".to_vec()));
    let mut fallback = StubStore::empty();
    fallback.tx.push((digest(2), b"f2".to_vec()));

    let mut store = fallback_pair(primary, fallback);
    // Key 2 is only in the fallback; key 3 is nowhere.
    let keys = vec![digest(2), digest(1), digest(3)];
    let (tx, fx, ev) = store.multi_get(&keys, &vec![digest(9)], &vec![ev_digest(9)]).unwrap();

    assert_eq!(tx.len(), 3);
    assert_eq!(fx.len(), 1);
    assert_eq!(ev.len(), 1);
    assert_eq!(tx[0], Some(Transaction(b"f2".to_vec())));
    assert_eq!(tx[1], Some(Transaction(b"p1".to_vec())));
    assert_eq!(tx[2], None);
    assert_eq!(fx[0], None);
    assert_eq!(ev[0], None);
    assert_eq!(store.inner.fallback.inner.calls, 1);
}

#[test]
fn two_tier_scenario() {
    // Primary answers [Some(v1), None]; the fallback holds v2 for the miss.
    let mut primary = StubStore::empty();
    primary.tx.push((digest(1), b"v1".to_vec()));
    let mut fallback = StubStore::empty();
    fallback.tx.push((digest(2), b"v2".to_vec()));

    let mut store = fallback_pair(primary, fallback);
    let keys = vec![digest(1), digest(2)];
    let (tx, _, _) = store.multi_get(&keys, &vec![], &vec![]).unwrap();
    assert_eq!(tx, vec![Some(Transaction(b"v1".to_vec())), Some(Transaction(b"v2".to_vec()))]);
}

#[test]
fn find_fallback_and_merge_res_compose() {
    let values: Vec<Option<u64>> = vec![Some(10), None, Some(30), None];
    let keys: Vec<u8> = vec![1, 2, 3, 4];
    let (fallback_keys, indices) = find_fallback(&values, &keys);
    assert_eq!(fallback_keys, vec![2, 4]);
    assert_eq!(indices, vec![1, 3]);

    let mut merged = values;
    merge_res(&mut merged, vec![Some(20), None], &indices);
    assert_eq!(merged, vec![Some(10), Some(20), Some(30), None]);
}

#[test]
fn counters_record_successes_and_misses() {
    let mut primary = StubStore::empty();
    primary.tx.push((digest(1), b"t1".to_vec()));
    let mut store = wrap(primary, "rocks");

    let keys = vec![digest(1), digest(2)];
    let (tx, _, _) = store.multi_get(&keys, &vec![], &vec![ev_digest(7)]).unwrap();
    assert_eq!(tx.len(), 2);
    assert_eq!(store.metrics.num_fetches_batch_size_count, 1);
    assert_eq!(store.metrics.num_fetches_batch_size_sum, 3);
    assert_eq!(store.metrics.num_fetches_latency_ms_count, 1);
    assert_eq!(store.metrics.num_fetches_success_tx, 2);
    assert_eq!(store.metrics.num_fetches_success_fx, 0);
    assert_eq!(store.metrics.num_fetches_success_events, 1);
    assert_eq!(store.metrics.num_fetches_not_found_tx, 1);
    assert_eq!(store.metrics.num_fetches_not_found_events, 1);
    assert_eq!(store.metrics.num_fetches_error_tx, 0);
}

#[test]
fn a_tier_failure_counts_errors_and_surfaces_the_error() {
    let mut failing = StubStore::empty();
    failing.fail = true;
    let mut store = wrap(failing, "rocks");

    let keys = vec![digest(1), digest(2)];
    let got = store.multi_get(&keys, &vec![digest(3)], &vec![]);
    assert_eq!(got, Err(SuiError::Storage));
    assert_eq!(store.metrics.num_fetches_error_tx, 2);
    assert_eq!(store.metrics.num_fetches_error_fx, 1);
    assert_eq!(store.metrics.num_fetches_error_events, 0);
    assert_eq!(store.metrics.num_fetches_success_tx, 0);
}

#[test]
fn a_primary_failure_aborts_before_the_fallback() {
    let mut primary = StubStore::empty();
    primary.fail = true;
    let fallback = StubStore::empty();
    let mut store = fallback_pair(primary, fallback);

    let got = store.multi_get(&vec![digest(1)], &vec![], &vec![]);
    assert_eq!(got, Err(SuiError::Storage));
    assert_eq!(store.inner.fallback.inner.calls, 0);
}

#[test]
fn single_key_lookups_map_absence_to_not_found() {
    let mut primary = StubStore::empty();
    primary.tx.push((digest(1), b"t1".to_vec()));
    primary.fx.push((digest(1), b"f1".to_vec()));
    primary.ev.push((ev_digest(1), b"e1".to_vec()));
    let mut store = wrap(primary, "rocks");

    assert_eq!(store.get_tx(digest(1)), Ok(Transaction(b"t1".to_vec())));
    // The hit consulted the backend: one batch, one success, no miss.
    assert_eq!(store.metrics.num_fetches_batch_size_count, 1);
    assert_eq!(store.metrics.num_fetches_success_tx, 1);
    assert_eq!(store.metrics.num_fetches_not_found_tx, 0);
    assert_eq!(
        store.get_tx(digest(2)),
        Err(SuiError::TransactionNotFound { digest: digest(2) })
    );
    // The absent key still consulted the backend and counted its miss.
    assert_eq!(store.metrics.num_fetches_batch_size_count, 2);
    assert_eq!(store.metrics.num_fetches_success_tx, 2);
    assert_eq!(store.metrics.num_fetches_not_found_tx, 1);
    assert_eq!(store.get_fx_by_tx_digest(digest(1)), Ok(TransactionEffects(b"f1".to_vec())));
    assert_eq!(
        store.get_fx_by_tx_digest(digest(2)),
        Err(SuiError::TransactionNotFound { digest: digest(2) })
    );
    assert_eq!(store.get_events(ev_digest(1)), Ok(TransactionEvents(b"e1".to_vec())));
    assert_eq!(
        store.get_events(ev_digest(2)),
        Err(SuiError::TransactionEventsNotFound { digest: ev_digest(2) })
    );
}

#[test]
fn empty_batches_are_answered_empty_without_fallback() {
    let primary = StubStore::empty();
    let fallback = StubStore::empty();
    let mut store = fallback_pair(primary, fallback);

    let (tx, fx, ev) = store.multi_get(&vec![], &vec![], &vec![]).unwrap();
    assert!(tx.is_empty() && fx.is_empty() && ev.is_empty());
    assert_eq!(store.inner.primary.inner.calls, 1);
    assert_eq!(store.inner.fallback.inner.calls, 0);
}

#[test]
fn duplicate_keys_are_answered_positionally() {
    let mut primary = StubStore::empty();
    primary.tx.push((digest(1), b"t1".to_vec()));
    let mut store = wrap(primary, "rocks");

    let keys = vec![digest(1), digest(1), digest(2), digest(2)];
    let (tx, _, _) = store.multi_get(&keys, &vec![], &vec![]).unwrap();
    assert_eq!(
        tx,
        vec![
            Some(Transaction(b"t1".to_vec())),
            Some(Transaction(b"t1".to_vec())),
            None,
            None
        ]
    );
}

#[test]
fn batched_kind_lookups_keep_lengths() {
    let mut primary = StubStore::empty();
    primary.fx.push((digest(1), b"f1".to_vec()));
    let mut store = wrap(primary, "rocks");

    let fx = store.multi_get_fx_by_tx_digest(&vec![digest(1), digest(2)]).unwrap();
    assert_eq!(fx, vec![Some(TransactionEffects(b"f1".to_vec())), None]);
    let tx = store.multi_get_tx(&vec![digest(5)]).unwrap();
    assert_eq!(tx, vec![None]);
    let ev = store.multi_get_events(&vec![ev_digest(5)]).unwrap();
    assert_eq!(ev, vec![None]);
}
