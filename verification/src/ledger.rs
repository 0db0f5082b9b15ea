//! The per-client transaction log behind the fee tiers, and its trailing
//! 30-day window.
//!
//! A moment is a number of nanoseconds since the Unix epoch.

use crate::common::ClientId;
use vstd::hash_map::StringHashMap;
use vstd::prelude::*;

verus! {

/// Thirty days, in nanoseconds.
pub const WINDOW_NANOS: u128 = 2_592_000_000_000_000;

/// Whether a transaction at `t` is no older than `window` at `now`.
pub open spec fn within(t: u128, now: u128, window: u128) -> bool {
    t + window >= now
}

/// Whether a transaction at `t` lies in the 30-day window that ends at
/// `now`.
pub open spec fn in_window(t: u128, now: u128) -> bool {
    within(t, now, WINDOW_NANOS)
}

/// The test that an entry is no older than `window` at `now`.
pub open spec fn keeps(now: u128, window: u128) -> spec_fn(u128) -> bool {
    |t: u128| within(t, now, window)
}

/// The entries of `log` that are no older than `window` at `now`, in their
/// order.
pub open spec fn kept(log: Seq<u128>, now: u128, window: u128) -> Seq<u128> {
    log.filter(keeps(now, window))
}

/// The entries of `log` in the 30-day window that ends at `now`.
pub open spec fn pruned(log: Seq<u128>, now: u128) -> Seq<u128> {
    kept(log, now, WINDOW_NANOS)
}

/// `log` after a transaction at `now` is recorded: `now` is appended, then
/// the log is pruned to the window that ends at `now`.
pub open spec fn recorded(log: Seq<u128>, now: u128) -> Seq<u128> {
    pruned(log.push(now), now)
}

/// The number of transactions of `log` that count at `now`.
pub open spec fn count_30d(log: Seq<u128>, now: u128) -> nat {
    pruned(log, now).len()
}

/// The transaction logs of all clients. A client that was never seen has
/// the empty log.
pub struct TxLog {
    entries: StringHashMap<Vec<u128>>,
}

impl TxLog {
    /// The log of `client`, oldest recording first.
    pub closed spec fn log_of(&self, client: Seq<char>) -> Seq<u128> {
        if self.entries@.contains_key(client) {
            self.entries@[client]@
        } else {
            Seq::empty()
        }
    }

    /// Whether every log but that of `client` is as it was in `before`.
    pub open spec fn same_but_for(&self, before: &TxLog, client: Seq<char>) -> bool {
        forall|other: Seq<char>| other != client ==> self.log_of(other) == before.log_of(other)
    }

    /// The logs before any transaction.
    pub fn new() -> (log: TxLog)
        ensures
            forall|client: Seq<char>| log.log_of(client) == Seq::<u128>::empty(),
    {
        TxLog { entries: StringHashMap::new() }
    }

    /// Drops from `v` the entries that are older than `window` at `now`.
    pub fn prune_older_than(v: &mut Vec<u128>, now: u128, window: u128)
        ensures
            final(v)@ == kept(old(v)@, now, window),
    {
        let cutoff: u128 = if now >= window {
            now - window
        } else {
            0
        };
        let mut retained: Vec<u128> = Vec::new();
        let mut i: usize = 0;
        assert(v@.take(0) =~= Seq::<u128>::empty());
        while i < v.len()
            invariant
                i <= v.len(),
                cutoff == if now >= window {
                    now - window
                } else {
                    0
                },
                retained@ == kept(v@.take(i as int), now, window),
            decreases v.len() - i,
        {
            let t = v[i];
            proof {
                assert(v@.take(i + 1) =~= v@.take(i as int).push(t));
                v@.take(i as int).lemma_filter_push(t, keeps(now, window));
            }
            if t >= cutoff {
                retained.push(t);
            }
            i = i + 1;
        }
        assert(v@.take(i as int) =~= v@);
        *v = retained;
    }

    /// A copy of the log of `client`.
    fn entries_of(&self, client: &ClientId) -> (entries: Vec<u128>)
        ensures
            entries@ == self.log_of(client.0@),
    {
        match self.entries.get(client.0.as_str()) {
            Some(stored) => {
                let mut entries: Vec<u128> = Vec::new();
                let mut i: usize = 0;
                while i < stored.len()
                    invariant
                        i <= stored.len(),
                        entries@ == stored@.take(i as int),
                    decreases stored.len() - i,
                {
                    entries.push(stored[i]);
                    assert(entries@ =~= stored@.take(i + 1));
                    i = i + 1;
                }
                assert(stored@.take(i as int) =~= stored@);
                entries
            },
            None => Vec::new(),
        }
    }

    /// Records a transaction of `client` at `now`, then prunes the client's
    /// log to the window that ends at `now`. Every call records one more
    /// transaction.
    pub fn record_tx(&mut self, client: &ClientId, now: u128)
        ensures
            final(self).log_of(client.0@) == recorded(old(self).log_of(client.0@), now),
            final(self).same_but_for(old(self), client.0@),
    {
        let mut entries = self.entries_of(client);
        entries.push(now);
        Self::prune_older_than(&mut entries, now, WINDOW_NANOS);
        self.entries.insert(client.0.clone(), entries);
    }

    /// Prunes the log of `client` to the window that ends at `now` and
    /// returns how many transactions are left in it.
    pub fn current_count_30d(&mut self, client: &ClientId, now: u128) -> (count: u64)
        ensures
            final(self).log_of(client.0@) == pruned(old(self).log_of(client.0@), now),
            final(self).same_but_for(old(self), client.0@),
            count == count_30d(old(self).log_of(client.0@), now),
    {
        let mut entries = self.entries_of(client);
        Self::prune_older_than(&mut entries, now, WINDOW_NANOS);
        let count = entries.len() as u64;
        self.entries.insert(client.0.clone(), entries);
        count
    }
}

/// Recording a transaction at `now` keeps what the window holds at `now` and
/// appends `now`: the count at `now` grows by one.
pub proof fn lemma_record_appends(log: Seq<u128>, now: u128)
    ensures
        recorded(log, now) == pruned(log, now).push(now),
        count_30d(recorded(log, now), now) == count_30d(log, now) + 1,
{
    let pred = keeps(now, WINDOW_NANOS);
    assert(pred(now));
    log.lemma_filter_push(now, pred);
    lemma_prune_again(log.push(now), now, now);
}

/// Pruning at `now` and then at a later moment `at` leaves what pruning at
/// `at` alone leaves.
pub proof fn lemma_prune_again(log: Seq<u128>, now: u128, at: u128)
    requires
        now <= at,
    ensures
        pruned(pruned(log, now), at) == pruned(log, at),
    decreases log.len(),
{
    let first = keeps(now, WINDOW_NANOS);
    let second = keeps(at, WINDOW_NANOS);
    if log.len() == 0 {
        assert(log.filter(first) =~= log) by {
            log.lemma_filter_len(first);
        }
    } else {
        let rest = log.drop_last();
        let last = log.last();
        assert(log =~= rest.push(last));
        lemma_prune_again(rest, now, at);
        rest.lemma_filter_push(last, first);
        rest.lemma_filter_push(last, second);
        if first(last) {
            rest.filter(first).lemma_filter_push(last, second);
        }
    }
}

/// Recording is not idempotent: a second recording at the same moment
/// leaves another log than the first did.
pub proof fn lemma_record_is_not_idempotent(log: Seq<u128>, now: u128)
    ensures
        recorded(recorded(log, now), now) != recorded(log, now),
        recorded(recorded(log, now), now).len() == recorded(log, now).len() + 1,
{
    let once = recorded(log, now);
    lemma_record_appends(log, now);
    lemma_record_appends(once, now);
    lemma_prune_again(log.push(now), now, now);
}

/// Two recordings count as two. After transactions at `first` and at
/// `second`, a moment `at` that is not before them and still has both in its
/// window counts two more than it would have counted without them.
pub proof fn lemma_record_twice_counts_two(log: Seq<u128>, first: u128, second: u128, at: u128)
    requires
        first <= at,
        second <= at,
        in_window(first, at),
        in_window(second, at),
    ensures
        count_30d(recorded(recorded(log, first), second), at) == count_30d(log, at) + 2,
{
    let once = recorded(log, first);
    let twice = recorded(once, second);
    let pred = keeps(at, WINDOW_NANOS);
    lemma_record_appends(log, first);
    lemma_record_appends(once, second);
    lemma_prune_again(once, second, at);
    pruned(once, second).lemma_filter_push(second, pred);
    assert(pruned(twice, at) == pruned(once, at).push(second));
    lemma_prune_again(log, first, at);
    pruned(log, first).lemma_filter_push(first, pred);
    assert(pruned(once, at) == pruned(log, at).push(first));
}

/// Pruning keeps exactly the entries in the window: an entry older than 30
/// days is not among them, whatever else the log holds.
pub proof fn lemma_pruned_holds_window(log: Seq<u128>, now: u128)
    ensures
        forall|t: u128| #[trigger]
            pruned(log, now).contains(t) <==> log.contains(t) && in_window(t, now),
        count_30d(log, now) <= log.len(),
{
    let pred = keeps(now, WINDOW_NANOS);
    log.lemma_filter_len(pred);
    assert forall|t: u128| #[trigger]
        pruned(log, now).contains(t) <==> log.contains(t) && in_window(t, now) by {
        let window = pruned(log, now);
        if window.contains(t) {
            let i = choose|i: int| 0 <= i < window.len() && window[i] == t;
            log.lemma_filter_pred(pred, i);
            log.lemma_filter_contains_rev(pred, t);
        }
        if log.contains(t) && in_window(t, now) {
            let i = choose|i: int| 0 <= i < log.len() && log[i] == t;
            log.lemma_filter_contains(pred, i);
        }
    }
}

/// Entries older than 30 days do not count, however many newer entries
/// follow them.
pub proof fn lemma_stale_entries_do_not_count(stale: Seq<u128>, newer: Seq<u128>, now: u128)
    requires
        forall|i: int| 0 <= i < stale.len() ==> !in_window(#[trigger] stale[i], now),
    ensures
        pruned(stale + newer, now) == pruned(newer, now),
        count_30d(stale + newer, now) == count_30d(newer, now),
{
    let pred = keeps(now, WINDOW_NANOS);
    Seq::filter_distributes_over_add(stale, newer, pred);
    assert(stale.all(|t: u128| !pred(t)));
    stale.lemma_all_neg_filter_empty(pred);
    assert(stale.filter(pred) + newer.filter(pred) =~= newer.filter(pred));
}

} // verus!
