//! The fee engine: a fee schedule and the shared transaction logs that
//! decide which tier of it a client gets.

use crate::common::ClientId;
use crate::config::{selected_index, FeeConfig, FeeTier};
use crate::ledger::TxLog;
use std::sync::Arc;
use std::time::{SystemTime, UNIX_EPOCH};
use vstd::prelude::*;

verus! {

/// `parking_lot::RawRwLock`, the state of a lock. Opaque.
#[verifier::external_type_specification]
#[verifier::external_body]
pub struct ExRawRwLock<const RECURSIVE: bool>(parking_lot::RawRwLock<RECURSIVE>);

/// `lock_api::RwLock`, of which `parking_lot::RwLock` is an instance: a
/// reader-writer lock around a value. Opaque: nothing is known of the value
/// behind it.
#[verifier::external_type_specification]
#[verifier::external_body]
#[verifier::reject_recursive_types(R)]
#[verifier::reject_recursive_types(T)]
pub struct ExRwLock<R, T: ?Sized>(parking_lot::lock_api::RwLock<R, T>);

/// Exclusive access to the logs, for as long as the value lives. It holds
/// the guard that `parking_lot::RwLock::write` returned; the guard's own
/// type is bound by a trait of the lock's crate and cannot be declared.
#[verifier::external_body]
struct WriteAccess<'a> {
    guard: parking_lot::RwLockWriteGuard<'a, TxLog>,
}

/// `parking_lot::RwLock::new`: a lock, not held, around `log`. Nothing is
/// claimed of it.
#[verifier::external_body]
fn new_lock(log: TxLog) -> (lock: parking_lot::RwLock<TxLog>) {
    parking_lot::RwLock::new(log)
}

/// `parking_lot::RwLock::write`: waits until no one else reads or writes,
/// then gives exclusive access. Nothing is claimed of what is found behind
/// the lock. The call does not return where the calling thread already
/// holds the lock; no function of this crate calls it while it holds one.
#[verifier::external_body]
fn write_access<'a>(lock: &'a parking_lot::RwLock<TxLog>) -> (access: WriteAccess<'a>) {
    WriteAccess { guard: lock.write() }
}

/// `DerefMut::deref_mut` of the write guard: the logs behind the lock.
/// Nothing is claimed of them.
#[verifier::external_body]
fn logs_of<'a, 'b>(access: &'a mut WriteAccess<'b>) -> (log: &'a mut TxLog) {
    &mut *access.guard
}

/// `SystemTime::now`: the moment that the system clock shows, converted to
/// nanoseconds since the Unix epoch by `duration_since` and `as_nanos`;
/// `None` where the clock shows a moment before the epoch. Nothing is
/// claimed of the moment.
#[verifier::external_body]
fn clock_reading() -> (now: Option<u128>) {
    match SystemTime::now().duration_since(UNIX_EPOCH) {
        Ok(since) => Some(since.as_nanos()),
        Err(_) => None,
    }
}

/// The fee schedule together with the transaction logs of all clients. The
/// logs are shared: a clone of the engine records into the same logs, and
/// any number of threads may use the engine at once.
#[derive(Clone)]
pub struct FeeEngine {
    cfg: FeeConfig,
    counts_30d: Arc<parking_lot::RwLock<TxLog>>,
}

impl FeeEngine {
    /// The tiers of the schedule.
    pub closed spec fn tiers(&self) -> Seq<FeeTier> {
        self.cfg@
    }

    /// The tier of the schedule that applies at `count` transactions.
    pub open spec fn tier_at(&self, count: u64) -> FeeTier {
        self.tiers()[selected_index(self.tiers(), count)]
    }

    /// The moment that stands for a reading of the clock: the reading
    /// itself, and the epoch where the clock showed a moment before it.
    pub open spec fn spec_moment_of(reading: Option<u128>) -> u128 {
        match reading {
            Some(now) => now,
            None => 0,
        }
    }

    /// An engine for the schedule `cfg`, with empty logs.
    pub fn new(cfg: FeeConfig) -> (engine: Self)
        ensures
            engine.tiers() == cfg@,
    {
        FeeEngine { cfg, counts_30d: Arc::new(new_lock(TxLog::new())) }
    }

    /// The moment that the clock shows; the epoch itself where it shows an
    /// earlier one. Any moment may come back: [`FeeEngine::moment_of`] says
    /// which one comes of which reading.
    fn now() -> u128 {
        Self::moment_of(clock_reading())
    }

    /// Records a transaction of `client` at this moment.
    pub fn record_tx(&self, client: &ClientId) {
        let mut access = write_access(&self.counts_30d);
        let now = Self::now();
        let logs = logs_of(&mut access);
        logs.record_tx(client, now);
    }

    /// How many transactions of `client` lie in the 30 days before this
    /// moment. The client's log is pruned on the way.
    pub fn current_count_30d(&self, client: &ClientId) -> (count: u64) {
        let mut access = write_access(&self.counts_30d);
        let now = Self::now();
        let logs = logs_of(&mut access);
        logs.current_count_30d(client, now)
    }

    /// The tier that applies to `client` at this moment. Nothing is
    /// recorded.
    pub fn fee_for(&self, client: &ClientId) -> (tier: FeeTier)
        requires
            self.tiers().len() > 0,
        ensures
            exists|count: u64| tier == #[trigger] self.tier_at(count),
    {
        let count = self.current_count_30d(client);
        let tier = self.cfg.tier_for(count);
        assert(tier == self.tier_at(count));
        tier
    }

    /// The moment that stands for a reading of the clock, in nanoseconds
    /// since the epoch: the reading itself, and the epoch where the clock
    /// showed a moment before it.
    #[verifier::when_used_as_spec(spec_moment_of)]
    pub fn moment_of(reading: Option<u128>) -> (moment: u128)
        ensures
            moment == Self::spec_moment_of(reading),
    {
        match reading {
            Some(now) => now,
            None => 0,
        }
    }
}

} // verus!
