use gateway_core::common::ClientId;
use gateway_core::ledger::{TxLog, WINDOW_NANOS};

fn client(name: &str) -> ClientId {
    ClientId(name.to_string())
}

const DAY: u128 = 24 * 3600 * 1_000_000_000;

#[test]
fn window_is_thirty_days() {
    assert_eq!(WINDOW_NANOS, 30 * DAY);
}

#[test]
fn fresh_client_counts_zero() {
    let mut log = TxLog::new();
    assert_eq!(log.current_count_30d(&client("a"), 1_000), 0);
}

#[test]
fn record_tx_counts_one() {
    let mut log = TxLog::new();
    log.record_tx(&client("a"), 1_000);
    assert_eq!(log.current_count_30d(&client("a"), 1_000), 1);
}

#[test]
fn record_tx_is_not_idempotent() {
    let mut log = TxLog::new();
    let now: u128 = 100 * DAY;
    log.record_tx(&client("a"), now);
    assert_eq!(log.current_count_30d(&client("a"), now), 1);
    log.record_tx(&client("a"), now);
    assert_eq!(log.current_count_30d(&client("a"), now), 2);
    log.record_tx(&client("a"), now);
    log.record_tx(&client("a"), now);
    assert_eq!(log.current_count_30d(&client("a"), now), 4);
}

#[test]
fn clients_are_counted_apart() {
    let mut log = TxLog::new();
    log.record_tx(&client("a"), 10);
    log.record_tx(&client("a"), 11);
    log.record_tx(&client("b"), 12);
    assert_eq!(log.current_count_30d(&client("a"), 12), 2);
    assert_eq!(log.current_count_30d(&client("b"), 12), 1);
    assert_eq!(log.current_count_30d(&client("A"), 12), 0);
    assert_eq!(log.current_count_30d(&client(""), 12), 0);
}

#[test]
fn entry_at_the_edge_of_the_window_counts() {
    let mut log = TxLog::new();
    let then: u128 = 5 * DAY;
    log.record_tx(&client("a"), then);
    assert_eq!(log.current_count_30d(&client("a"), then + WINDOW_NANOS), 1);
}

#[test]
fn entry_past_the_window_does_not_count() {
    let mut log = TxLog::new();
    let then: u128 = 5 * DAY;
    log.record_tx(&client("a"), then);
    assert_eq!(log.current_count_30d(&client("a"), then + WINDOW_NANOS + 1), 0);
}

#[test]
fn old_entries_are_left_out_whatever_follows_them() {
    let mut log = TxLog::new();
    let a = client("a");
    for i in 0u128..7 {
        log.record_tx(&a, i * DAY);
    }
    let late: u128 = 200 * DAY;
    for i in 0u128..50 {
        log.record_tx(&a, late + i);
    }
    assert_eq!(log.current_count_30d(&a, late + 50), 50);
    assert_eq!(log.current_count_30d(&a, late + 50 + WINDOW_NANOS - 50), 50);
    assert_eq!(log.current_count_30d(&a, late + WINDOW_NANOS + 10), 40);
}

#[test]
fn pruning_is_for_good() {
    let mut log = TxLog::new();
    let a = client("a");
    log.record_tx(&a, 0);
    assert_eq!(log.current_count_30d(&a, WINDOW_NANOS + 1), 0);
    // an earlier moment no longer finds what a later one pruned
    assert_eq!(log.current_count_30d(&a, 0), 0);
}

#[test]
fn recording_prunes_the_log_of_that_client_only() {
    let mut log = TxLog::new();
    log.record_tx(&client("a"), 0);
    log.record_tx(&client("b"), 0);
    log.record_tx(&client("a"), WINDOW_NANOS + 1);
    assert_eq!(log.current_count_30d(&client("a"), 0), 1);
    assert_eq!(log.current_count_30d(&client("b"), 0), 1);
}

#[test]
fn early_moments_count_everything() {
    let mut log = TxLog::new();
    let a = client("a");
    log.record_tx(&a, 0);
    log.record_tx(&a, 1);
    assert_eq!(log.current_count_30d(&a, WINDOW_NANOS - 1), 2);
    assert_eq!(log.current_count_30d(&a, WINDOW_NANOS), 2);
}

#[test]
fn the_largest_moment_is_handled() {
    let mut log = TxLog::new();
    let a = client("a");
    log.record_tx(&a, u128::MAX);
    log.record_tx(&a, u128::MAX - WINDOW_NANOS);
    assert_eq!(log.current_count_30d(&a, u128::MAX), 2);
    log.record_tx(&a, u128::MAX - WINDOW_NANOS - 1);
    assert_eq!(log.current_count_30d(&a, u128::MAX), 2);
}

#[test]
fn prune_older_than_keeps_order_and_window() {
    let mut v: Vec<u128> = vec![50, 10, 40, 9, 60, 10];
    TxLog::prune_older_than(&mut v, 30, 20);
    assert_eq!(v, vec![50, 10, 40, 60, 10]);
    TxLog::prune_older_than(&mut v, 60, 20);
    assert_eq!(v, vec![50, 40, 60]);
    TxLog::prune_older_than(&mut v, 10, 20);
    assert_eq!(v, vec![50, 40, 60]);
    TxLog::prune_older_than(&mut v, 61, 0);
    assert_eq!(v, Vec::<u128>::new());
}
