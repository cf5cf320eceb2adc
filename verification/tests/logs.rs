use account_store::clock::Timestamp;
use account_store::config::AppConfig;
use account_store::log::{OperationLog, OperationStatus, OperationType, LOG_LIMIT};
use account_store::store::{DataStore, Persist};

fn entry(n: i64) -> OperationLog {
    OperationLog::new(
        OperationType::AddAccount,
        OperationStatus::Success,
        format!("entry {}", n),
        Timestamp { secs: n, nanos: 0 },
    )
}

fn store_with_logs(count: i64) -> DataStore {
    let (mut store, _) = DataStore::new(AppConfig::default(), Vec::new());
    for n in 0..count {
        store.add_log(entry(n));
    }
    store
}

#[test]
fn log_keeps_entries_in_order() {
    let store = store_with_logs(3);
    let logs = store.get_logs(None);
    assert_eq!(logs.len(), 3);
    assert_eq!(logs[0].message, "entry 0");
    assert_eq!(logs[2].message, "entry 2");
}

#[test]
fn log_entry_refers_to_an_account() {
    let plain = entry(1);
    assert_eq!(plain.account_id, None);
    assert_eq!(plain.account_email, None);
    let bound = plain.with_account(7, "a@example.com".to_string());
    assert_eq!(bound.account_id, Some(7));
    assert_eq!(bound.account_email, Some("a@example.com".to_string()));
    assert_eq!(bound.message, "entry 1");
    assert_eq!(bound.operation_type, OperationType::AddAccount);
    assert_eq!(bound.status, OperationStatus::Success);
}

#[test]
fn full_log_evicts_its_oldest_entry() {
    let mut store = store_with_logs(LOG_LIMIT as i64);
    assert_eq!(store.get_logs(None).len(), 1000);
    let persist = store.add_log(entry(1000));
    assert_eq!(persist, Persist::Logs);
    let logs = store.get_logs(None);
    assert_eq!(logs.len(), 1000);
    assert_eq!(logs[0].message, "entry 1");
    assert_eq!(logs[1].message, "entry 2");
    assert_eq!(logs[999].message, "entry 1000");
}

#[test]
fn overlong_log_is_cut_down_to_the_limit() {
    let mut logs = Vec::new();
    for n in 0..1500 {
        logs.push(entry(n));
    }
    let (mut store, _) = DataStore::new(AppConfig::default(), logs);
    store.add_log(entry(1500));
    let logs = store.get_logs(None);
    assert_eq!(logs.len(), 1000);
    assert_eq!(logs[0].message, "entry 501");
    assert_eq!(logs[999].message, "entry 1500");
}

#[test]
fn get_logs_with_a_limit_gives_the_newest() {
    let store = store_with_logs(5);
    let two: Vec<String> = store.get_logs(Some(2)).iter().map(|l| l.message.clone()).collect();
    assert_eq!(two, vec!["entry 3".to_string(), "entry 4".to_string()]);
    assert_eq!(store.get_logs(Some(0)).len(), 0);
    assert_eq!(store.get_logs(Some(5)).len(), 5);
    assert_eq!(store.get_logs(Some(50)).len(), 5);
    assert_eq!(store.get_logs(Some(50))[0].message, "entry 0");
}

#[test]
fn clear_logs_empties_the_log() {
    let mut store = store_with_logs(4);
    assert_eq!(store.clear_logs(), Persist::Logs);
    assert!(store.get_logs(None).is_empty());
}
