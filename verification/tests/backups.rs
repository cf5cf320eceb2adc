use account_store::account::Account;
use account_store::backup::{
    backup_file_name, cleanup_old_backups, has_backup_name, BackupEntry, ImportData, ImportResult,
    BACKUPS_KEPT,
};
use account_store::clock::Timestamp;
use account_store::config::AppConfig;
use account_store::error::StoreError;
use account_store::store::{DataStore, Persist};

fn account(id: u128, email: &str) -> Account {
    Account::new(
        id,
        Timestamp { secs: 0, nanos: 0 },
        email.to_string(),
        "pw".to_string(),
        "nick".to_string(),
        Vec::new(),
    )
}

fn store_of(accounts: Vec<Account>, groups: &[&str]) -> DataStore {
    let mut config = AppConfig::default();
    config.accounts = accounts;
    config.groups = groups.iter().map(|g| g.to_string()).collect();
    DataStore::new(config, Vec::new()).0
}

fn entry(name: &str, modified: Option<(i64, u32)>) -> BackupEntry {
    BackupEntry {
        name: name.to_string(),
        path: format!("/data/backups/{}", name),
        size: name.len() as u64,
        modified: modified.map(|(secs, nanos)| Timestamp { secs, nanos }),
    }
}

#[test]
fn backup_names_begin_and_end_as_they_must() {
    assert!(has_backup_name("accounts_20240101_120000.json"));
    assert!(has_backup_name("accounts_.json"));
    assert!(!has_backup_name("accounts.json"));
    assert!(!has_backup_name("accounts_20240101_120000.json.backup"));
    assert!(!has_backup_name("xaccounts_1.json"));
    assert!(!has_backup_name("Accounts_1.json"));
    assert!(!has_backup_name(""));
    assert_eq!(backup_file_name("20240101_120000"), "accounts_20240101_120000.json");
}

#[test]
fn timestamped_backup_name_carries_a_stamp() {
    let store = store_of(Vec::new(), &[]);
    let name = store.create_timestamped_backup();
    assert!(has_backup_name(&name));
    assert_eq!(name.len(), "accounts_".len() + 15 + ".json".len());
    assert_eq!(name.as_bytes()[17], b'_');
}

#[test]
fn cleanup_names_all_but_the_newest() {
    let entries = vec![
        entry("accounts_a.json", Some((10, 0))),
        entry("notes.txt", Some((99, 0))),
        entry("accounts_b.json", Some((30, 0))),
        entry("accounts_c.json", None),
        entry("accounts_d.json", Some((30, 5))),
        entry("accounts_e.json", Some((-4, 0))),
        entry("accounts_f.json", Some((30, 0))),
    ];
    let doomed = cleanup_old_backups(&entries, 2);
    assert_eq!(
        doomed,
        vec![
            "/data/backups/accounts_f.json".to_string(),
            "/data/backups/accounts_a.json".to_string(),
            "/data/backups/accounts_e.json".to_string(),
            "/data/backups/accounts_c.json".to_string(),
        ]
    );
    assert_eq!(cleanup_old_backups(&entries, 0).len(), 6);
    assert_eq!(cleanup_old_backups(&entries, 0)[0], "/data/backups/accounts_d.json");
    assert!(cleanup_old_backups(&entries, 6).is_empty());
    assert!(cleanup_old_backups(&entries, 60).is_empty());
    assert!(cleanup_old_backups(&Vec::new(), 0).is_empty());
}

#[test]
fn cleanup_keeps_ten_snapshots() {
    let mut entries = Vec::new();
    for i in 0..12 {
        entries.push(entry(&format!("accounts_{:02}.json", i), Some((i, 0))));
    }
    let doomed = cleanup_old_backups(&entries, BACKUPS_KEPT);
    assert_eq!(
        doomed,
        vec!["/data/backups/accounts_01.json".to_string(), "/data/backups/accounts_00.json".to_string()]
    );
}

#[test]
fn list_backups_goes_from_the_latest_to_the_earliest() {
    let store = store_of(Vec::new(), &[]);
    let entries = vec![
        entry("accounts_a.json", Some((10, 7))),
        entry("other.json", Some((99, 0))),
        entry("accounts_b.json", None),
        entry("accounts_c.json", Some((30, 0))),
        entry("accounts_d.json", Some((10, 9))),
    ];
    let listed = store.list_backups(&entries);
    let names: Vec<String> = listed.iter().map(|b| b.name.clone()).collect();
    assert_eq!(
        names,
        vec![
            "accounts_c.json".to_string(),
            "accounts_a.json".to_string(),
            "accounts_d.json".to_string(),
            "accounts_b.json".to_string(),
        ]
    );
    assert_eq!(listed[0].created_at, Some(30));
    assert_eq!(listed[0].path, "/data/backups/accounts_c.json");
    assert_eq!(listed[0].size, 15);
    assert_eq!(listed[3].created_at, None);
}

#[test]
fn export_hands_out_accounts_groups_and_settings() {
    let store = store_of(vec![account(1, "a@x"), account(2, "b@x")], &["g", "h"]);
    let export = store.export_data();
    assert_eq!(export.version, "1.0");
    assert!(!export.exported_at.is_empty());
    assert_eq!(export.accounts, store.get_all_accounts());
    assert_eq!(export.groups, store.get_groups());
    assert_eq!(export.settings, store.get_settings());
}

#[test]
fn import_merge_skips_the_emails_that_are_there() {
    let mut store = store_of(vec![account(1, "a@x")], &["g"]);
    let data = ImportData {
        accounts: Some(vec![account(5, "b@x"), account(6, "a@x"), account(7, "b@x"), account(8, "c@x")]),
        groups: Some(vec!["h".to_string(), "g".to_string(), "h".to_string()]),
    };
    let report = store.import_data(Some(data), true, true);
    assert_eq!(report, Ok(ImportResult { accounts_added: 2, accounts_skipped: 2, groups_added: 1 }));
    let ids: Vec<u128> = store.get_all_accounts().iter().map(|a| a.id).collect();
    assert_eq!(ids, vec![1, 5, 8]);
    assert_eq!(store.get_groups(), vec!["g".to_string(), "h".to_string()]);
}

#[test]
fn import_replace_overwrites_the_accounts() {
    let mut store = store_of(vec![account(1, "a@x")], &["g"]);
    let data = ImportData {
        accounts: Some(vec![account(5, "b@x"), account(6, "b@x")]),
        groups: None,
    };
    let report = store.import_data(Some(data), false, true);
    assert_eq!(report, Ok(ImportResult { accounts_added: 2, accounts_skipped: 0, groups_added: 0 }));
    let ids: Vec<u128> = store.get_all_accounts().iter().map(|a| a.id).collect();
    assert_eq!(ids, vec![5, 6]);
    assert_eq!(store.get_groups(), vec!["g".to_string()]);
}

#[test]
fn import_without_accounts_keeps_them() {
    let mut store = store_of(vec![account(1, "a@x")], &[]);
    let data = ImportData { accounts: None, groups: Some(vec!["n".to_string()]) };
    let report = store.import_data(Some(data), false, true);
    assert_eq!(report, Ok(ImportResult { accounts_added: 0, accounts_skipped: 0, groups_added: 1 }));
    assert_eq!(store.get_all_accounts().len(), 1);
}

#[test]
fn import_fails_before_it_changes_anything() {
    let mut store = store_of(vec![account(1, "a@x")], &["g"]);
    assert_eq!(store.import_data(None, true, true), Err(StoreError::Validation));
    assert_eq!(store.import_data(None, true, false), Err(StoreError::Validation));
    let data = ImportData { accounts: Some(vec![account(5, "b@x")]), groups: None };
    assert_eq!(store.import_data(Some(data), true, false), Err(StoreError::Io));
    assert_eq!(store.get_all_accounts().len(), 1);
    assert_eq!(store.get_groups(), vec!["g".to_string()]);
}

#[test]
fn export_then_merge_into_an_empty_store_gives_the_same() {
    let source = store_of(vec![account(1, "a@x"), account(2, "b@x"), account(3, "c@x")], &["g", "h"]);
    let export = source.export_data();
    let mut copy = store_of(Vec::new(), &[]);
    let data = ImportData { accounts: Some(export.accounts), groups: Some(export.groups) };
    let report = copy.import_data(Some(data), true, true).unwrap();
    assert_eq!(report, ImportResult { accounts_added: 3, accounts_skipped: 0, groups_added: 2 });
    assert_eq!(copy.get_all_accounts(), source.get_all_accounts());
    assert_eq!(copy.get_groups(), source.get_groups());
}

#[test]
fn restore_replaces_the_aggregate() {
    let mut store = store_of(vec![account(1, "a@x")], &["g"]);
    let mut backup = AppConfig::default();
    backup.accounts.push(account(9, "z@x"));
    backup.groups.push("old".to_string());
    assert_eq!(store.restore_from_backup(Some(backup), true), Ok(Persist::Config));
    assert_eq!(store.get_all_accounts()[0].id, 9);
    assert_eq!(store.get_groups(), vec!["old".to_string()]);
}

#[test]
fn restore_of_a_spoilt_snapshot_changes_nothing() {
    let mut store = store_of(vec![account(1, "a@x")], &["g"]);
    assert_eq!(store.restore_from_backup(None, true), Err(StoreError::Validation));
    assert_eq!(store.restore_from_backup(None, false), Err(StoreError::Validation));
    assert_eq!(store.restore_from_backup(Some(AppConfig::default()), false), Err(StoreError::Io));
    assert_eq!(store.get_all_accounts()[0].id, 1);
    assert_eq!(store.get_groups(), vec!["g".to_string()]);
}

#[test]
fn default_import_result_counts_nothing() {
    assert_eq!(
        ImportResult::default(),
        ImportResult { accounts_added: 0, accounts_skipped: 0, groups_added: 0 }
    );
}
