use account_store::account::{Account, AccountStatus};
use account_store::clock::Timestamp;
use account_store::config::AppConfig;
use account_store::error::StoreError;
use account_store::log::{OperationLog, OperationStatus, OperationType};
use account_store::store::{DataStore, Persist};

fn at(secs: i64) -> Timestamp {
    Timestamp { secs, nanos: 0 }
}

fn empty_store() -> DataStore {
    DataStore::new(AppConfig::default(), Vec::new()).0
}

fn insert(store: &mut DataStore, id: u128, email: &str) -> Account {
    store
        .insert_account(id, at(id as i64), email.to_string(), "pw".to_string(), "nick".to_string(), None)
        .unwrap()
}

fn log_for(id: Option<u128>, message: &str) -> OperationLog {
    let entry = OperationLog::new(
        OperationType::EditAccount,
        OperationStatus::Success,
        message.to_string(),
        at(0),
    );
    match id {
        Some(id) => entry.with_account(id, "x@example.com".to_string()),
        None => entry,
    }
}

#[test]
fn new_store_is_empty_and_well_formed() {
    let store = empty_store();
    assert!(store.get_all_accounts().is_empty());
    assert!(store.get_groups().is_empty());
    assert!(store.get_tags().is_empty());
    assert!(store.config.is_well_formed());
}

#[test]
fn new_store_moves_inline_logs_to_the_log() {
    let mut config = AppConfig::default();
    config.logs.push(log_for(None, "old"));
    let (store, persist) = DataStore::new(config, Vec::new());
    assert_eq!(persist, Persist::ConfigAndLogs);
    assert!(store.config.logs.is_empty());
    assert_eq!(store.logs.len(), 1);
    assert_eq!(store.logs[0].message, "old");
}

#[test]
fn new_store_keeps_inline_logs_beside_a_filled_log() {
    let mut config = AppConfig::default();
    config.logs.push(log_for(None, "old"));
    let (store, persist) = DataStore::new(config, vec![log_for(None, "new")]);
    assert_eq!(persist, Persist::Nothing);
    assert_eq!(store.config.logs.len(), 1);
    assert_eq!(store.logs.len(), 1);
    assert_eq!(store.logs[0].message, "new");
}

#[test]
fn insert_account_joins_the_default_group() {
    let mut store = empty_store();
    let account = insert(&mut store, 7, "a@example.com");
    assert_eq!(account.id, 7);
    assert_eq!(account.email, "a@example.com");
    assert_eq!(account.group, Some("默认分组".to_string()));
    assert_eq!(account.status, AccountStatus::Inactive);
    assert!(account.tags.is_empty());
    assert_eq!(account.created_at, at(7));
    assert_eq!(store.get_groups(), vec!["默认分组".to_string()]);
    assert_eq!(store.get_all_accounts(), vec![account]);
}

#[test]
fn insert_account_trims_the_group_it_is_given() {
    let mut store = empty_store();
    let account = store
        .insert_account(1, at(0), "a@example.com".into(), "p".into(), "n".into(), Some("  team  ".into()))
        .unwrap();
    assert_eq!(account.group, Some("team".to_string()));
    assert_eq!(store.get_groups(), vec!["team".to_string()]);
}

#[test]
fn insert_account_takes_a_blank_group_for_none() {
    let mut store = empty_store();
    let account = store
        .insert_account(1, at(0), "a@example.com".into(), "p".into(), "n".into(), Some("   ".into()))
        .unwrap();
    assert_eq!(account.group, Some("默认分组".to_string()));
}

#[test]
fn insert_account_does_not_repeat_a_group() {
    let mut store = empty_store();
    store.add_group("team".into());
    store
        .insert_account(1, at(0), "a@example.com".into(), "p".into(), "n".into(), Some("team".into()))
        .unwrap();
    assert_eq!(store.get_groups(), vec!["team".to_string()]);
}

#[test]
fn duplicate_email_is_refused_and_changes_nothing() {
    let mut store = empty_store();
    insert(&mut store, 1, "a@example.com");
    let before = store.get_all_accounts();
    let groups = store.get_groups();
    let again = store.insert_account(2, at(0), "a@example.com".into(), "p".into(), "n".into(), Some("other".into()));
    assert_eq!(again.err(), Some(StoreError::DuplicateKey));
    assert_eq!(store.get_all_accounts(), before);
    assert_eq!(store.get_groups(), groups);
    let random = store.add_account("a@example.com".into(), "p".into(), "n".into(), None);
    assert_eq!(random.err(), Some(StoreError::DuplicateKey));
    assert_eq!(store.get_all_accounts(), before);
}

#[test]
fn emails_are_compared_letter_for_letter() {
    let mut store = empty_store();
    insert(&mut store, 1, "a@example.com");
    assert!(store
        .insert_account(2, at(0), "A@example.com".into(), "p".into(), "n".into(), None)
        .is_ok());
    assert_eq!(store.get_all_accounts().len(), 2);
}

#[test]
fn duplicate_id_is_refused() {
    let mut store = empty_store();
    insert(&mut store, 1, "a@example.com");
    let again = store.insert_account(1, at(0), "b@example.com".into(), "p".into(), "n".into(), None);
    assert_eq!(again.err(), Some(StoreError::DuplicateKey));
    assert_eq!(store.get_all_accounts().len(), 1);
}

#[test]
fn add_account_draws_ids_that_differ() {
    let mut store = empty_store();
    let a = store.add_account("a@example.com".into(), "p".into(), "n".into(), None).unwrap();
    let b = store.add_account("b@example.com".into(), "p".into(), "n".into(), None).unwrap();
    assert_ne!(a.id, b.id);
    assert_eq!(store.get_account(a.id).unwrap(), a);
    assert_eq!(store.get_account(b.id).unwrap(), b);
    assert!(store.config.is_well_formed());
}

#[test]
fn get_account_of_unknown_id_is_not_found() {
    let mut store = empty_store();
    insert(&mut store, 1, "a@example.com");
    assert_eq!(store.get_account(2).err(), Some(StoreError::NotFound));
    assert_eq!(store.get_decrypted_password(2).err(), Some(StoreError::NotFound));
    assert_eq!(store.get_decrypted_token(2).err(), Some(StoreError::NotFound));
}

#[test]
fn update_account_replaces_all_but_the_password() {
    let mut store = empty_store();
    insert(&mut store, 1, "a@example.com");
    insert(&mut store, 2, "b@example.com");
    let mut changed = store.get_account(1).unwrap();
    changed.email = "new@example.com".into();
    changed.password = "stolen".into();
    changed.nickname = "other".into();
    changed.group = None;
    changed.tags = vec!["t".into()];
    changed.token = Some("tok".into());
    changed.plan_name = Some("pro".into());
    changed.used_quota = Some(3);
    changed.total_quota = Some(9);
    changed.sort_order = 5;
    changed.status = AccountStatus::Error("broken".into());
    assert_eq!(store.update_account(changed.clone()), Ok(Persist::Config));
    let stored = store.get_account(1).unwrap();
    assert_eq!(stored.password, "pw");
    changed.password = "pw".into();
    assert_eq!(stored, changed);
    assert_eq!(store.get_account(2).unwrap().email, "b@example.com");
    assert_eq!(store.get_decrypted_password(1), Ok("pw".to_string()));
}

#[test]
fn update_account_no_save_asks_for_no_write() {
    let mut store = empty_store();
    insert(&mut store, 1, "a@example.com");
    let mut changed = store.get_account(1).unwrap();
    changed.nickname = "later".into();
    assert_eq!(store.update_account_no_save(changed), Ok(Persist::Nothing));
    assert_eq!(store.get_account(1).unwrap().nickname, "later");
    assert_eq!(store.flush(), Persist::Config);
}

#[test]
fn update_account_of_unknown_id_is_not_found() {
    let mut store = empty_store();
    insert(&mut store, 1, "a@example.com");
    let mut stranger = store.get_account(1).unwrap();
    stranger.id = 9;
    assert_eq!(store.update_account(stranger), Err(StoreError::NotFound));
    assert_eq!(store.get_all_accounts().len(), 1);
}

#[test]
fn update_account_password_changes_only_the_password() {
    let mut store = empty_store();
    let before = insert(&mut store, 1, "a@example.com");
    assert_eq!(store.update_account_password(1, "fresh".into()), Ok(Persist::Config));
    let after = store.get_account(1).unwrap();
    assert_eq!(after.password, "fresh");
    let mut expected = before;
    expected.password = "fresh".into();
    assert_eq!(after, expected);
    assert_eq!(store.update_account_password(2, "x".into()), Err(StoreError::NotFound));
}

#[test]
fn delete_account_cascades_to_its_log_entries() {
    let mut store = empty_store();
    insert(&mut store, 1, "a@example.com");
    insert(&mut store, 2, "b@example.com");
    store.add_log(log_for(Some(1), "one"));
    store.add_log(log_for(None, "none"));
    store.add_log(log_for(Some(2), "two"));
    store.add_log(log_for(Some(1), "one again"));
    assert_eq!(store.delete_account(1), Ok(Persist::ConfigAndLogs));
    let ids: Vec<u128> = store.get_all_accounts().iter().map(|a| a.id).collect();
    assert_eq!(ids, vec![2]);
    let left: Vec<String> = store.get_logs(None).iter().map(|l| l.message.clone()).collect();
    assert_eq!(left, vec!["none".to_string(), "two".to_string()]);
}

#[test]
fn delete_account_of_unknown_id_changes_nothing() {
    let mut store = empty_store();
    insert(&mut store, 1, "a@example.com");
    store.add_log(log_for(Some(9), "nine"));
    assert_eq!(store.delete_account(9), Err(StoreError::NotFound));
    assert_eq!(store.get_all_accounts().len(), 1);
    assert_eq!(store.get_logs(None).len(), 1);
}

#[test]
fn update_account_token_marks_the_account_active() {
    let mut store = empty_store();
    insert(&mut store, 1, "a@example.com");
    let mut with_refresh = store.get_account(1).unwrap();
    with_refresh.refresh_token = Some("keep".into());
    store.update_account(with_refresh).unwrap();
    assert_eq!(store.update_account_token(1, "tok".into(), at(500)), Ok(Persist::Config));
    let account = store.get_account(1).unwrap();
    assert_eq!(account.token, Some("tok".to_string()));
    assert_eq!(account.refresh_token, Some("keep".to_string()));
    assert_eq!(account.token_expires_at, Some(at(500)));
    assert_eq!(account.status, AccountStatus::Active);
    assert!(account.last_login_at.is_some());
    assert_eq!(store.get_decrypted_token(1), Ok(Some("tok".to_string())));
    assert_eq!(store.update_account_token(3, "tok".into(), at(1)), Err(StoreError::NotFound));
}

#[test]
fn update_account_tokens_hands_out_the_notification() {
    let mut store = empty_store();
    insert(&mut store, 0x550e8400_e29b_41d4_a716_446655440000, "a@example.com");
    let (persist, payload) = store
        .update_account_tokens(
            0x550e8400_e29b_41d4_a716_446655440000,
            "tok".into(),
            "refresh".into(),
            Timestamp { secs: 1431648000, nanos: 0 },
        )
        .unwrap();
    assert_eq!(persist, Persist::Config);
    let payload = payload.unwrap();
    assert_eq!(payload.account_id, "550e8400-e29b-41d4-a716-446655440000");
    assert_eq!(payload.token, "tok");
    assert_eq!(payload.token_expires_at, "2015-05-15T00:00:00+00:00");
    let account = store.get_all_accounts().remove(0);
    assert_eq!(account.refresh_token, Some("refresh".to_string()));
    assert_eq!(account.status, AccountStatus::Active);
}

#[test]
fn update_account_tokens_no_save_asks_for_no_write() {
    let mut store = empty_store();
    insert(&mut store, 1, "a@example.com");
    let (persist, payload) = store
        .update_account_tokens_no_save(1, "tok".into(), "refresh".into(), at(10))
        .unwrap();
    assert_eq!(persist, Persist::Nothing);
    assert!(payload.is_some());
    assert_eq!(
        store.update_account_tokens(2, "tok".into(), "r".into(), at(10)).err(),
        Some(StoreError::NotFound)
    );
}

#[test]
fn update_account_tokens_without_a_printable_expiry_sends_nothing() {
    let mut store = empty_store();
    insert(&mut store, 1, "a@example.com");
    let (_, payload) = store
        .update_account_tokens(1, "tok".into(), "r".into(), Timestamp { secs: i64::MAX, nanos: 0 })
        .unwrap();
    assert!(payload.is_none());
    assert_eq!(store.get_account(1).unwrap().token, Some("tok".to_string()));
}

#[test]
fn set_tokens_stamps_the_given_time() {
    let mut store = empty_store();
    insert(&mut store, 1, "a@example.com");
    assert_eq!(store.set_tokens(1, "t".into(), Some("r".into()), at(9), at(4)), Ok(()));
    let account = store.get_account(1).unwrap();
    assert_eq!(account.last_login_at, Some(at(4)));
    assert_eq!(account.token_expires_at, Some(at(9)));
}

#[test]
fn settings_are_replaced_as_a_whole() {
    let mut store = empty_store();
    let mut settings = store.get_settings();
    assert_eq!(settings.custom_card_bin, "");
    settings.custom_card_bin = "411111".into();
    settings.test_mode_last_bin = Some("411112".into());
    settings.card_bind_retry_count = 4;
    assert_eq!(store.update_settings(settings.clone()), Persist::Config);
    assert_eq!(store.get_settings(), settings);
    assert_eq!(
        account_store::records::get_test_mode_progress(&store),
        Some("411112".to_string())
    );
    assert_eq!(account_store::records::reset_test_mode_progress(&mut store), Persist::Config);
    assert_eq!(account_store::records::get_test_mode_progress(&store), None);
    assert_eq!(store.get_settings().custom_card_bin, "411111");
}

#[test]
fn error_messages_differ() {
    assert_eq!(StoreError::NotFound.message(), "not found");
    assert_eq!(StoreError::DuplicateKey.message(), "already exists");
    assert_eq!(StoreError::Validation.message(), "invalid data");
    assert_eq!(StoreError::Io.message(), "file system failure");
}

#[test]
fn well_formedness_asks_for_ids_emails_groups_and_tags_to_occur_once() {
    let fresh = |id: u128, email: &str| {
        Account::new(id, at(0), email.to_string(), "p".into(), "n".into(), Vec::new())
    };
    let mut config = AppConfig::default();
    config.accounts = vec![fresh(1, "a@x"), fresh(2, "b@x")];
    config.groups = vec!["g".into(), "h".into()];
    config.tags = vec![
        account_store::account::GlobalTag { name: "t".into(), color: "red".into() },
        account_store::account::GlobalTag { name: "u".into(), color: "red".into() },
    ];
    assert!(config.is_well_formed());
    let mut same_id = config.clone();
    same_id.accounts.push(fresh(1, "c@x"));
    assert!(!same_id.is_well_formed());
    let mut same_email = config.clone();
    same_email.accounts.push(fresh(3, "a@x"));
    assert!(!same_email.is_well_formed());
    let mut same_group = config.clone();
    same_group.groups.push("g".into());
    assert!(!same_group.is_well_formed());
    let mut same_tag = config.clone();
    same_tag.tags.push(account_store::account::GlobalTag { name: "t".into(), color: "blue".into() });
    assert!(!same_tag.is_well_formed());
}

#[test]
fn update_account_can_take_an_email_that_is_taken() {
    let mut store = empty_store();
    insert(&mut store, 1, "a@example.com");
    insert(&mut store, 2, "b@example.com");
    let mut changed = store.get_account(2).unwrap();
    changed.email = "a@example.com".into();
    assert_eq!(store.update_account(changed), Ok(Persist::Config));
    assert!(!store.config.is_well_formed());
}
