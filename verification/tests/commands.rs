use account_store::clock::Timestamp;
use account_store::account::AccountStatus;
use account_store::commands::{
    add_account, add_account_at, add_account_by_refresh_token, add_account_by_refresh_token_at,
    delete_account, delete_account_at, delete_accounts_batch, delete_accounts_batch_at,
    get_account, get_all_accounts, text_before, RefreshedLogin, UserDetails,
};
use account_store::config::AppConfig;
use account_store::error::StoreError;
use account_store::log::{OperationStatus, OperationType};
use account_store::store::{DataStore, Persist};
use account_store::text::decimal_text;

fn at(secs: i64) -> Timestamp {
    Timestamp { secs, nanos: 0 }
}

fn store_with(ids: &[u128]) -> DataStore {
    let (mut store, _) = DataStore::new(AppConfig::default(), Vec::new());
    for id in ids {
        add_account_at(
            &mut store,
            *id,
            at(0),
            format!("{}@x", id),
            "pw".into(),
            "nick".into(),
            Vec::new(),
            None,
        )
        .unwrap();
    }
    store
}

fn text(id: u128) -> String {
    format!("00000000-0000-0000-0000-{:012x}", id)
}

#[test]
fn numbers_are_written_in_decimal() {
    assert_eq!(decimal_text(0), "0");
    assert_eq!(decimal_text(7), "7");
    assert_eq!(decimal_text(10), "10");
    assert_eq!(decimal_text(1234567890), "1234567890");
    assert_eq!(decimal_text(usize::MAX), usize::MAX.to_string());
}

#[test]
fn added_account_carries_its_tags_and_is_logged() {
    let (mut store, _) = DataStore::new(AppConfig::default(), Vec::new());
    let account = add_account_at(
        &mut store,
        5,
        at(9),
        "a@x".into(),
        "pw".into(),
        "nick".into(),
        vec!["vip".into(), "new".into()],
        Some("team".into()),
    )
    .unwrap();
    assert_eq!(account.tags, vec!["vip".to_string(), "new".to_string()]);
    assert_eq!(account.group, Some("team".to_string()));
    assert_eq!(account.password, "pw");
    assert_eq!(account.created_at, at(9));
    assert_eq!(get_all_accounts(&store), vec![account]);
    let logs = store.get_logs(None);
    assert_eq!(logs.len(), 1);
    assert_eq!(logs[0].operation_type, OperationType::AddAccount);
    assert_eq!(logs[0].status, OperationStatus::Success);
    assert_eq!(logs[0].message, "添加账号: a@x");
    assert_eq!(logs[0].account_id, Some(5));
    assert_eq!(logs[0].account_email, Some("a@x".to_string()));
    assert_eq!(logs[0].created_at, at(9));
}

#[test]
fn added_account_with_a_taken_email_is_refused_and_not_logged() {
    let mut store = store_with(&[1]);
    let again = add_account(&mut store, "1@x".into(), "p".into(), "n".into(), vec![], None);
    assert_eq!(again.err(), Some(StoreError::DuplicateKey));
    assert_eq!(get_all_accounts(&store).len(), 1);
    assert_eq!(store.get_logs(None).len(), 1);
    let fresh = add_account(&mut store, "2@x".into(), "p".into(), "n".into(), vec!["t".into()], None);
    assert_eq!(fresh.unwrap().tags, vec!["t".to_string()]);
    assert_eq!(store.get_logs(None).len(), 2);
}

#[test]
fn account_is_found_by_the_text_of_its_id() {
    let store = store_with(&[1, 2]);
    assert_eq!(get_account(&store, &text(2)).unwrap().email, "2@x");
    assert_eq!(get_account(&store, "junk").err(), Some(StoreError::Validation));
    assert_eq!(get_account(&store, &text(3)).err(), Some(StoreError::NotFound));
}

#[test]
fn deleted_account_leaves_an_entry_that_stays() {
    let mut store = store_with(&[1, 2]);
    assert_eq!(delete_account_at(&mut store, &text(1), at(50)), Ok(Persist::ConfigAndLogs));
    assert_eq!(get_all_accounts(&store).len(), 1);
    let logs = store.get_logs(None);
    let messages: Vec<String> = logs.iter().map(|l| l.message.clone()).collect();
    assert_eq!(messages, vec!["添加账号: 2@x".to_string(), "删除账号: 1@x".to_string()]);
    assert_eq!(logs[1].operation_type, OperationType::DeleteAccount);
    assert_eq!(logs[1].account_id, None);
    assert_eq!(logs[1].created_at, at(50));
    assert_eq!(delete_account(&mut store, &text(1)), Err(StoreError::NotFound));
    assert_eq!(delete_account(&mut store, "junk"), Err(StoreError::Validation));
    assert_eq!(store.get_logs(None).len(), 2);
    assert_eq!(delete_account(&mut store, &text(2)), Ok(Persist::ConfigAndLogs));
    assert!(get_all_accounts(&store).is_empty());
}

#[test]
fn batch_deletion_counts_and_names_what_failed() {
    let mut store = store_with(&[1, 2, 3]);
    let ids = vec![text(1), "junk".to_string(), text(9), text(3), text(1)];
    let (deleted, failed) = delete_accounts_batch_at(&mut store, ids, at(70));
    assert_eq!(deleted, 2);
    assert_eq!(failed, vec!["junk".to_string(), text(9), text(1)]);
    let left: Vec<u128> = get_all_accounts(&store).iter().map(|a| a.id).collect();
    assert_eq!(left, vec![2]);
    let logs = store.get_logs(None);
    assert_eq!(logs.len(), 2);
    assert_eq!(logs[0].message, "添加账号: 2@x");
    assert_eq!(logs[1].operation_type, OperationType::BatchOperation);
    assert_eq!(logs[1].status, OperationStatus::Failed);
    assert_eq!(logs[1].message, "批量删除账号: 成功2个，失败3个");
    assert_eq!(logs[1].created_at, at(70));
}

#[test]
fn batch_deletion_without_failures_succeeds() {
    let mut store = store_with(&[1, 2]);
    let (deleted, failed) = delete_accounts_batch(&mut store, vec![text(2), text(1)]);
    assert_eq!(deleted, 2);
    assert!(failed.is_empty());
    let logs = store.get_logs(None);
    assert_eq!(logs.len(), 1);
    assert_eq!(logs[0].status, OperationStatus::Success);
    assert_eq!(logs[0].message, "批量删除账号: 成功2个，失败0个");
    let (deleted, failed) = delete_accounts_batch(&mut store, Vec::new());
    assert_eq!((deleted, failed.len()), (0, 0));
    assert_eq!(store.get_logs(None)[1].message, "批量删除账号: 成功0个，失败0个");
}

fn login(email: &str, details: Option<UserDetails>) -> RefreshedLogin {
    RefreshedLogin {
        email: email.to_string(),
        token: "tok".to_string(),
        refresh_token: "fresh".to_string(),
        expires_at: at(900),
        details,
    }
}

#[test]
fn part_of_a_text_before_a_mark() {
    assert_eq!(text_before("alice@example.com", '@'), "alice");
    assert_eq!(text_before("a@b@c", '@'), "a");
    assert_eq!(text_before("@x", '@'), "");
    assert_eq!(text_before("no mark", '@'), "no mark");
    assert_eq!(text_before("", '@'), "");
    assert_eq!(text_before("登录@x", '@'), "登录");
}

#[test]
fn refreshed_login_becomes_an_active_account() {
    let mut store = store_with(&[1]);
    let details = UserDetails {
        api_key: Some("key".into()),
        disabled: Some(false),
        plan_name: Some("Pro".into()),
        used_quota: Some(3),
        total_quota: None,
        subscription_expires_at: Some(None),
    };
    let account = add_account_by_refresh_token_at(
        &mut store,
        7,
        at(40),
        login("Alice@Example.com", Some(details)),
        None,
        vec!["vip".into()],
        None,
    )
    .unwrap();
    assert_eq!(account.id, 7);
    assert_eq!(account.email, "Alice@Example.com");
    assert_eq!(account.password, "");
    assert_eq!(account.nickname, "Alice");
    assert_eq!(account.group, Some("默认分组".to_string()));
    assert_eq!(account.tags, vec!["vip".to_string()]);
    assert_eq!(account.token, Some("tok".to_string()));
    assert_eq!(account.refresh_token, Some("fresh".to_string()));
    assert_eq!(account.token_expires_at, Some(at(900)));
    assert_eq!(account.status, AccountStatus::Active);
    assert_eq!(account.last_login_at, Some(at(40)));
    assert_eq!(account.windsurf_api_key, Some("key".to_string()));
    assert_eq!(account.is_disabled, Some(false));
    assert_eq!(account.plan_name, Some("Pro".to_string()));
    assert_eq!(account.used_quota, Some(3));
    assert_eq!(account.total_quota, None);
    assert_eq!(account.subscription_expires_at, None);
    assert_eq!(account.last_quota_update, Some(at(40)));
    assert_eq!(store.get_account(7).unwrap(), account);
    let logs = store.get_logs(None);
    assert_eq!(logs.last().unwrap().message, "通过RefreshToken添加账号: Alice@Example.com");
    assert_eq!(logs.last().unwrap().account_id, Some(7));
}

#[test]
fn refreshed_login_without_details_keeps_the_quota_unknown() {
    let mut store = store_with(&[]);
    let account =
        add_account_by_refresh_token(&mut store, login("bob@x", None), Some("Bobby".into()), vec![], Some("g".into()))
            .unwrap();
    assert_eq!(account.nickname, "Bobby");
    assert_eq!(account.group, Some("g".to_string()));
    assert_eq!(account.last_quota_update, None);
    assert_eq!(account.plan_name, None);
    assert!(account.last_login_at.is_some());
}

#[test]
fn refreshed_login_is_refused_for_an_email_in_other_capitals() {
    let mut store = store_with(&[]);
    add_account_at(&mut store, 1, at(0), "Alice@X".into(), "p".into(), "n".into(), vec![], None).unwrap();
    let again = add_account_by_refresh_token_at(&mut store, 2, at(1), login("alice@x", None), None, vec![], None);
    assert_eq!(again.err(), Some(StoreError::DuplicateKey));
    let same_id = add_account_by_refresh_token_at(&mut store, 1, at(1), login("carol@x", None), None, vec![], None);
    assert_eq!(same_id.err(), Some(StoreError::DuplicateKey));
    assert_eq!(get_all_accounts(&store).len(), 1);
    assert_eq!(store.get_logs(None).len(), 1);
}
