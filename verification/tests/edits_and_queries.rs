use account_store::account::{Account, AccountStatus};
use account_store::clock::Timestamp;
use account_store::commands::get_account;
use account_store::config::AppConfig;
use account_store::error::StoreError;
use account_store::log::{OperationStatus, OperationType};
use account_store::patch::{apply_patch, status_from_name, update_account, update_account_at, AccountPatch};
use account_store::query::{filter_accounts_by_group, filter_accounts_by_tags, search_accounts};
use account_store::store::{DataStore, Persist};
use account_store::text::{characters, contains, ends_with, starts_with};

fn account(id: u128, email: &str, nickname: &str, tags: &[&str], group: Option<&str>) -> Account {
    let mut a = Account::new(
        id,
        Timestamp { secs: 0, nanos: 0 },
        email.to_string(),
        "pw".to_string(),
        nickname.to_string(),
        tags.iter().map(|t| t.to_string()).collect(),
    );
    a.group = group.map(|g| g.to_string());
    a
}

fn store_of(accounts: Vec<Account>) -> DataStore {
    let mut config = AppConfig::default();
    config.accounts = accounts;
    DataStore::new(config, Vec::new()).0
}

fn no_change() -> AccountPatch {
    AccountPatch {
        nickname: None,
        group: None,
        tags: None,
        plan_name: None,
        used_quota: None,
        total_quota: None,
        last_quota_update: None,
        subscription_expires_at: None,
        is_disabled: None,
        windsurf_api_key: None,
        token: None,
        status: None,
        password: None,
    }
}

fn ids(accounts: Vec<Account>) -> Vec<u128> {
    accounts.into_iter().map(|a| a.id).collect()
}

#[test]
fn account_ids_are_read_and_written_as_uuids() {
    let id = 0x550e8400_e29b_41d4_a716_446655440000u128;
    let store = store_of(vec![account(id, "a@x", "n", &[], None), account(1, "b@x", "n", &[], None)]);
    let found = |text: &str| get_account(&store, text).map(|a| a.id);
    assert_eq!(found("550e8400-e29b-41d4-a716-446655440000"), Ok(id));
    assert_eq!(found("urn:uuid:550E8400-E29B-41D4-A716-446655440000"), Ok(id));
    assert_eq!(found("{550e8400-e29b-41d4-a716-446655440000}"), Ok(id));
    assert_eq!(found("00000000000000000000000000000001"), Ok(1));
    assert_eq!(found("550e8400"), Err(StoreError::Validation));
    assert_eq!(found(""), Err(StoreError::Validation));
    assert_eq!(found("ffffffff-ffff-ffff-ffff-ffffffffffff"), Err(StoreError::NotFound));
}

#[test]
fn notification_prints_the_id_and_the_expiry() {
    let mut store = store_of(vec![account(u128::MAX, "a@x", "n", &[], None), account(1, "b@x", "n", &[], None)]);
    let (_, payload) = store
        .update_account_tokens(u128::MAX, "t".into(), "r".into(), Timestamp { secs: 0, nanos: 0 })
        .unwrap();
    let payload = payload.unwrap();
    assert_eq!(payload.account_id, "ffffffff-ffff-ffff-ffff-ffffffffffff");
    assert_eq!(payload.token_expires_at, "1970-01-01T00:00:00+00:00");
    let (_, payload) = store
        .update_account_tokens(1, "t".into(), "r".into(), Timestamp { secs: 1431648000, nanos: 500_000_000 })
        .unwrap();
    let payload = payload.unwrap();
    assert_eq!(payload.account_id, "00000000-0000-0000-0000-000000000001");
    assert_eq!(payload.token_expires_at, "2015-05-15T00:00:00.500+00:00");
    let (_, payload) = store
        .update_account_tokens(1, "t".into(), "r".into(), Timestamp { secs: i64::MIN, nanos: 0 })
        .unwrap();
    assert!(payload.is_none());
}

#[test]
fn empty_patch_changes_nothing() {
    let mut a = account(1, "a@x", "nick", &["t"], Some("g"));
    let before = a.clone();
    apply_patch(&mut a, no_change());
    assert_eq!(a, before);
}

#[test]
fn patch_changes_the_fields_it_names() {
    let mut a = account(1, "a@x", "nick", &["t"], Some("g"));
    a.is_disabled = Some(true);
    let mut patch = no_change();
    patch.nickname = Some("new".into());
    patch.group = Some(Some("  team ".into()));
    patch.tags = Some(vec!["x".into(), "y".into()]);
    patch.plan_name = Some("pro".into());
    patch.used_quota = Some(4);
    patch.total_quota = Some(10);
    patch.last_quota_update = Some(Timestamp { secs: 5, nanos: 0 });
    patch.subscription_expires_at = Some(Timestamp { secs: 6, nanos: 0 });
    patch.is_disabled = Some(None);
    patch.windsurf_api_key = Some("key".into());
    patch.token = Some("tok".into());
    patch.status = Some("active".into());
    patch.password = Some("ignored here".into());
    apply_patch(&mut a, patch);
    assert_eq!(a.nickname, "new");
    assert_eq!(a.group, Some("team".to_string()));
    assert_eq!(a.tags, vec!["x".to_string(), "y".to_string()]);
    assert_eq!(a.plan_name, Some("pro".to_string()));
    assert_eq!(a.used_quota, Some(4));
    assert_eq!(a.total_quota, Some(10));
    assert_eq!(a.last_quota_update, Some(Timestamp { secs: 5, nanos: 0 }));
    assert_eq!(a.subscription_expires_at, Some(Timestamp { secs: 6, nanos: 0 }));
    assert_eq!(a.is_disabled, None);
    assert_eq!(a.windsurf_api_key, Some("key".to_string()));
    assert_eq!(a.token, Some("tok".to_string()));
    assert_eq!(a.status, AccountStatus::Active);
    assert_eq!(a.password, "pw");
    assert_eq!(a.email, "a@x");
    assert_eq!(a.id, 1);
}

#[test]
fn patch_passes_over_blank_groups_and_empty_tokens() {
    let mut a = account(1, "a@x", "nick", &[], Some("g"));
    a.token = Some("old".into());
    let mut patch = no_change();
    patch.group = Some(Some("   ".into()));
    patch.token = Some("".into());
    apply_patch(&mut a, patch);
    assert_eq!(a.group, Some("g".to_string()));
    assert_eq!(a.token, Some("old".to_string()));
    let mut patch = no_change();
    patch.group = Some(None);
    patch.is_disabled = Some(Some(false));
    apply_patch(&mut a, patch);
    assert_eq!(a.group, None);
    assert_eq!(a.is_disabled, Some(false));
}

#[test]
fn status_is_read_from_its_name() {
    assert_eq!(status_from_name("active".into()), AccountStatus::Active);
    assert_eq!(status_from_name("inactive".into()), AccountStatus::Inactive);
    assert_eq!(status_from_name("error".into()), AccountStatus::Error("API错误".into()));
    assert_eq!(status_from_name("banned".into()), AccountStatus::Error("banned".into()));
    assert_eq!(status_from_name("Active".into()), AccountStatus::Error("Active".into()));
}

#[test]
fn edit_is_stored_and_logged() {
    let mut store = store_of(vec![account(1, "a@x", "nick", &[], None), account(2, "b@x", "n", &[], None)]);
    let mut patch = no_change();
    patch.nickname = Some("new".into());
    let now = Timestamp { secs: 77, nanos: 0 };
    assert_eq!(update_account_at(&mut store, 2, patch, now), Ok(Persist::ConfigAndLogs));
    let edited = store.get_account(2).unwrap();
    assert_eq!(edited.nickname, "new");
    assert_eq!(edited.password, "pw");
    assert_eq!(store.get_account(1).unwrap().nickname, "nick");
    let logs = store.get_logs(None);
    assert_eq!(logs.len(), 1);
    assert_eq!(logs[0].operation_type, OperationType::EditAccount);
    assert_eq!(logs[0].status, OperationStatus::Success);
    assert_eq!(logs[0].message, "更新账号: b@x");
    assert_eq!(logs[0].account_id, Some(2));
    assert_eq!(logs[0].account_email, Some("b@x".to_string()));
    assert_eq!(logs[0].created_at, now);
}

#[test]
fn edit_changes_the_password_only_where_one_is_given() {
    let mut store = store_of(vec![account(1, "a@x", "nick", &[], None)]);
    let mut patch = no_change();
    patch.password = Some("".into());
    update_account(&mut store, 1, patch).unwrap();
    assert_eq!(store.get_account(1).unwrap().password, "pw");
    let mut patch = no_change();
    patch.password = Some("fresh".into());
    update_account(&mut store, 1, patch).unwrap();
    assert_eq!(store.get_account(1).unwrap().password, "fresh");
    assert_eq!(store.get_logs(None).len(), 2);
}

#[test]
fn edit_of_unknown_id_is_not_found() {
    let mut store = store_of(vec![account(1, "a@x", "nick", &[], None)]);
    assert_eq!(update_account(&mut store, 5, no_change()), Err(StoreError::NotFound));
    assert!(store.get_logs(None).is_empty());
}

#[test]
fn search_looks_at_email_nickname_and_tags() {
    let store = store_of(vec![
        account(1, "Alice@Example.com", "al", &[], None),
        account(2, "bob@x", "The ALICE fan", &[], None),
        account(3, "carol@x", "c", &["work", "Malice"], None),
        account(4, "dave@x", "d", &["work"], None),
    ]);
    assert_eq!(ids(search_accounts(&store, "alice".into())), vec![1, 2, 3]);
    assert_eq!(ids(search_accounts(&store, "ALICE".into())), vec![1, 2, 3]);
    assert_eq!(ids(search_accounts(&store, "work".into())), vec![3, 4]);
    assert_eq!(ids(search_accounts(&store, "".into())), vec![1, 2, 3, 4]);
    assert!(search_accounts(&store, "nobody".into()).is_empty());
}

#[test]
fn filter_by_group_and_by_tags() {
    let store = store_of(vec![
        account(1, "a@x", "a", &["x"], Some("g")),
        account(2, "b@x", "b", &["y", "z"], None),
        account(3, "c@x", "c", &[], Some("g")),
        account(4, "d@x", "d", &["z"], Some("G")),
    ]);
    assert_eq!(ids(filter_accounts_by_group(&store, "g".into())), vec![1, 3]);
    assert!(filter_accounts_by_group(&store, "none".into()).is_empty());
    assert_eq!(ids(filter_accounts_by_tags(&store, vec!["z".into(), "x".into()])), vec![1, 2, 4]);
    assert_eq!(ids(filter_accounts_by_tags(&store, vec!["y".into()])), vec![2]);
    assert!(filter_accounts_by_tags(&store, vec![]).is_empty());
}

#[test]
fn texts_are_searched_character_by_character() {
    assert_eq!(characters("aé登"), vec!['a', 'é', '登']);
    assert!(characters("").is_empty());
    assert!(contains("héllo wörld", "lo w"));
    assert!(contains("héllo wörld", "héllo wörld"));
    assert!(contains("héllo wörld", "ö"));
    assert!(contains("héllo wörld", ""));
    assert!(contains("", ""));
    assert!(!contains("", "a"));
    assert!(!contains("héllo", "hello"));
    assert!(!contains("abc", "abcd"));
    assert!(!contains("abab", "bb"));
    assert!(contains("aab", "ab"));
    assert!(starts_with("登录@x", "登"));
    assert!(starts_with("abc", ""));
    assert!(starts_with("abc", "abc"));
    assert!(!starts_with("abc", "abcd"));
    assert!(!starts_with("abc", "bc"));
    assert!(ends_with("abc", "bc"));
    assert!(ends_with("abc", ""));
    assert!(ends_with("名.json", ".json"));
    assert!(!ends_with("abc", "ab"));
    assert!(!ends_with("c", "bc"));
}
