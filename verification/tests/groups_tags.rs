use account_store::account::{GlobalTag, TagWithColor};
use account_store::clock::Timestamp;
use account_store::config::AppConfig;
use account_store::error::StoreError;
use account_store::store::{DataStore, Persist};

fn store_with(accounts: &[(u128, &str, Option<&str>)]) -> DataStore {
    let (mut store, _) = DataStore::new(AppConfig::default(), Vec::new());
    for (id, email, group) in accounts {
        store
            .insert_account(
                *id,
                Timestamp { secs: 0, nanos: 0 },
                email.to_string(),
                "pw".to_string(),
                "nick".to_string(),
                group.map(|g| g.to_string()),
            )
            .unwrap();
    }
    store
}

fn tag(name: &str, color: &str) -> GlobalTag {
    GlobalTag { name: name.to_string(), color: color.to_string() }
}

fn give_tags(store: &mut DataStore, id: u128, tags: &[&str], colors: &[(&str, &str)]) {
    let mut account = store.get_account(id).unwrap();
    account.tags = tags.iter().map(|t| t.to_string()).collect();
    account.tag_colors = colors
        .iter()
        .map(|(n, c)| TagWithColor { name: n.to_string(), color: c.to_string() })
        .collect();
    store.update_account(account).unwrap();
}

#[test]
fn add_group_adds_a_name_once() {
    let mut store = store_with(&[]);
    assert_eq!(store.add_group("a".into()), Persist::Config);
    assert_eq!(store.add_group("b".into()), Persist::Config);
    assert_eq!(store.add_group("a".into()), Persist::Config);
    assert_eq!(store.get_groups(), vec!["a".to_string(), "b".to_string()]);
}

#[test]
fn delete_group_clears_the_reference_and_keeps_the_accounts() {
    let mut store = store_with(&[(1, "a@x", Some("g")), (2, "b@x", Some("h")), (3, "c@x", Some("g"))]);
    assert_eq!(store.delete_group("g".into()), Persist::Config);
    assert_eq!(store.get_groups(), vec!["h".to_string()]);
    let groups: Vec<Option<String>> = store.get_all_accounts().into_iter().map(|a| a.group).collect();
    assert_eq!(groups, vec![None, Some("h".to_string()), None]);
    assert!(store.config.is_well_formed());
}

#[test]
fn delete_group_of_unknown_name_changes_nothing() {
    let mut store = store_with(&[(1, "a@x", Some("g"))]);
    let before = store.get_all_accounts();
    store.delete_group("zzz".into());
    assert_eq!(store.get_all_accounts(), before);
    assert_eq!(store.get_groups(), vec!["g".to_string()]);
}

#[test]
fn rename_group_follows_into_the_accounts() {
    let mut store = store_with(&[(1, "a@x", Some("g")), (2, "b@x", Some("h"))]);
    assert_eq!(store.rename_group("g".into(), "k".into()), Ok(Persist::Config));
    assert_eq!(store.get_groups(), vec!["k".to_string(), "h".to_string()]);
    assert_eq!(store.get_account(1).unwrap().group, Some("k".to_string()));
    assert_eq!(store.get_account(2).unwrap().group, Some("h".to_string()));
}

#[test]
fn rename_group_to_a_taken_name_is_refused() {
    let mut store = store_with(&[(1, "a@x", Some("g")), (2, "b@x", Some("h"))]);
    assert_eq!(store.rename_group("g".into(), "h".into()), Err(StoreError::DuplicateKey));
    assert_eq!(store.rename_group("g".into(), "g".into()), Err(StoreError::DuplicateKey));
    assert_eq!(store.rename_group("nope".into(), "h".into()), Err(StoreError::DuplicateKey));
    assert_eq!(store.get_groups(), vec!["g".to_string(), "h".to_string()]);
    assert_eq!(store.get_account(1).unwrap().group, Some("g".to_string()));
}

#[test]
fn rename_group_of_unknown_name_is_not_found() {
    let mut store = store_with(&[(1, "a@x", Some("g"))]);
    assert_eq!(store.rename_group("nope".into(), "k".into()), Err(StoreError::NotFound));
    assert_eq!(store.get_groups(), vec!["g".to_string()]);
}

#[test]
fn add_tag_refuses_a_taken_name() {
    let mut store = store_with(&[]);
    assert_eq!(store.add_tag(tag("vip", "red")), Ok(Persist::Config));
    assert_eq!(store.add_tag(tag("vip", "blue")), Err(StoreError::DuplicateKey));
    assert_eq!(store.add_tag(tag("new", "blue")), Ok(Persist::Config));
    assert_eq!(store.get_tags(), vec![tag("vip", "red"), tag("new", "blue")]);
}

#[test]
fn update_tag_changes_the_colour_alone() {
    let mut store = store_with(&[(1, "a@x", None)]);
    store.add_tag(tag("vip", "red")).unwrap();
    give_tags(&mut store, 1, &["vip"], &[("vip", "own")]);
    assert_eq!(store.update_tag("vip".into(), tag("vip", "green")), Ok(Persist::Config));
    assert_eq!(store.get_tags(), vec![tag("vip", "green")]);
    let account = store.get_account(1).unwrap();
    assert_eq!(account.tags, vec!["vip".to_string()]);
    assert_eq!(account.tag_colors[0].color, "own");
}

#[test]
fn update_tag_renames_in_every_account() {
    let mut store = store_with(&[(1, "a@x", None), (2, "b@x", None), (3, "c@x", None)]);
    store.add_tag(tag("vip", "red")).unwrap();
    store.add_tag(tag("old", "grey")).unwrap();
    give_tags(&mut store, 1, &["x", "vip", "vip"], &[("vip", "own"), ("x", "blue")]);
    give_tags(&mut store, 2, &["old"], &[]);
    give_tags(&mut store, 3, &["vip"], &[]);
    assert_eq!(store.update_tag("vip".into(), tag("gold", "yellow")), Ok(Persist::Config));
    assert_eq!(store.get_tags(), vec![tag("gold", "yellow"), tag("old", "grey")]);
    let first = store.get_account(1).unwrap();
    assert_eq!(first.tags, vec!["x".to_string(), "gold".to_string(), "vip".to_string()]);
    assert_eq!(
        first.tag_colors,
        vec![
            TagWithColor { name: "gold".into(), color: "yellow".into() },
            TagWithColor { name: "x".into(), color: "blue".into() },
        ]
    );
    assert_eq!(store.get_account(2).unwrap().tags, vec!["old".to_string()]);
    assert_eq!(store.get_account(3).unwrap().tags, vec!["gold".to_string()]);
    assert!(store.get_account(3).unwrap().tag_colors.is_empty());
}

#[test]
fn update_tag_refuses_a_taken_name_and_an_unknown_one() {
    let mut store = store_with(&[]);
    store.add_tag(tag("a", "1")).unwrap();
    store.add_tag(tag("b", "2")).unwrap();
    assert_eq!(store.update_tag("a".into(), tag("b", "3")), Err(StoreError::DuplicateKey));
    assert_eq!(store.update_tag("zzz".into(), tag("b", "3")), Err(StoreError::DuplicateKey));
    assert_eq!(store.update_tag("zzz".into(), tag("c", "3")), Err(StoreError::NotFound));
    assert_eq!(store.update_tag("zzz".into(), tag("zzz", "3")), Err(StoreError::NotFound));
    assert_eq!(store.get_tags(), vec![tag("a", "1"), tag("b", "2")]);
}

#[test]
fn delete_tag_takes_the_tag_from_every_account() {
    let mut store = store_with(&[(1, "a@x", None), (2, "b@x", None)]);
    store.add_tag(tag("vip", "red")).unwrap();
    store.add_tag(tag("x", "blue")).unwrap();
    give_tags(&mut store, 1, &["vip", "x", "vip"], &[("vip", "own"), ("x", "own")]);
    give_tags(&mut store, 2, &["x"], &[]);
    assert_eq!(store.delete_tag("vip".into()), Persist::Config);
    assert_eq!(store.get_tags(), vec![tag("x", "blue")]);
    let first = store.get_account(1).unwrap();
    assert_eq!(first.tags, vec!["x".to_string()]);
    assert_eq!(first.tag_colors, vec![TagWithColor { name: "x".into(), color: "own".into() }]);
    assert_eq!(store.get_account(2).unwrap().tags, vec!["x".to_string()]);
    assert!(store.config.is_well_formed());
}

#[test]
fn batch_update_account_tags_counts_what_it_served() {
    let mut store = store_with(&[(1, "a@x", None), (2, "b@x", None)]);
    store.add_tag(tag("vip", "red")).unwrap();
    give_tags(&mut store, 2, &["old", "stay"], &[("old", "grey"), ("vip", "own")]);
    let ids = vec![
        "00000000-0000-0000-0000-000000000001".to_string(),
        "not an id".to_string(),
        "00000000-0000-0000-0000-000000000009".to_string(),
        "00000000000000000000000000000002".to_string(),
    ];
    let result = store.batch_update_account_tags(
        ids,
        vec!["vip".to_string(), "plain".to_string()],
        vec!["old".to_string()],
    );
    assert_eq!(result, (2, 2));
    let first = store.get_account(1).unwrap();
    assert_eq!(first.tags, vec!["vip".to_string(), "plain".to_string()]);
    assert_eq!(first.tag_colors, vec![TagWithColor { name: "vip".into(), color: "red".into() }]);
    let second = store.get_account(2).unwrap();
    assert_eq!(second.tags, vec!["stay".to_string(), "vip".to_string(), "plain".to_string()]);
    assert_eq!(second.tag_colors, vec![TagWithColor { name: "vip".into(), color: "own".into() }]);
}

#[test]
fn batch_update_account_tags_adds_a_tag_once() {
    let mut store = store_with(&[(1, "a@x", None)]);
    give_tags(&mut store, 1, &["vip"], &[]);
    let result = store.batch_update_account_tags(
        vec!["00000000-0000-0000-0000-000000000001".to_string()],
        vec!["vip".to_string(), "vip".to_string()],
        vec![],
    );
    assert_eq!(result, (1, 0));
    assert_eq!(store.get_account(1).unwrap().tags, vec!["vip".to_string()]);
    assert_eq!(store.batch_update_account_tags(vec![], vec![], vec![]), (0, 0));
}

#[test]
fn batch_update_account_tags_removes_what_it_has_just_added() {
    let mut store = store_with(&[(1, "a@x", None)]);
    store.add_tag(tag("vip", "red")).unwrap();
    let result = store.batch_update_account_tags(
        vec!["00000000-0000-0000-0000-000000000001".to_string()],
        vec!["vip".to_string()],
        vec!["vip".to_string()],
    );
    assert_eq!(result, (1, 0));
    let account = store.get_account(1).unwrap();
    assert!(account.tags.is_empty());
    assert!(account.tag_colors.is_empty());
}

#[test]
fn update_accounts_order_gives_each_account_its_place() {
    let mut store = store_with(&[(1, "a@x", None), (2, "b@x", None), (3, "c@x", None)]);
    let ids = vec![
        "00000000-0000-0000-0000-000000000003".to_string(),
        "junk".to_string(),
        "00000000-0000-0000-0000-000000000001".to_string(),
        "00000000-0000-0000-0000-0000000000ff".to_string(),
    ];
    assert_eq!(store.update_accounts_order(ids), Persist::Config);
    assert_eq!(store.get_account(3).unwrap().sort_order, 0);
    assert_eq!(store.get_account(1).unwrap().sort_order, 2);
    assert_eq!(store.get_account(2).unwrap().sort_order, 0);
    let emails: Vec<String> = store.get_all_accounts().into_iter().map(|a| a.email).collect();
    assert_eq!(emails, vec!["a@x".to_string(), "b@x".to_string(), "c@x".to_string()]);
}
