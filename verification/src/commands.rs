//! The operations as a user asks for them: an operation of the store,
//! and the entry in the log that tells of it.

use crate::account::{Account, AccountModel, AccountStatus, StatusModel};
use crate::clock::{current_time, Timestamp};
use crate::config::ConfigModel;
use crate::editing::without_id;
use crate::error::StoreError;
use crate::ident::{parse_uuid, parsed_uuid, random_uuid};
use crate::log::{
    appended, without_account, LogModel, OperationLog, OperationStatus, OperationType,
};
use crate::patch::{or_kept, or_kept_some};
use crate::seqs::{first_at, lemma_position_is, position};
use crate::store::{
    email_taken, ids_of, inserted_account, known, place, with_account, DataStore, Persist,
    StoreModel,
};
use crate::text::{decimal, decimal_text, lowercase, lowercase_of};
use vstd::prelude::*;

verus! {

/// An entry of the log that refers to no account.
pub open spec fn plain_entry(
    operation_type: OperationType,
    status: OperationStatus,
    message: Seq<char>,
    now: Timestamp,
) -> LogModel {
    LogModel {
        operation_type,
        status,
        message,
        account_id: None,
        account_email: None,
        created_at: now,
    }
}

/// The account that a user adds: the one that joins the store, with the
/// tags that the user gave it.
pub open spec fn added_account(
    id: u128,
    now: Timestamp,
    email: Seq<char>,
    password: Seq<char>,
    nickname: Seq<char>,
    tags: Seq<Seq<char>>,
    group: Option<Seq<char>>,
) -> AccountModel {
    AccountModel { tags, ..inserted_account(id, now, email, password, nickname, group) }
}

/// The store after a user has added an account.
pub open spec fn with_added(s: StoreModel, account: AccountModel, now: Timestamp) -> StoreModel {
    StoreModel {
        config: with_account(s.config, account),
        logs: appended(
            s.logs,
            LogModel {
                account_id: Some(account.id),
                account_email: Some(account.email),
                ..plain_entry(
                    OperationType::AddAccount,
                    OperationStatus::Success,
                    "添加账号: "@ + account.email,
                    now,
                )
            },
        ),
    }
}

/// The store after a user has deleted the accounts of an id.
pub open spec fn with_deleted(s: StoreModel, id: u128, now: Timestamp) -> StoreModel {
    StoreModel {
        config: ConfigModel {
            accounts: without_id(s.config.accounts, id),
            ..s.config
        },
        logs: appended(
            without_account(s.logs, id),
            plain_entry(
                OperationType::DeleteAccount,
                OperationStatus::Success,
                "删除账号: "@ + s.config.accounts[place(s.config.accounts, id)].email,
                now,
            ),
        ),
    }
}

/// What the deletion of many accounts leaves: the accounts and the log,
/// the number of ids that were served, and the texts that were not.
pub struct Deletions {
    pub accounts: Seq<AccountModel>,
    pub logs: Seq<LogModel>,
    pub succeeded: nat,
    pub failed: Seq<Seq<char>>,
}

/// The deletion of the accounts that a list of id texts names, one after
/// the other. A text that is no id, or the id of no account that is left,
/// fails alone.
pub open spec fn batch_deleted(accounts: Seq<AccountModel>, logs: Seq<LogModel>, ids: Seq<Seq<char>>)
    -> Deletions
    decreases ids.len(),
{
    if ids.len() == 0 {
        Deletions { accounts, logs, succeeded: 0, failed: Seq::empty() }
    } else {
        let before = batch_deleted(accounts, logs, ids.drop_last());
        let id = parsed_uuid(ids.last());
        if id is Some && known(before.accounts, id.unwrap()) {
            Deletions {
                accounts: without_id(before.accounts, id.unwrap()),
                logs: without_account(before.logs, id.unwrap()),
                succeeded: before.succeeded + 1,
                ..before
            }
        } else {
            Deletions { failed: before.failed.push(ids.last()), ..before }
        }
    }
}

/// The message that tells of the deletion of many accounts.
pub open spec fn batch_message(succeeded: nat, failed: nat) -> Seq<char> {
    "批量删除账号: 成功"@ + decimal(succeeded) + "个，失败"@ + decimal(failed) + "个"@
}

/// The store after a user has deleted many accounts: the deletions, and
/// an entry in the log that succeeded where no text failed.
pub open spec fn with_batch_deleted(s: StoreModel, ids: Seq<Seq<char>>, now: Timestamp)
    -> StoreModel {
    let done = batch_deleted(s.config.accounts, s.logs, ids);
    StoreModel {
        config: ConfigModel { accounts: done.accounts, ..s.config },
        logs: appended(
            done.logs,
            plain_entry(
                OperationType::BatchOperation,
                if done.failed.len() == 0 {
                    OperationStatus::Success
                } else {
                    OperationStatus::Failed
                },
                batch_message(done.succeeded, done.failed.len()),
                now,
            ),
        ),
    }
}

/// An id that is new to a list stands last in the list that it has
/// joined.
proof fn lemma_place_of_new(accounts: Seq<AccountModel>, account: AccountModel)
    requires
        !known(accounts, account.id),
    ensures
        known(accounts.push(account), account.id),
        place(accounts.push(account), account.id) == accounts.len(),
{
    let ids = ids_of(accounts.push(account));
    assert(ids =~= ids_of(accounts).push(account.id));
    assert forall|j: int| 0 <= j < accounts.len() implies #[trigger] ids[j] != account.id by {
        assert(ids_of(accounts)[j] == ids[j]);
    }
    assert(first_at(ids, account.id, accounts.len() as int));
    lemma_position_is(ids, account.id, accounts.len() as int);
}

/// Adds an account under a given id, with its tags, and notes it in the
/// log, both under the time `now`. Both files are then to be written.
/// Fails with `DuplicateKey`, and changes nothing, where an account
/// carries the same email or the same id.
pub fn add_account_at(
    store: &mut DataStore,
    id: u128,
    now: Timestamp,
    email: String,
    password: String,
    nickname: String,
    tags: Vec<String>,
    group: Option<String>,
) -> (r: Result<Account, StoreError>)
    ensures
        match r {
            Ok(account) => {
                &&& !email_taken(old(store)@.config.accounts, email@)
                &&& !known(old(store)@.config.accounts, id)
                &&& account@ == added_account(
                    id,
                    now,
                    email@,
                    password@,
                    nickname@,
                    tags.deep_view(),
                    group.deep_view(),
                )
                &&& final(store)@ == with_added(old(store)@, account@, now)
            },
            Err(e) => {
                &&& e == StoreError::DuplicateKey
                &&& email_taken(old(store)@.config.accounts, email@) || known(
                    old(store)@.config.accounts,
                    id,
                )
                &&& *final(store) == *old(store)
            },
        },
        old(store)@.config.wf() ==> final(store)@.config.wf(),
{
    let ghost before = store@;
    let mut message = "添加账号: ".to_string();
    message.append(email.as_str());
    let log_email = email.clone();
    let mut account = match store.insert_account(id, now, email, password, nickname, group) {
        Ok(account) => account,
        Err(e) => {
            return Err(e);
        },
    };
    let ghost joined = account@;
    account.tags = tags;
    proof {
        lemma_place_of_new(before.config.accounts, joined);
    }
    match store.update_account(account.clone()) {
        Ok(_) => {},
        Err(e) => {
            return Err(e);
        },
    }
    proof {
        assert(store@.config.accounts =~= before.config.accounts.push(account@));
        assert(ids_of(store@.config.accounts) =~= ids_of(before.config.accounts.push(joined)));
    }
    let entry = OperationLog::new(
        OperationType::AddAccount,
        OperationStatus::Success,
        message,
        now,
    ).with_account(id, log_email);
    store.add_log(entry);
    Ok(account)
}

/// Adds an account as `add_account_at` does, under an id that this call
/// draws and the time that it reads from the clock. In a store without
/// accounts no id is taken, so there the call succeeds.
pub fn add_account(
    store: &mut DataStore,
    email: String,
    password: String,
    nickname: String,
    tags: Vec<String>,
    group: Option<String>,
) -> (r: Result<Account, StoreError>)
    ensures
        match r {
            Ok(account) => {
                &&& !email_taken(old(store)@.config.accounts, email@)
                &&& !known(old(store)@.config.accounts, account@.id)
                &&& account@ == added_account(
                    account@.id,
                    account@.created_at,
                    email@,
                    password@,
                    nickname@,
                    tags.deep_view(),
                    group.deep_view(),
                )
                &&& final(store)@ == with_added(old(store)@, account@, account@.created_at)
            },
            Err(e) => e == StoreError::DuplicateKey && *final(store) == *old(store),
        },
        email_taken(old(store)@.config.accounts, email@) ==> r is Err,
        old(store)@.config.accounts.len() == 0 ==> r is Ok,
        old(store)@.config.wf() ==> final(store)@.config.wf(),
{
    let id = random_uuid();
    let now = current_time();
    add_account_at(store, id, now, email, password, nickname, tags, group)
}

/// A copy of every account, in the order of the store.
pub fn get_all_accounts(store: &DataStore) -> (r: Vec<Account>)
    ensures
        r.deep_view() == store@.config.accounts,
{
    store.get_all_accounts()
}

/// The account whose id a text names. Fails with `Validation` where the
/// text is no id, and with `NotFound` where no account carries the id.
pub fn get_account(store: &DataStore, id: &str) -> (r: Result<Account, StoreError>)
    ensures
        match r {
            Ok(account) => {
                &&& parsed_uuid(id@) is Some
                &&& known(store@.config.accounts, parsed_uuid(id@).unwrap())
                &&& account@ == store@.config.accounts[place(
                    store@.config.accounts,
                    parsed_uuid(id@).unwrap(),
                )]
            },
            Err(e) => if parsed_uuid(id@) is None {
                e == StoreError::Validation
            } else {
                e == StoreError::NotFound && !known(
                    store@.config.accounts,
                    parsed_uuid(id@).unwrap(),
                )
            },
        },
{
    match parse_uuid(id) {
        Some(id) => store.get_account(id),
        None => Err(StoreError::Validation),
    }
}

/// Deletes the accounts whose id a text names, with the entries of the
/// log that refer to them, and notes the deletion in the log under the
/// time `now`. Both files are then to be written. Fails with
/// `Validation` where the text is no id, and with `NotFound` where no
/// account carries the id; a failure changes nothing.
pub fn delete_account_at(store: &mut DataStore, id: &str, now: Timestamp) -> (r: Result<
    Persist,
    StoreError,
>)
    ensures
        match r {
            Ok(persist) => {
                &&& parsed_uuid(id@) is Some
                &&& known(old(store)@.config.accounts, parsed_uuid(id@).unwrap())
                &&& final(store)@ == with_deleted(old(store)@, parsed_uuid(id@).unwrap(), now)
                &&& persist == Persist::ConfigAndLogs
            },
            Err(e) => {
                &&& *final(store) == *old(store)
                &&& if parsed_uuid(id@) is None {
                    e == StoreError::Validation
                } else {
                    e == StoreError::NotFound && !known(
                        old(store)@.config.accounts,
                        parsed_uuid(id@).unwrap(),
                    )
                }
            },
        },
        old(store)@.config.wf() ==> final(store)@.config.wf(),
{
    let id = match parse_uuid(id) {
        Some(id) => id,
        None => {
            return Err(StoreError::Validation);
        },
    };
    let account = match store.get_account(id) {
        Ok(account) => account,
        Err(e) => {
            return Err(e);
        },
    };
    match store.delete_account(id) {
        Ok(_) => {},
        Err(e) => {
            return Err(e);
        },
    }
    let mut message = "删除账号: ".to_string();
    message.append(account.email.as_str());
    store.add_log(
        OperationLog::new(OperationType::DeleteAccount, OperationStatus::Success, message, now),
    );
    Ok(Persist::ConfigAndLogs)
}

/// Deletes an account as `delete_account_at` does, under the time that
/// this call reads from the clock: the time of the entry that the log
/// has got.
pub fn delete_account(store: &mut DataStore, id: &str) -> (r: Result<Persist, StoreError>)
    ensures
        match r {
            Ok(persist) => {
                &&& parsed_uuid(id@) is Some
                &&& known(old(store)@.config.accounts, parsed_uuid(id@).unwrap())
                &&& final(store)@.logs.len() > 0
                &&& final(store)@ == with_deleted(
                    old(store)@,
                    parsed_uuid(id@).unwrap(),
                    final(store)@.logs.last().created_at,
                )
                &&& persist == Persist::ConfigAndLogs
            },
            Err(e) => {
                &&& *final(store) == *old(store)
                &&& if parsed_uuid(id@) is None {
                    e == StoreError::Validation
                } else {
                    e == StoreError::NotFound && !known(
                        old(store)@.config.accounts,
                        parsed_uuid(id@).unwrap(),
                    )
                }
            },
        },
        old(store)@.config.wf() ==> final(store)@.config.wf(),
{
    let now = current_time();
    delete_account_at(store, id, now)
}

/// Deletes the accounts that a list of id texts names, one after the
/// other, and notes the batch in the log under the time `now`. Returns
/// how many ids were served, and the texts that were not: those that are
/// no id, and those that name no account that is left. Both files are
/// then to be written.
pub fn delete_accounts_batch_at(store: &mut DataStore, ids: Vec<String>, now: Timestamp) -> (r: (
    usize,
    Vec<String>,
))
    ensures
        final(store)@ == with_batch_deleted(old(store)@, ids.deep_view(), now),
        r.0 == batch_deleted(
            old(store)@.config.accounts,
            old(store)@.logs,
            ids.deep_view(),
        ).succeeded,
        r.1.deep_view() == batch_deleted(
            old(store)@.config.accounts,
            old(store)@.logs,
            ids.deep_view(),
        ).failed,
        r.0 + r.1.len() == ids.len(),
        old(store)@.config.wf() ==> final(store)@.config.wf(),
{
    let ghost before = store@;
    let ghost texts = ids.deep_view();
    let mut success_count: usize = 0;
    let mut failed_ids: Vec<String> = Vec::new();
    let mut k: usize = 0;
    assert(failed_ids.deep_view() =~= Seq::empty());
    while k < ids.len()
        invariant
            k <= ids.len(),
            texts == ids.deep_view(),
            success_count + failed_ids.len() == k,
            store@.config == (ConfigModel {
                accounts: store@.config.accounts,
                ..before.config
            }),
            before.config.wf() ==> store@.config.wf(),
            store@.config.accounts == batch_deleted(
                before.config.accounts,
                before.logs,
                texts.take(k as int),
            ).accounts,
            store@.logs == batch_deleted(
                before.config.accounts,
                before.logs,
                texts.take(k as int),
            ).logs,
            success_count == batch_deleted(
                before.config.accounts,
                before.logs,
                texts.take(k as int),
            ).succeeded,
            failed_ids.deep_view() == batch_deleted(
                before.config.accounts,
                before.logs,
                texts.take(k as int),
            ).failed,
        decreases ids.len() - k,
    {
        proof {
            let upto = texts.take(k + 1);
            assert(upto.drop_last() =~= texts.take(k as int));
            assert(upto.last() == ids@[k as int]@);
        }
        let deleted = match parse_uuid(ids[k].as_str()) {
            Some(id) => store.delete_account(id).is_ok(),
            None => false,
        };
        if deleted {
            success_count += 1;
        } else {
            let ghost shorter = failed_ids.deep_view();
            failed_ids.push(ids[k].clone());
            assert(failed_ids.deep_view() =~= shorter.push(texts[k as int]));
        }
        k += 1;
    }
    assert(texts.take(k as int) =~= texts);
    let mut message = "批量删除账号: 成功".to_string();
    message.append(decimal_text(success_count).as_str());
    message.append("个，失败");
    message.append(decimal_text(failed_ids.len()).as_str());
    message.append("个");
    let status = if failed_ids.len() == 0 {
        OperationStatus::Success
    } else {
        OperationStatus::Failed
    };
    store.add_log(OperationLog::new(OperationType::BatchOperation, status, message, now));
    (success_count, failed_ids)
}

/// Deletes many accounts as `delete_accounts_batch_at` does, under the
/// time that this call reads from the clock: the time of the entry that
/// the log has got.
pub fn delete_accounts_batch(store: &mut DataStore, ids: Vec<String>) -> (r: (usize, Vec<String>))
    ensures
        final(store)@.logs.len() > 0,
        final(store)@ == with_batch_deleted(
            old(store)@,
            ids.deep_view(),
            final(store)@.logs.last().created_at,
        ),
        r.0 == batch_deleted(
            old(store)@.config.accounts,
            old(store)@.logs,
            ids.deep_view(),
        ).succeeded,
        r.1.deep_view() == batch_deleted(
            old(store)@.config.accounts,
            old(store)@.logs,
            ids.deep_view(),
        ).failed,
        r.0 + r.1.len() == ids.len(),
        old(store)@.config.wf() ==> final(store)@.config.wf(),
{
    let now = current_time();
    delete_accounts_batch_at(store, ids, now)
}

/// What a service told of the user behind a token.
#[derive(Debug, PartialEq, Eq)]
pub struct UserDetails {
    /// The key of the user for the programming interface, where one was
    /// told.
    pub api_key: Option<String>,
    /// Whether the user is disabled, where the service told of the user
    /// at all.
    pub disabled: Option<bool>,
    /// The name of the plan, where one was told.
    pub plan_name: Option<String>,
    /// The quota that is used, where one was told.
    pub used_quota: Option<i32>,
    /// The whole quota, where one was told.
    pub total_quota: Option<i32>,
    /// The end of the subscription, where one was told: `Some(None)`
    /// where what was told is no point in time.
    pub subscription_expires_at: Option<Option<Timestamp>>,
}

/// The model of `UserDetails`.
pub struct DetailsModel {
    pub api_key: Option<Seq<char>>,
    pub disabled: Option<bool>,
    pub plan_name: Option<Seq<char>>,
    pub used_quota: Option<i32>,
    pub total_quota: Option<i32>,
    pub subscription_expires_at: Option<Option<Timestamp>>,
}

impl View for UserDetails {
    type V = DetailsModel;

    open spec fn view(&self) -> DetailsModel {
        DetailsModel {
            api_key: self.api_key.deep_view(),
            disabled: self.disabled,
            plan_name: self.plan_name.deep_view(),
            used_quota: self.used_quota,
            total_quota: self.total_quota,
            subscription_expires_at: self.subscription_expires_at,
        }
    }
}

impl DeepView for UserDetails {
    type V = DetailsModel;

    open spec fn deep_view(&self) -> DetailsModel {
        self@
    }
}

/// What came of a refresh token: the email of the user, the new tokens,
/// and what a service told of the user, where it answered.
#[derive(Debug, PartialEq, Eq)]
pub struct RefreshedLogin {
    pub email: String,
    pub token: String,
    pub refresh_token: String,
    pub expires_at: Timestamp,
    pub details: Option<UserDetails>,
}

/// The model of a `RefreshedLogin`.
pub struct LoginModel {
    pub email: Seq<char>,
    pub token: Seq<char>,
    pub refresh_token: Seq<char>,
    pub expires_at: Timestamp,
    pub details: Option<DetailsModel>,
}

impl View for RefreshedLogin {
    type V = LoginModel;

    open spec fn view(&self) -> LoginModel {
        LoginModel {
            email: self.email@,
            token: self.token@,
            refresh_token: self.refresh_token@,
            expires_at: self.expires_at,
            details: self.details.deep_view(),
        }
    }
}

/// An account carries the email, capitals counting as small letters.
pub open spec fn email_taken_in_any_case(accounts: Seq<AccountModel>, email: Seq<char>) -> bool {
    exists|i: int|
        0 <= i < accounts.len() && lowercase_of((#[trigger] accounts[i]).email) == lowercase_of(
            email,
        )
}

/// The part of a text before the first occurrence of a character, or
/// the whole text where the character does not occur.
pub open spec fn part_before(text: Seq<char>, mark: char) -> Seq<char> {
    if text.contains(mark) {
        text.take(position(text, mark))
    } else {
        text
    }
}

/// The account with what a service told of its user, noted at `now`.
pub open spec fn with_details(a: AccountModel, details: Option<DetailsModel>, now: Timestamp)
    -> AccountModel {
    match details {
        Some(d) => AccountModel {
            windsurf_api_key: or_kept_some(d.api_key, a.windsurf_api_key),
            is_disabled: or_kept_some(d.disabled, a.is_disabled),
            plan_name: or_kept_some(d.plan_name, a.plan_name),
            used_quota: or_kept_some(d.used_quota, a.used_quota),
            total_quota: or_kept_some(d.total_quota, a.total_quota),
            subscription_expires_at: or_kept(d.subscription_expires_at, a.subscription_expires_at),
            last_quota_update: Some(now),
            ..a
        },
        None => a,
    }
}

/// The account that is made of a refreshed login: one without a
/// password, active, logged in at `now`, named after the part of its
/// email before the `@` where no nickname is given.
pub open spec fn refreshed_account(
    id: u128,
    now: Timestamp,
    login: LoginModel,
    nickname: Option<Seq<char>>,
    tags: Seq<Seq<char>>,
    group: Option<Seq<char>>,
) -> AccountModel {
    with_details(
        AccountModel {
            tags,
            token: Some(login.token),
            token_expires_at: Some(login.expires_at),
            refresh_token: Some(login.refresh_token),
            status: StatusModel::Active,
            last_login_at: Some(now),
            ..inserted_account(
                id,
                now,
                login.email,
                Seq::empty(),
                or_kept(nickname, part_before(login.email, '@')),
                group,
            )
        },
        login.details,
        now,
    )
}

/// The store after an account was made of a refreshed login.
pub open spec fn with_refreshed(s: StoreModel, account: AccountModel, now: Timestamp)
    -> StoreModel {
    StoreModel {
        config: with_account(s.config, account),
        logs: appended(
            s.logs,
            LogModel {
                account_id: Some(account.id),
                account_email: Some(account.email),
                ..plain_entry(
                    OperationType::AddAccount,
                    OperationStatus::Success,
                    "通过RefreshToken添加账号: "@ + account.email,
                    now,
                )
            },
        ),
    }
}

/// Tells whether an account carries an email, capitals counting as
/// small letters.
pub fn has_email_in_any_case(accounts: &Vec<Account>, email: &String) -> (r: bool)
    ensures
        r == email_taken_in_any_case(accounts.deep_view(), email@),
{
    let wanted = lowercase(email.as_str());
    let mut i: usize = 0;
    while i < accounts.len()
        invariant
            i <= accounts.len(),
            wanted@ == lowercase_of(email@),
            forall|j: int|
                0 <= j < i ==> lowercase_of((#[trigger] accounts.deep_view()[j]).email)
                    != lowercase_of(email@),
        decreases accounts.len() - i,
    {
        let held = lowercase(accounts[i].email.as_str());
        if held == wanted {
            assert(lowercase_of(accounts.deep_view()[i as int].email) == lowercase_of(email@));
            return true;
        }
        i += 1;
    }
    false
}

/// Copies the part of a text before the first occurrence of a
/// character.
pub fn text_before(text: &str, mark: char) -> (r: String)
    ensures
        r@ == part_before(text@, mark),
{
    let n = text.unicode_len();
    let mut i: usize = 0;
    while i < n
        invariant
            i <= n,
            n == text@.len(),
            forall|j: int| 0 <= j < i ==> #[trigger] text@[j] != mark,
        decreases n - i,
    {
        if text.get_char(i) == mark {
            proof {
                lemma_position_is(text@, mark, i as int);
            }
            let part = text.substring_char(0, i);
            assert(part@ =~= text@.take(i as int));
            return part.to_owned();
        }
        i += 1;
    }
    text.to_owned()
}

/// Makes an account of a refreshed login under a given id, and notes it
/// in the log, both under the time `now`. Both files are then to be
/// written. Fails with `DuplicateKey`, and changes nothing, where an
/// account carries the same email, capitals counting as small letters,
/// or the same id.
pub fn add_account_by_refresh_token_at(
    store: &mut DataStore,
    id: u128,
    now: Timestamp,
    login: RefreshedLogin,
    nickname: Option<String>,
    tags: Vec<String>,
    group: Option<String>,
) -> (r: Result<Account, StoreError>)
    ensures
        match r {
            Ok(account) => {
                &&& !email_taken_in_any_case(old(store)@.config.accounts, login@.email)
                &&& !known(old(store)@.config.accounts, id)
                &&& account@ == refreshed_account(
                    id,
                    now,
                    login@,
                    nickname.deep_view(),
                    tags.deep_view(),
                    group.deep_view(),
                )
                &&& final(store)@ == with_refreshed(old(store)@, account@, now)
            },
            Err(e) => {
                &&& e == StoreError::DuplicateKey
                &&& email_taken_in_any_case(old(store)@.config.accounts, login@.email) || known(
                    old(store)@.config.accounts,
                    id,
                )
                &&& *final(store) == *old(store)
            },
        },
        old(store)@.config.wf() ==> final(store)@.config.wf(),
{
    if has_email_in_any_case(&store.config.accounts, &login.email) {
        return Err(StoreError::DuplicateKey);
    }
    let ghost before = store@;
    proof {
        if email_taken(before.config.accounts, login@.email) {
            let i = choose|i: int|
                0 <= i < before.config.accounts.len() && (
                #[trigger] before.config.accounts[i]).email == login@.email;
            assert(lowercase_of(before.config.accounts[i].email) == lowercase_of(login@.email));
        }
    }
    let final_nickname = match nickname {
        Some(name) => name,
        None => text_before(login.email.as_str(), '@'),
    };
    let mut message = "通过RefreshToken添加账号: ".to_string();
    message.append(login.email.as_str());
    let log_email = login.email.clone();
    let mut account = match store.insert_account(
        id,
        now,
        login.email,
        String::new(),
        final_nickname,
        group,
    ) {
        Ok(account) => account,
        Err(e) => {
            return Err(e);
        },
    };
    let ghost joined = account@;
    account.tags = tags;
    account.token = Some(login.token);
    account.token_expires_at = Some(login.expires_at);
    account.refresh_token = Some(login.refresh_token);
    account.status = AccountStatus::Active;
    account.last_login_at = Some(now);
    match login.details {
        Some(details) => {
            match details.api_key {
                Some(key) => {
                    account.windsurf_api_key = Some(key);
                },
                None => {},
            }
            match details.disabled {
                Some(flag) => {
                    account.is_disabled = Some(flag);
                },
                None => {},
            }
            match details.plan_name {
                Some(name) => {
                    account.plan_name = Some(name);
                },
                None => {},
            }
            match details.used_quota {
                Some(used) => {
                    account.used_quota = Some(used);
                },
                None => {},
            }
            match details.total_quota {
                Some(total) => {
                    account.total_quota = Some(total);
                },
                None => {},
            }
            match details.subscription_expires_at {
                Some(end) => {
                    account.subscription_expires_at = end;
                },
                None => {},
            }
            account.last_quota_update = Some(now);
        },
        None => {},
    }
    proof {
        lemma_place_of_new(before.config.accounts, joined);
    }
    match store.update_account(account.clone()) {
        Ok(_) => {},
        Err(e) => {
            return Err(e);
        },
    }
    proof {
        assert(store@.config.accounts =~= before.config.accounts.push(account@));
    }
    let entry = OperationLog::new(
        OperationType::AddAccount,
        OperationStatus::Success,
        message,
        now,
    ).with_account(id, log_email);
    store.add_log(entry);
    Ok(account)
}

/// Makes an account of a refreshed login as
/// `add_account_by_refresh_token_at` does, under an id that this call
/// draws and the time that it reads from the clock. In a store without
/// accounts no id is taken, so there the call succeeds.
pub fn add_account_by_refresh_token(
    store: &mut DataStore,
    login: RefreshedLogin,
    nickname: Option<String>,
    tags: Vec<String>,
    group: Option<String>,
) -> (r: Result<Account, StoreError>)
    ensures
        match r {
            Ok(account) => {
                &&& !email_taken_in_any_case(old(store)@.config.accounts, login@.email)
                &&& !known(old(store)@.config.accounts, account@.id)
                &&& account@ == refreshed_account(
                    account@.id,
                    account@.created_at,
                    login@,
                    nickname.deep_view(),
                    tags.deep_view(),
                    group.deep_view(),
                )
                &&& final(store)@ == with_refreshed(old(store)@, account@, account@.created_at)
            },
            Err(e) => e == StoreError::DuplicateKey && *final(store) == *old(store),
        },
        email_taken_in_any_case(old(store)@.config.accounts, login@.email) ==> r is Err,
        old(store)@.config.accounts.len() == 0 ==> r is Ok,
        old(store)@.config.wf() ==> final(store)@.config.wf(),
{
    let id = random_uuid();
    let now = current_time();
    add_account_by_refresh_token_at(store, id, now, login, nickname, tags, group)
}

} // verus!
