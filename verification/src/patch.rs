//! Edits of an account field by field. A patch names the fields that
//! change; every other field stays. The password is not among the fields
//! of an account that a patch writes: where a patch carries one, it goes
//! the way of every change of password.

use crate::account::{Account, AccountModel, AccountStatus, StatusModel};
use crate::clock::{current_time, Timestamp};
use crate::config::ConfigModel;
use crate::error::StoreError;
use crate::log::{appended, LogModel, OperationLog, OperationStatus, OperationType};
use crate::seqs::lemma_position;
use crate::store::{find_account, ids_of, known, place, DataStore, Persist, StoreModel};
use crate::text::{is_text, trim, trim_of};
use vstd::prelude::*;

verus! {

/// The fields of an account that an edit changes. `None` leaves a field
/// as it is. For the group and the disabled flag, `Some(None)` empties
/// the field.
#[derive(Debug, PartialEq, Eq)]
pub struct AccountPatch {
    pub nickname: Option<String>,
    pub group: Option<Option<String>>,
    pub tags: Option<Vec<String>>,
    pub plan_name: Option<String>,
    pub used_quota: Option<i32>,
    pub total_quota: Option<i32>,
    pub last_quota_update: Option<Timestamp>,
    pub subscription_expires_at: Option<Timestamp>,
    pub is_disabled: Option<Option<bool>>,
    pub windsurf_api_key: Option<String>,
    pub token: Option<String>,
    pub status: Option<String>,
    pub password: Option<String>,
}

/// The model of an `AccountPatch`.
pub struct PatchModel {
    pub nickname: Option<Seq<char>>,
    pub group: Option<Option<Seq<char>>>,
    pub tags: Option<Seq<Seq<char>>>,
    pub plan_name: Option<Seq<char>>,
    pub used_quota: Option<i32>,
    pub total_quota: Option<i32>,
    pub last_quota_update: Option<Timestamp>,
    pub subscription_expires_at: Option<Timestamp>,
    pub is_disabled: Option<Option<bool>>,
    pub windsurf_api_key: Option<Seq<char>>,
    pub token: Option<Seq<char>>,
    pub status: Option<Seq<char>>,
    pub password: Option<Seq<char>>,
}

impl View for AccountPatch {
    type V = PatchModel;

    open spec fn view(&self) -> PatchModel {
        PatchModel {
            nickname: self.nickname.deep_view(),
            group: self.group.deep_view(),
            tags: self.tags.deep_view(),
            plan_name: self.plan_name.deep_view(),
            used_quota: self.used_quota,
            total_quota: self.total_quota,
            last_quota_update: self.last_quota_update,
            subscription_expires_at: self.subscription_expires_at,
            is_disabled: self.is_disabled,
            windsurf_api_key: self.windsurf_api_key.deep_view(),
            token: self.token.deep_view(),
            status: self.status.deep_view(),
            password: self.password.deep_view(),
        }
    }
}

/// A field after an edit: the new value where one is given.
pub open spec fn or_kept<T>(change: Option<T>, kept: T) -> T {
    match change {
        Some(value) => value,
        None => kept,
    }
}

/// An optional field after an edit: the new value where one is given.
pub open spec fn or_kept_some<T>(change: Option<T>, kept: Option<T>) -> Option<T> {
    match change {
        Some(value) => Some(value),
        None => kept,
    }
}

/// The status that a text names: `active`, `inactive`, `error`, or an
/// error with the text as its message.
pub open spec fn status_named(text: Seq<char>) -> StatusModel {
    if text == "active"@ {
        StatusModel::Active
    } else if text == "inactive"@ {
        StatusModel::Inactive
    } else if text == "error"@ {
        StatusModel::Error("API错误"@)
    } else {
        StatusModel::Error(text)
    }
}

/// The account after an edit. A group name is trimmed, and a blank one
/// changes nothing; an empty token changes nothing. The id, the email and
/// the password are no fields that an edit reaches.
pub open spec fn patched(a: AccountModel, p: PatchModel) -> AccountModel {
    AccountModel {
        nickname: or_kept(p.nickname, a.nickname),
        group: match p.group {
            Some(Some(name)) => if trim_of(name).len() == 0 {
                a.group
            } else {
                Some(trim_of(name))
            },
            Some(None) => None,
            None => a.group,
        },
        tags: or_kept(p.tags, a.tags),
        plan_name: or_kept_some(p.plan_name, a.plan_name),
        used_quota: or_kept_some(p.used_quota, a.used_quota),
        total_quota: or_kept_some(p.total_quota, a.total_quota),
        last_quota_update: or_kept_some(p.last_quota_update, a.last_quota_update),
        subscription_expires_at: or_kept_some(p.subscription_expires_at, a.subscription_expires_at),
        is_disabled: or_kept(p.is_disabled, a.is_disabled),
        windsurf_api_key: or_kept_some(p.windsurf_api_key, a.windsurf_api_key),
        token: match p.token {
            Some(text) => if text.len() == 0 {
                a.token
            } else {
                Some(text)
            },
            None => a.token,
        },
        status: match p.status {
            Some(text) => status_named(text),
            None => a.status,
        },
        ..a
    }
}

/// The password of an account after an edit: the one that the patch
/// carries, where it carries one that is not empty.
pub open spec fn patched_password(kept: Seq<char>, p: PatchModel) -> Seq<char> {
    match p.password {
        Some(text) => if text.len() == 0 {
            kept
        } else {
            text
        },
        None => kept,
    }
}

/// The entry that the log gets for an edit.
pub open spec fn edit_entry(a: AccountModel, now: Timestamp) -> LogModel {
    LogModel {
        operation_type: OperationType::EditAccount,
        status: OperationStatus::Success,
        message: "更新账号: "@ + a.email,
        account_id: Some(a.id),
        account_email: Some(a.email),
        created_at: now,
    }
}

/// The store after an edit of the first account with an id, noted in
/// the log at `now`.
pub open spec fn with_patch(s: StoreModel, id: u128, p: PatchModel, now: Timestamp) -> StoreModel {
    let i = place(s.config.accounts, id);
    let a = s.config.accounts[i];
    StoreModel {
        config: ConfigModel {
            accounts: s.config.accounts.update(
                i,
                AccountModel { password: patched_password(a.password, p), ..patched(a, p) },
            ),
            ..s.config
        },
        logs: appended(s.logs, edit_entry(a, now)),
    }
}

/// Reads a status from its name.
pub fn status_from_name(text: String) -> (r: AccountStatus)
    ensures
        r@ == status_named(text@),
{
    if is_text(&text, "active") {
        AccountStatus::Active
    } else if is_text(&text, "inactive") {
        AccountStatus::Inactive
    } else if is_text(&text, "error") {
        AccountStatus::Error("API错误".to_string())
    } else {
        AccountStatus::Error(text)
    }
}

/// Applies an edit to an account. The password that the patch may
/// carry is not applied here.
pub fn apply_patch(account: &mut Account, patch: AccountPatch)
    ensures
        final(account)@ == patched(old(account)@, patch@),
{
    match patch.nickname {
        Some(nickname) => {
            account.nickname = nickname;
        },
        None => {},
    }
    match patch.group {
        Some(Some(name)) => {
            let trimmed = trim(name.as_str());
            if !trimmed.is_empty() {
                account.group = Some(trimmed.to_owned());
            }
        },
        Some(None) => {
            account.group = None;
        },
        None => {},
    }
    match patch.tags {
        Some(tags) => {
            account.tags = tags;
        },
        None => {},
    }
    match patch.plan_name {
        Some(plan_name) => {
            account.plan_name = Some(plan_name);
        },
        None => {},
    }
    match patch.used_quota {
        Some(used) => {
            account.used_quota = Some(used);
        },
        None => {},
    }
    match patch.total_quota {
        Some(total) => {
            account.total_quota = Some(total);
        },
        None => {},
    }
    match patch.last_quota_update {
        Some(at) => {
            account.last_quota_update = Some(at);
        },
        None => {},
    }
    match patch.subscription_expires_at {
        Some(at) => {
            account.subscription_expires_at = Some(at);
        },
        None => {},
    }
    match patch.is_disabled {
        Some(flag) => {
            account.is_disabled = flag;
        },
        None => {},
    }
    match patch.windsurf_api_key {
        Some(key) => {
            account.windsurf_api_key = Some(key);
        },
        None => {},
    }
    match patch.token {
        Some(token) => {
            if !token.as_str().is_empty() {
                account.token = Some(token);
            }
        },
        None => {},
    }
    match patch.status {
        Some(text) => {
            account.status = status_from_name(text);
        },
        None => {},
    }
}

/// Edits the first account that carries an id, notes the edit in the
/// log under the time `now`, and asks for both files to be written. A
/// password that the patch carries and that is not empty becomes the
/// password of the account; else the password stays. Fails with
/// `NotFound`, and changes nothing, where no account carries the id.
pub fn update_account_at(store: &mut DataStore, id: u128, patch: AccountPatch, now: Timestamp) -> (r:
    Result<Persist, StoreError>)
    ensures
        match r {
            Ok(persist) => {
                &&& known(old(store)@.config.accounts, id)
                &&& final(store)@ == with_patch(old(store)@, id, patch@, now)
                &&& persist == Persist::ConfigAndLogs
            },
            Err(e) => {
                &&& e == StoreError::NotFound
                &&& !known(old(store)@.config.accounts, id)
                &&& *final(store) == *old(store)
            },
        },
        old(store)@.config.wf() ==> final(store)@.config.wf(),
{
    let i = match find_account(&store.config.accounts, id) {
        Some(i) => i,
        None => {
            return Err(StoreError::NotFound);
        },
    };
    let ghost before = store@;
    let mut account = store.config.accounts[i].clone();
    let new_password = match &patch.password {
        Some(text) => if text.as_str().is_empty() {
            None
        } else {
            Some(text.clone())
        },
        None => None,
    };
    let ghost change = patch@;
    apply_patch(&mut account, patch);
    let email = account.email.clone();
    let mut message = "更新账号: ".to_string();
    message.append(email.as_str());
    let ghost edited = account@;
    proof {
        lemma_position(ids_of(before.config.accounts), id);
        assert(ids_of(before.config.accounts)[i as int] == before.config.accounts[i as int].id);
    }
    match store.update_account(account) {
        Ok(_) => {},
        Err(e) => {
            return Err(e);
        },
    }
    proof {
        assert(ids_of(store@.config.accounts) =~= ids_of(before.config.accounts));
    }
    match new_password {
        Some(text) => {
            match store.update_account_password(id, text) {
                Ok(_) => {},
                Err(e) => {
                    return Err(e);
                },
            }
        },
        None => {},
    }
    let entry = OperationLog::new(
        OperationType::EditAccount,
        OperationStatus::Success,
        message,
        now,
    ).with_account(id, email);
    store.add_log(entry);
    proof {
        assert(store@.config.accounts =~= with_patch(before, id, change, now).config.accounts);
    }
    Ok(Persist::ConfigAndLogs)
}

/// Edits an account as `update_account_at` does, under the time that
/// this call reads from the clock: the time of the entry that the log
/// has got.
pub fn update_account(store: &mut DataStore, id: u128, patch: AccountPatch) -> (r: Result<
    Persist,
    StoreError,
>)
    ensures
        match r {
            Ok(persist) => {
                &&& known(old(store)@.config.accounts, id)
                &&& final(store)@.logs.len() > 0
                &&& final(store)@ == with_patch(
                    old(store)@,
                    id,
                    patch@,
                    final(store)@.logs.last().created_at,
                )
                &&& persist == Persist::ConfigAndLogs
            },
            Err(e) => {
                &&& e == StoreError::NotFound
                &&& !known(old(store)@.config.accounts, id)
                &&& *final(store) == *old(store)
            },
        },
        old(store)@.config.wf() ==> final(store)@.config.wf(),
{
    let now = current_time();
    update_account_at(store, id, patch, now)
}

} // verus!
