//! Operations of the store that change or delete a single account.

use crate::account::{Account, AccountModel, AccountStatus, StatusModel};
use crate::clock::{current_time, format_rfc3339, rfc3339_of, Timestamp};
use crate::config::{emails_distinct, ids_distinct, ConfigModel};
use crate::error::StoreError;
use crate::ident::{format_uuid, uuid_text};
use crate::log::{remove_account_logs, without_account};
use crate::seqs::{lemma_filter_empty, lemma_filter_step, lemma_position};
use crate::store::{email_taken, find_account, ids_of, known, place, DataStore, Persist};
use vstd::prelude::*;

verus! {

/// What is sent to the subscriber when an account got a new token.
#[derive(Debug, PartialEq, Eq)]
pub struct TokenRefreshedPayload {
    pub account_id: String,
    pub token: String,
    pub token_expires_at: String,
}

/// The model of a `TokenRefreshedPayload`.
pub struct PayloadModel {
    pub account_id: Seq<char>,
    pub token: Seq<char>,
    pub token_expires_at: Seq<char>,
}

impl View for TokenRefreshedPayload {
    type V = PayloadModel;

    open spec fn view(&self) -> PayloadModel {
        PayloadModel {
            account_id: self.account_id@,
            token: self.token@,
            token_expires_at: self.token_expires_at@,
        }
    }
}

impl DeepView for TokenRefreshedPayload {
    type V = PayloadModel;

    open spec fn deep_view(&self) -> PayloadModel {
        self@
    }
}

/// The notification for a new token: the id and the expiry as texts. None
/// is due where the expiry lies beyond the calendar.
pub open spec fn payload_for(id: u128, token: Seq<char>, expires_at: Timestamp) -> Option<
    PayloadModel,
> {
    match rfc3339_of(expires_at.secs, expires_at.nanos) {
        Some(text) => Some(
            PayloadModel { account_id: uuid_text(id), token, token_expires_at: text },
        ),
        None => None,
    }
}

/// The aggregate after the first account with the id of `account` has
/// been replaced by `account`, but for its password, which stays.
pub open spec fn replaced(c: ConfigModel, account: AccountModel) -> ConfigModel {
    let i = place(c.accounts, account.id);
    ConfigModel {
        accounts: c.accounts.update(
            i,
            AccountModel { password: c.accounts[i].password, ..account },
        ),
        ..c
    }
}

/// The accounts that do not carry an id, in their order.
pub open spec fn without_id(accounts: Seq<AccountModel>, id: u128) -> Seq<AccountModel> {
    accounts.filter(|a: AccountModel| a.id != id)
}

/// The aggregate after the first account with an id got a new password.
pub open spec fn with_password(c: ConfigModel, id: u128, password: Seq<char>) -> ConfigModel {
    let i = place(c.accounts, id);
    ConfigModel { accounts: c.accounts.update(i, AccountModel { password, ..c.accounts[i] }), ..c }
}

/// The aggregate after the first account with an id got a new token: it
/// is active and has logged in at `now`. Its refresh token changes where
/// one is given.
pub open spec fn with_tokens(
    c: ConfigModel,
    id: u128,
    token: Seq<char>,
    refresh_token: Option<Seq<char>>,
    expires_at: Timestamp,
    now: Timestamp,
) -> ConfigModel {
    let i = place(c.accounts, id);
    let account = c.accounts[i];
    ConfigModel {
        accounts: c.accounts.update(
            i,
            AccountModel {
                token: Some(token),
                refresh_token: match refresh_token {
                    Some(text) => Some(text),
                    None => account.refresh_token,
                },
                token_expires_at: Some(expires_at),
                last_login_at: Some(now),
                status: StatusModel::Active,
                ..account
            },
        ),
        ..c
    }
}

/// The email of a replacement is the one that is stored for the account
/// it replaces, or one that no account carries.
pub open spec fn keeps_emails_distinct(c: ConfigModel, account: AccountModel) -> bool {
    c.accounts[place(c.accounts, account.id)].email == account.email || !email_taken(
        c.accounts,
        account.email,
    )
}

/// What an operation asks to be written: the aggregate, or nothing where
/// the caller writes later.
pub open spec fn config_if(save_immediately: bool) -> Persist {
    if save_immediately {
        Persist::Config
    } else {
        Persist::Nothing
    }
}

/// Replacing an account at its place keeps the ids as they are.
proof fn lemma_update_keeps_ids(accounts: Seq<AccountModel>, i: int, account: AccountModel)
    requires
        0 <= i < accounts.len(),
        accounts[i].id == account.id,
    ensures
        ids_of(accounts.update(i, account)) == ids_of(accounts),
        ids_distinct(accounts) ==> ids_distinct(accounts.update(i, account)),
        (accounts[i].email == account.email || !email_taken(accounts, account.email))
            && emails_distinct(accounts) ==> emails_distinct(accounts.update(i, account)),
{
    assert(ids_of(accounts.update(i, account)) =~= ids_of(accounts));
}

/// Builds the notification for a new token.
pub fn token_payload(id: u128, token: String, expires_at: Timestamp) -> (r: Option<
    TokenRefreshedPayload,
>)
    ensures
        r.deep_view() == payload_for(id, token@, expires_at),
{
    match format_rfc3339(expires_at) {
        Some(text) => Some(
            TokenRefreshedPayload {
                account_id: format_uuid(id),
                token,
                token_expires_at: text,
            },
        ),
        None => None,
    }
}

impl DataStore {
    /// Replaces the account that carries the id of `account` and asks for
    /// the aggregate to be written. See `update_account_internal`.
    pub fn update_account(&mut self, account: Account) -> (r: Result<Persist, StoreError>)
        ensures
            match r {
                Ok(persist) => {
                    &&& known(old(self)@.config.accounts, account@.id)
                    &&& final(self)@.config == replaced(old(self)@.config, account@)
                    &&& final(self)@.logs == old(self)@.logs
                    &&& persist == Persist::Config
                },
                Err(e) => {
                    &&& e == StoreError::NotFound
                    &&& !known(old(self)@.config.accounts, account@.id)
                    &&& *final(self) == *old(self)
                },
            },
            old(self)@.config.wf() && keeps_emails_distinct(old(self)@.config, account@)
                ==> final(self)@.config.wf(),
    {
        self.update_account_internal(account, true)
    }

    /// Replaces the account that carries the id of `account` and asks for
    /// nothing to be written: the caller ends its batch with `flush`.
    pub fn update_account_no_save(&mut self, account: Account) -> (r: Result<Persist, StoreError>)
        ensures
            match r {
                Ok(persist) => {
                    &&& known(old(self)@.config.accounts, account@.id)
                    &&& final(self)@.config == replaced(old(self)@.config, account@)
                    &&& final(self)@.logs == old(self)@.logs
                    &&& persist == Persist::Nothing
                },
                Err(e) => {
                    &&& e == StoreError::NotFound
                    &&& !known(old(self)@.config.accounts, account@.id)
                    &&& *final(self) == *old(self)
                },
            },
            old(self)@.config.wf() && keeps_emails_distinct(old(self)@.config, account@)
                ==> final(self)@.config.wf(),
    {
        self.update_account_internal(account, false)
    }

    /// Replaces the first account that carries the id of `account` by
    /// `account`, whole but for the password: the stored one stays,
    /// whatever `account` holds. Fails with `NotFound`, and changes
    /// nothing, where no account carries the id.
    pub fn update_account_internal(&mut self, account: Account, save_immediately: bool) -> (r:
        Result<Persist, StoreError>)
        ensures
            match r {
                Ok(persist) => {
                    &&& known(old(self)@.config.accounts, account@.id)
                    &&& final(self)@.config == replaced(old(self)@.config, account@)
                    &&& final(self)@.logs == old(self)@.logs
                    &&& persist == config_if(save_immediately)
                },
                Err(e) => {
                    &&& e == StoreError::NotFound
                    &&& !known(old(self)@.config.accounts, account@.id)
                    &&& *final(self) == *old(self)
                },
            },
            old(self)@.config.wf() && keeps_emails_distinct(old(self)@.config, account@)
                ==> final(self)@.config.wf(),
    {
        match find_account(&self.config.accounts, account.id) {
            Some(i) => {
                let ghost before = self@.config.accounts;
                let mut account = account;
                account.password = self.config.accounts[i].password.clone();
                let ghost stored = account@;
                self.config.accounts.set(i, account);
                proof {
                    assert(self@.config.accounts =~= before.update(i as int, stored));
                    lemma_update_keeps_ids(before, i as int, stored);
                }
                Ok(if save_immediately {
                    Persist::Config
                } else {
                    Persist::Nothing
                })
            },
            None => Err(StoreError::NotFound),
        }
    }

    /// Deletes every account that carries an id, and with it every entry
    /// of the log that refers to the id; all other entries stay as they
    /// are. Both files are then to be written. Fails with `NotFound`, and
    /// changes nothing, where no account carries the id.
    pub fn delete_account(&mut self, id: u128) -> (r: Result<Persist, StoreError>)
        ensures
            match r {
                Ok(persist) => {
                    &&& known(old(self)@.config.accounts, id)
                    &&& final(self)@.config == (ConfigModel {
                        accounts: without_id(old(self)@.config.accounts, id),
                        ..old(self)@.config
                    })
                    &&& final(self)@.logs == without_account(old(self)@.logs, id)
                    &&& persist == Persist::ConfigAndLogs
                },
                Err(e) => {
                    &&& e == StoreError::NotFound
                    &&& !known(old(self)@.config.accounts, id)
                    &&& *final(self) == *old(self)
                },
            },
            old(self)@.config.wf() ==> final(self)@.config.wf(),
            emails_distinct(old(self)@.config.accounts) ==> emails_distinct(
                final(self)@.config.accounts,
            ),
            !known(final(self)@.config.accounts, id),
    {
        if find_account(&self.config.accounts, id).is_none() {
            return Err(StoreError::NotFound);
        }
        let ghost before = self@.config.accounts;
        let ghost keep = |a: AccountModel| a.id != id;
        let mut kept: Vec<Account> = Vec::new();
        let mut i: usize = 0;
        proof {
            lemma_filter_empty(before.take(0), keep);
        }
        while i < self.config.accounts.len()
            invariant
                i <= self.config.accounts.len(),
                self.config.accounts.deep_view() == before,
                keep == |a: AccountModel| a.id != id,
                kept.deep_view() == before.take(i as int).filter(keep),
            decreases self.config.accounts.len() - i,
        {
            proof {
                lemma_filter_step(before, i as int, keep);
            }
            if self.config.accounts[i].id != id {
                let ghost shorter = kept.deep_view();
                kept.push(self.config.accounts[i].clone());
                assert(kept.deep_view() =~= shorter.push(before[i as int]));
            }
            i += 1;
        }
        assert(before.take(i as int) =~= before);
        self.config.accounts = kept;
        remove_account_logs(&mut self.logs, id);
        proof {
            lemma_without_id(before, id);
        }
        Ok(Persist::ConfigAndLogs)
    }

    /// Gives the first account that carries an id a new password and asks
    /// for the aggregate to be written. Fails with `NotFound`, and
    /// changes nothing, where no account carries the id.
    pub fn update_account_password(&mut self, id: u128, new_password: String) -> (r: Result<
        Persist,
        StoreError,
    >)
        ensures
            match r {
                Ok(persist) => {
                    &&& known(old(self)@.config.accounts, id)
                    &&& final(self)@.config == with_password(old(self)@.config, id, new_password@)
                    &&& final(self)@.logs == old(self)@.logs
                    &&& persist == Persist::Config
                },
                Err(e) => {
                    &&& e == StoreError::NotFound
                    &&& !known(old(self)@.config.accounts, id)
                    &&& *final(self) == *old(self)
                },
            },
            old(self)@.config.wf() ==> final(self)@.config.wf(),
    {
        match find_account(&self.config.accounts, id) {
            Some(i) => {
                let ghost before = self@.config.accounts;
                let mut account = self.config.accounts[i].clone();
                account.password = new_password;
                let ghost stored = account@;
                self.config.accounts.set(i, account);
                proof {
                    assert(self@.config.accounts =~= before.update(i as int, stored));
                    lemma_update_keeps_ids(before, i as int, stored);
                }
                Ok(Persist::Config)
            },
            None => Err(StoreError::NotFound),
        }
    }

    /// Stores a new token for the first account that carries an id: the
    /// account is active and has logged in at `now`; its refresh token
    /// changes where one is given. Fails with `NotFound`, and changes
    /// nothing, where no account carries the id.
    pub fn set_tokens(
        &mut self,
        id: u128,
        token: String,
        refresh_token: Option<String>,
        expires_at: Timestamp,
        now: Timestamp,
    ) -> (r: Result<(), StoreError>)
        ensures
            match r {
                Ok(_) => {
                    &&& known(old(self)@.config.accounts, id)
                    &&& final(self)@.config == with_tokens(
                        old(self)@.config,
                        id,
                        token@,
                        refresh_token.deep_view(),
                        expires_at,
                        now,
                    )
                    &&& final(self)@.logs == old(self)@.logs
                },
                Err(e) => {
                    &&& e == StoreError::NotFound
                    &&& !known(old(self)@.config.accounts, id)
                    &&& *final(self) == *old(self)
                },
            },
            old(self)@.config.wf() ==> final(self)@.config.wf(),
    {
        match find_account(&self.config.accounts, id) {
            Some(i) => {
                let ghost before = self@.config.accounts;
                let mut account = self.config.accounts[i].clone();
                account.token = Some(token);
                match refresh_token {
                    Some(text) => {
                        account.refresh_token = Some(text);
                    },
                    None => {},
                }
                account.token_expires_at = Some(expires_at);
                account.last_login_at = Some(now);
                account.status = AccountStatus::Active;
                let ghost stored = account@;
                self.config.accounts.set(i, account);
                proof {
                    assert(self@.config.accounts =~= before.update(i as int, stored));
                    lemma_update_keeps_ids(before, i as int, stored);
                }
                Ok(())
            },
            None => Err(StoreError::NotFound),
        }
    }

    /// Stores a new token and its expiry for an account, which has then
    /// logged in at the time this call reads from the clock, and asks for
    /// the aggregate to be written. The refresh token stays.
    pub fn update_account_token(&mut self, id: u128, token: String, expires_at: Timestamp) -> (r:
        Result<Persist, StoreError>)
        ensures
            match r {
                Ok(persist) => {
                    &&& known(old(self)@.config.accounts, id)
                    &&& final(self)@.config == with_tokens(
                        old(self)@.config,
                        id,
                        token@,
                        None,
                        expires_at,
                        login_time(final(self)@.config, id),
                    )
                    &&& final(self)@.logs == old(self)@.logs
                    &&& persist == Persist::Config
                },
                Err(e) => {
                    &&& e == StoreError::NotFound
                    &&& !known(old(self)@.config.accounts, id)
                    &&& *final(self) == *old(self)
                },
            },
            old(self)@.config.wf() ==> final(self)@.config.wf(),
    {
        let now = current_time();
        let ghost before = self@.config;
        match self.set_tokens(id, token, None, expires_at, now) {
            Ok(_) => {
                proof {
                    lemma_login_time(before, self@.config, id, now);
                }
                Ok(Persist::Config)
            },
            Err(e) => Err(e),
        }
    }

    /// Stores a new token, refresh token and expiry, asks for the
    /// aggregate to be written and hands out the notification that is to
    /// be sent. See `update_account_tokens_internal`.
    pub fn update_account_tokens(
        &mut self,
        id: u128,
        token: String,
        refresh_token: String,
        expires_at: Timestamp,
    ) -> (r: Result<(Persist, Option<TokenRefreshedPayload>), StoreError>)
        ensures
            match r {
                Ok(done) => {
                    &&& known(old(self)@.config.accounts, id)
                    &&& final(self)@.config == with_tokens(
                        old(self)@.config,
                        id,
                        token@,
                        Some(refresh_token@),
                        expires_at,
                        login_time(final(self)@.config, id),
                    )
                    &&& final(self)@.logs == old(self)@.logs
                    &&& done.0 == Persist::Config
                    &&& done.1.deep_view() == payload_for(id, token@, expires_at)
                },
                Err(e) => {
                    &&& e == StoreError::NotFound
                    &&& !known(old(self)@.config.accounts, id)
                    &&& *final(self) == *old(self)
                },
            },
            old(self)@.config.wf() ==> final(self)@.config.wf(),
    {
        self.update_account_tokens_internal(id, token, refresh_token, expires_at, true)
    }

    /// As `update_account_tokens`, but asks for nothing to be written:
    /// the caller ends its batch with `flush`.
    pub fn update_account_tokens_no_save(
        &mut self,
        id: u128,
        token: String,
        refresh_token: String,
        expires_at: Timestamp,
    ) -> (r: Result<(Persist, Option<TokenRefreshedPayload>), StoreError>)
        ensures
            match r {
                Ok(done) => {
                    &&& known(old(self)@.config.accounts, id)
                    &&& final(self)@.config == with_tokens(
                        old(self)@.config,
                        id,
                        token@,
                        Some(refresh_token@),
                        expires_at,
                        login_time(final(self)@.config, id),
                    )
                    &&& final(self)@.logs == old(self)@.logs
                    &&& done.0 == Persist::Nothing
                    &&& done.1.deep_view() == payload_for(id, token@, expires_at)
                },
                Err(e) => {
                    &&& e == StoreError::NotFound
                    &&& !known(old(self)@.config.accounts, id)
                    &&& *final(self) == *old(self)
                },
            },
            old(self)@.config.wf() ==> final(self)@.config.wf(),
    {
        self.update_account_tokens_internal(id, token, refresh_token, expires_at, false)
    }

    /// Stores a new token, refresh token and expiry for the first account
    /// that carries an id. The account is then active and has logged in
    /// at the time this call reads from the clock. With the result comes
    /// the notification for the subscriber. Fails with `NotFound`, and
    /// changes nothing, where no account carries the id.
    pub fn update_account_tokens_internal(
        &mut self,
        id: u128,
        token: String,
        refresh_token: String,
        expires_at: Timestamp,
        save_immediately: bool,
    ) -> (r: Result<(Persist, Option<TokenRefreshedPayload>), StoreError>)
        ensures
            match r {
                Ok(done) => {
                    &&& known(old(self)@.config.accounts, id)
                    &&& final(self)@.config == with_tokens(
                        old(self)@.config,
                        id,
                        token@,
                        Some(refresh_token@),
                        expires_at,
                        login_time(final(self)@.config, id),
                    )
                    &&& final(self)@.logs == old(self)@.logs
                    &&& done.0 == config_if(save_immediately)
                    &&& done.1.deep_view() == payload_for(id, token@, expires_at)
                },
                Err(e) => {
                    &&& e == StoreError::NotFound
                    &&& !known(old(self)@.config.accounts, id)
                    &&& *final(self) == *old(self)
                },
            },
            old(self)@.config.wf() ==> final(self)@.config.wf(),
    {
        let token_for_event = token.clone();
        let now = current_time();
        let ghost before = self@.config;
        match self.set_tokens(id, token, Some(refresh_token), expires_at, now) {
            Ok(_) => {
                proof {
                    lemma_login_time(before, self@.config, id, now);
                }
                let payload = token_payload(id, token_for_event, expires_at);
                Ok(
                    (
                        if save_immediately {
                            Persist::Config
                        } else {
                            Persist::Nothing
                        },
                        payload,
                    ),
                )
            },
            Err(e) => Err(e),
        }
    }

    /// Asks for the aggregate to be written: the end of a batch of
    /// operations that wrote nothing.
    pub fn flush(&self) -> (r: Persist)
        ensures
            r == Persist::Config,
    {
        Persist::Config
    }

    /// The password of the first account that carries an id, as it is
    /// stored.
    pub fn get_decrypted_password(&self, id: u128) -> (r: Result<String, StoreError>)
        ensures
            match r {
                Ok(password) => known(self@.config.accounts, id) && password@
                    == self@.config.accounts[place(self@.config.accounts, id)].password,
                Err(e) => e == StoreError::NotFound && !known(self@.config.accounts, id),
            },
    {
        match find_account(&self.config.accounts, id) {
            Some(i) => Ok(self.config.accounts[i].password.clone()),
            None => Err(StoreError::NotFound),
        }
    }

    /// The token of the first account that carries an id, as it is stored.
    pub fn get_decrypted_token(&self, id: u128) -> (r: Result<Option<String>, StoreError>)
        ensures
            match r {
                Ok(token) => known(self@.config.accounts, id) && token.deep_view()
                    == self@.config.accounts[place(self@.config.accounts, id)].token,
                Err(e) => e == StoreError::NotFound && !known(self@.config.accounts, id),
            },
    {
        match find_account(&self.config.accounts, id) {
            Some(i) => Ok(self.config.accounts[i].token.clone()),
            None => Err(StoreError::NotFound),
        }
    }
}

/// The time at which the first account with an id has logged in last; the
/// epoch where it never has.
pub open spec fn login_time(c: ConfigModel, id: u128) -> Timestamp {
    match c.accounts[place(c.accounts, id)].last_login_at {
        Some(at) => at,
        None => Timestamp { secs: 0, nanos: 0 },
    }
}

/// After a token update the login time of the account is the time that
/// the update was given.
proof fn lemma_login_time(before: ConfigModel, after: ConfigModel, id: u128, now: Timestamp)
    requires
        known(before.accounts, id),
        exists|token: Seq<char>, refresh_token: Option<Seq<char>>, expires_at: Timestamp|
            after == #[trigger] with_tokens(before, id, token, refresh_token, expires_at, now),
    ensures
        login_time(after, id) == now,
{
    lemma_position(ids_of(before.accounts), id);
    let i = place(before.accounts, id);
    assert(ids_of(before.accounts)[i] == before.accounts[i].id);
    lemma_update_keeps_ids(before.accounts, i, after.accounts[i]);
    assert(after.accounts =~= before.accounts.update(i, after.accounts[i]));
}

/// What is left when the accounts with an id are taken out: none of them,
/// and ids and emails that occurred once still do.
proof fn lemma_without_id(accounts: Seq<AccountModel>, id: u128)
    ensures
        !known(without_id(accounts, id), id),
        ids_distinct(accounts) ==> ids_distinct(without_id(accounts, id)),
        emails_distinct(accounts) ==> emails_distinct(without_id(accounts, id)),
    decreases accounts.len(),
{
    reveal(Seq::filter);
    let keep = |a: AccountModel| a.id != id;
    let left = without_id(accounts, id);
    if accounts.len() > 0 {
        let rest = accounts.drop_last();
        let last = accounts.last();
        lemma_without_id(rest, id);
        let left_rest = without_id(rest, id);
        assert forall|i: int| 0 <= i < left_rest.len() implies rest.contains(
            #[trigger] left_rest[i],
        ) by {
            assert(left_rest.contains(left_rest[i]));
            rest.lemma_filter_contains_rev(keep, left_rest[i]);
        }
        if known(left, id) {
            let k = choose|k: int| 0 <= k < left.len() && ids_of(left)[k] == id;
            if k < left_rest.len() {
                assert(ids_of(left_rest)[k] == id);
            }
        }
        if ids_distinct(accounts) && keep(last) {
            assert forall|i: int| 0 <= i < left_rest.len() implies (#[trigger] left_rest[i]).id
                != last.id by {
                let j = choose|j: int| 0 <= j < rest.len() && rest[j] == left_rest[i];
                assert(accounts[j].id != accounts[accounts.len() - 1].id);
            }
        }
        if emails_distinct(accounts) && keep(last) {
            assert forall|i: int| 0 <= i < left_rest.len() implies (#[trigger] left_rest[i]).email
                != last.email by {
                let j = choose|j: int| 0 <= j < rest.len() && rest[j] == left_rest[i];
                assert(accounts[j].email != accounts[accounts.len() - 1].email);
            }
        }
    } else {
        if known(left, id) {
            let k = choose|k: int| 0 <= k < left.len() && ids_of(left)[k] == id;
        }
    }
}

} // verus!
