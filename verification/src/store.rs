//! The store: the state that is held in memory, and the operations on
//! accounts. Every operation that changes the state says what has to be
//! written to disk afterwards.

use crate::account::{clone_accounts, new_account, Account, AccountModel};
use crate::clock::{current_time, Timestamp};
use crate::config::{emails_distinct, ids_distinct, AppConfig, ConfigModel};
use crate::error::StoreError;
use crate::ident::random_uuid;
use crate::log::{LogModel, OperationLog};
use crate::seqs::{lemma_position_is, position};
use crate::text::{list_contains, trim, trim_of};
use vstd::prelude::*;

verus! {

/// What of the state has to be written to disk after an operation.
#[derive(Clone, Copy, Debug, PartialEq, Eq, Structural)]
pub enum Persist {
    /// Nothing: the state did not change, or the caller writes later.
    Nothing,
    /// The accounts, groups, tags and settings.
    Config,
    /// The operation log.
    Logs,
    /// Both files.
    ConfigAndLogs,
}

/// The state of the store: the aggregate and the operation log.
#[derive(Debug, PartialEq, Eq)]
pub struct DataStore {
    pub config: AppConfig,
    pub logs: Vec<OperationLog>,
}

/// The model of a `DataStore`.
pub struct StoreModel {
    pub config: ConfigModel,
    pub logs: Seq<LogModel>,
}

impl View for DataStore {
    type V = StoreModel;

    open spec fn view(&self) -> StoreModel {
        StoreModel { config: self.config@, logs: self.logs.deep_view() }
    }
}

/// The ids of a list of accounts, in its order.
pub open spec fn ids_of(accounts: Seq<AccountModel>) -> Seq<u128> {
    accounts.map_values(|a: AccountModel| a.id)
}

/// An account of the list carries this id.
pub open spec fn known(accounts: Seq<AccountModel>, id: u128) -> bool {
    ids_of(accounts).contains(id)
}

/// The place of the first account that carries this id.
pub open spec fn place(accounts: Seq<AccountModel>, id: u128) -> int {
    position(ids_of(accounts), id)
}

/// An account of the list carries this email, letter for letter.
pub open spec fn email_taken(accounts: Seq<AccountModel>, email: Seq<char>) -> bool {
    exists|i: int| 0 <= i < accounts.len() && (#[trigger] accounts[i]).email == email
}

/// The name of the group that takes the accounts that name none.
pub open spec fn default_group() -> Seq<char> {
    "默认分组"@
}

/// The group that a new account joins: the trimmed name it asked for, or
/// the default group where it asked for none or for a blank one.
pub open spec fn resolved_group(group: Option<Seq<char>>) -> Seq<char> {
    match group {
        Some(name) => if trim_of(name).len() == 0 {
            default_group()
        } else {
            trim_of(name)
        },
        None => default_group(),
    }
}

/// The list of groups once it holds `name`.
pub open spec fn with_group(groups: Seq<Seq<char>>, name: Seq<char>) -> Seq<Seq<char>> {
    if groups.contains(name) {
        groups
    } else {
        groups.push(name)
    }
}

/// The account that `insert_account` stores.
pub open spec fn inserted_account(
    id: u128,
    created_at: Timestamp,
    email: Seq<char>,
    password: Seq<char>,
    nickname: Seq<char>,
    group: Option<Seq<char>>,
) -> AccountModel {
    AccountModel {
        group: Some(resolved_group(group)),
        ..new_account(id, created_at, email, password, nickname, Seq::empty())
    }
}

/// The aggregate after `account` has joined it.
pub open spec fn with_account(c: ConfigModel, account: AccountModel) -> ConfigModel {
    ConfigModel {
        accounts: c.accounts.push(account),
        groups: with_group(c.groups, account.group.unwrap()),
        ..c
    }
}

/// Finds the first account that carries an id.
pub fn find_account(accounts: &Vec<Account>, id: u128) -> (r: Option<usize>)
    ensures
        match r {
            Some(i) => known(accounts.deep_view(), id) && i == place(accounts.deep_view(), id)
                && i < accounts.len() && accounts.deep_view()[i as int].id == id,
            None => !known(accounts.deep_view(), id),
        },
{
    let ghost ids = ids_of(accounts.deep_view());
    let mut i: usize = 0;
    while i < accounts.len()
        invariant
            i <= accounts.len(),
            ids == ids_of(accounts.deep_view()),
            forall|j: int| 0 <= j < i ==> #[trigger] ids[j] != id,
        decreases accounts.len() - i,
    {
        if accounts[i].id == id {
            proof {
                assert(ids[i as int] == id);
                lemma_position_is(ids, id, i as int);
            }
            return Some(i);
        }
        i += 1;
    }
    None
}

/// Tells whether an account of the list carries an email.
pub fn has_email(accounts: &Vec<Account>, email: &String) -> (r: bool)
    ensures
        r == email_taken(accounts.deep_view(), email@),
{
    let mut i: usize = 0;
    while i < accounts.len()
        invariant
            i <= accounts.len(),
            forall|j: int| 0 <= j < i ==> (#[trigger] accounts.deep_view()[j]).email != email@,
        decreases accounts.len() - i,
    {
        if accounts[i].email == *email {
            assert(accounts.deep_view()[i as int].email == email@);
            return true;
        }
        i += 1;
    }
    false
}

/// Resolves the group that a new account joins.
pub fn resolve_group(group: Option<String>) -> (r: String)
    ensures
        r@ == resolved_group(group.deep_view()),
{
    match group {
        Some(name) => {
            let trimmed = trim(name.as_str());
            if trimmed.is_empty() {
                "默认分组".to_string()
            } else {
                trimmed.to_owned()
            }
        },
        None => "默认分组".to_string(),
    }
}

impl DataStore {
    /// The store over what was read from disk. Files of an older layout
    /// keep the log inside the aggregate: where the log of its own is
    /// empty such entries move there, and both files are to be rewritten.
    pub fn new(config: AppConfig, logs: Vec<OperationLog>) -> (r: (DataStore, Persist))
        ensures
            r.0@.config == (ConfigModel {
                logs: if config@.logs.len() > 0 && logs.len() == 0 {
                    Seq::empty()
                } else {
                    config@.logs
                },
                ..config@
            }),
            r.0@.logs == if config@.logs.len() > 0 && logs.len() == 0 {
                config@.logs
            } else {
                logs.deep_view()
            },
            r.1 == if config@.logs.len() > 0 && logs.len() == 0 {
                Persist::ConfigAndLogs
            } else {
                Persist::Nothing
            },
            config@.wf() ==> r.0@.config.wf(),
    {
        let mut config = config;
        if config.logs.len() > 0 && logs.len() == 0 {
            let mut moved: Vec<OperationLog> = Vec::new();
            std::mem::swap(&mut moved, &mut config.logs);
            assert(config.logs.deep_view() =~= Seq::empty());
            (DataStore { config, logs: moved }, Persist::ConfigAndLogs)
        } else {
            (DataStore { config, logs }, Persist::Nothing)
        }
    }

    /// Adds an account under a given id and creation time. Fails with
    /// `DuplicateKey`, and changes nothing, where an account carries the
    /// same email or the same id; else the account joins the group it
    /// asked for, which is created where it is absent. The aggregate is
    /// then to be written.
    pub fn insert_account(
        &mut self,
        id: u128,
        created_at: Timestamp,
        email: String,
        password: String,
        nickname: String,
        group: Option<String>,
    ) -> (r: Result<Account, StoreError>)
        ensures
            match r {
                Ok(account) => {
                    &&& !email_taken(old(self)@.config.accounts, email@)
                    &&& !known(old(self)@.config.accounts, id)
                    &&& account@ == inserted_account(
                        id,
                        created_at,
                        email@,
                        password@,
                        nickname@,
                        group.deep_view(),
                    )
                    &&& final(self)@.config == with_account(old(self)@.config, account@)
                    &&& final(self)@.logs == old(self)@.logs
                },
                Err(e) => {
                    &&& e == StoreError::DuplicateKey
                    &&& email_taken(old(self)@.config.accounts, email@) || known(
                        old(self)@.config.accounts,
                        id,
                    )
                    &&& *final(self) == *old(self)
                },
            },
            old(self)@.config.wf() ==> final(self)@.config.wf(),
            emails_distinct(old(self)@.config.accounts) ==> emails_distinct(
                final(self)@.config.accounts,
            ),
    {
        if has_email(&self.config.accounts, &email) {
            return Err(StoreError::DuplicateKey);
        }
        if find_account(&self.config.accounts, id).is_some() {
            return Err(StoreError::DuplicateKey);
        }
        let final_group = resolve_group(group);
        let ghost before = self@.config;
        if !list_contains(&self.config.groups, &final_group) {
            self.config.groups.push(final_group.clone());
            assert(self@.config.groups =~= before.groups.push(final_group@));
        }
        let mut account = Account::new(id, created_at, email, password, nickname, Vec::new());
        account.group = Some(final_group);
        assert(account@.tags =~= Seq::empty());
        let stored = account.clone();
        self.config.accounts.push(stored);
        proof {
            assert(self@.config.accounts =~= before.accounts.push(account@));
            let after = self@.config.accounts;
            let n = before.accounts.len() as int;
            assert forall|i: int, j: int| 0 <= i < j < after.len() implies (#[trigger] after[i]).id
                != (#[trigger] after[j]).id || !ids_distinct(before.accounts) by {
                if j == n {
                    assert(ids_of(before.accounts)[i] == before.accounts[i].id);
                } else {
                    assert(after[i] == before.accounts[i] && after[j] == before.accounts[j]);
                }
            }
            assert forall|i: int, j: int| 0 <= i < j < after.len() implies (
            #[trigger] after[i]).email != (#[trigger] after[j]).email || !emails_distinct(
                before.accounts,
            ) by {
                if j == n {
                    assert(before.accounts[i].email != email@);
                } else {
                    assert(after[i] == before.accounts[i] && after[j] == before.accounts[j]);
                }
            }
        }
        Ok(account)
    }

    /// Adds an account under a random id, created now. Fails with
    /// `DuplicateKey`, and changes nothing, where an account carries the
    /// same email, or where the id that was drawn is taken; else does
    /// what `insert_account` does with the id and the time it drew. A
    /// store without accounts has no id to be taken, so there the call
    /// succeeds.
    pub fn add_account(
        &mut self,
        email: String,
        password: String,
        nickname: String,
        group: Option<String>,
    ) -> (r: Result<Account, StoreError>)
        ensures
            match r {
                Ok(account) => {
                    &&& !email_taken(old(self)@.config.accounts, email@)
                    &&& !known(old(self)@.config.accounts, account@.id)
                    &&& account@ == inserted_account(
                        account@.id,
                        account@.created_at,
                        email@,
                        password@,
                        nickname@,
                        group.deep_view(),
                    )
                    &&& final(self)@.config == with_account(old(self)@.config, account@)
                    &&& final(self)@.logs == old(self)@.logs
                },
                Err(e) => e == StoreError::DuplicateKey && *final(self) == *old(self),
            },
            email_taken(old(self)@.config.accounts, email@) ==> r is Err,
            old(self)@.config.accounts.len() == 0 ==> r is Ok,
            old(self)@.config.wf() ==> final(self)@.config.wf(),
            emails_distinct(old(self)@.config.accounts) ==> emails_distinct(
                final(self)@.config.accounts,
            ),
    {
        let id = random_uuid();
        let now = current_time();
        self.insert_account(id, now, email, password, nickname, group)
    }

    /// The account that carries an id, or `NotFound`.
    pub fn get_account(&self, id: u128) -> (r: Result<Account, StoreError>)
        ensures
            match r {
                Ok(account) => known(self@.config.accounts, id) && account@
                    == self@.config.accounts[place(self@.config.accounts, id)],
                Err(e) => e == StoreError::NotFound && !known(self@.config.accounts, id),
            },
    {
        match find_account(&self.config.accounts, id) {
            Some(i) => Ok(self.config.accounts[i].clone()),
            None => Err(StoreError::NotFound),
        }
    }

    /// A copy of every account, in the order of the store.
    pub fn get_all_accounts(&self) -> (r: Vec<Account>)
        ensures
            r.deep_view() == self@.config.accounts,
    {
        clone_accounts(&self.config.accounts)
    }
}

} // verus!
