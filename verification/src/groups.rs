//! Operations of the store on groups. An account names its group; the
//! group does not own the account.

use crate::account::{Account, AccountModel};
use crate::config::ConfigModel;
use crate::error::StoreError;
use crate::seqs::{lemma_filter_no_duplicates, position};
use crate::store::{with_group, DataStore, Persist};
use crate::text::{find_text, list_contains, remove_text, without};
use vstd::prelude::*;

verus! {

/// The account once a group is gone: it names no group where it named
/// that one.
pub open spec fn group_cleared(a: AccountModel, name: Seq<char>) -> AccountModel {
    if a.group == Some(name) {
        AccountModel { group: None, ..a }
    } else {
        a
    }
}

/// The account once a group has a new name: it names the new one where
/// it named the old one.
pub open spec fn group_renamed(a: AccountModel, old_name: Seq<char>, new_name: Seq<char>)
    -> AccountModel {
    if a.group == Some(old_name) {
        AccountModel { group: Some(new_name), ..a }
    } else {
        a
    }
}

/// The aggregate without a group.
pub open spec fn without_group(c: ConfigModel, name: Seq<char>) -> ConfigModel {
    ConfigModel {
        groups: without(c.groups, name),
        accounts: c.accounts.map_values(|a: AccountModel| group_cleared(a, name)),
        ..c
    }
}

/// The aggregate after a group got a new name.
pub open spec fn with_group_renamed(c: ConfigModel, old_name: Seq<char>, new_name: Seq<char>)
    -> ConfigModel {
    ConfigModel {
        groups: c.groups.update(position(c.groups, old_name), new_name),
        accounts: c.accounts.map_values(|a: AccountModel| group_renamed(a, old_name, new_name)),
        ..c
    }
}

/// Tells whether an account names a group.
fn names_group(account: &Account, name: &String) -> (r: bool)
    ensures
        r == (account@.group == Some(name@)),
{
    match &account.group {
        Some(group) => *group == *name,
        None => false,
    }
}

impl DataStore {
    /// Makes sure that a group of this name exists, and asks for the
    /// aggregate to be written.
    pub fn add_group(&mut self, name: String) -> (r: Persist)
        ensures
            final(self)@.config == (ConfigModel {
                groups: with_group(old(self)@.config.groups, name@),
                ..old(self)@.config
            }),
            final(self)@.logs == old(self)@.logs,
            r == Persist::Config,
            old(self)@.config.wf() ==> final(self)@.config.wf(),
    {
        let ghost before = self@.config.groups;
        if !list_contains(&self.config.groups, &name) {
            self.config.groups.push(name);
            assert(self@.config.groups =~= before.push(name@));
        }
        Persist::Config
    }

    /// Deletes a group: the name leaves the list, and the accounts that
    /// named the group name none; no account is deleted. Asks for the
    /// aggregate to be written.
    pub fn delete_group(&mut self, name: String) -> (r: Persist)
        ensures
            final(self)@.config == without_group(old(self)@.config, name@),
            final(self)@.logs == old(self)@.logs,
            r == Persist::Config,
            old(self)@.config.wf() ==> final(self)@.config.wf(),
    {
        let ghost before = self@.config;
        remove_text(&mut self.config.groups, &name);
        let mut i: usize = 0;
        while i < self.config.accounts.len()
            invariant
                i <= self.config.accounts.len(),
                self.config.accounts.len() == before.accounts.len(),
                self@.config == (ConfigModel { accounts: self@.config.accounts, ..before }
                    .with_groups(without(before.groups, name@))),
                self@.logs == old(self)@.logs,
                forall|j: int|
                    0 <= j < i ==> #[trigger] self@.config.accounts[j] == group_cleared(
                        before.accounts[j],
                        name@,
                    ),
                forall|j: int|
                    i <= j < before.accounts.len() ==> #[trigger] self@.config.accounts[j]
                        == before.accounts[j],
            decreases self.config.accounts.len() - i,
        {
            assert(self@.config.accounts[i as int] == self.config.accounts@[i as int]@);
            if names_group(&self.config.accounts[i], &name) {
                let ghost current = self@.config.accounts;
                let mut account = self.config.accounts[i].clone();
                account.group = None;
                let ghost stored = account@;
                self.config.accounts.set(i, account);
                assert(self@.config.accounts =~= current.update(i as int, stored));
            }
            i += 1;
        }
        proof {
            assert(self@.config.accounts =~= before.accounts.map_values(
                |a: AccountModel| group_cleared(a, name@),
            ));
            if before.wf() {
                lemma_filter_no_duplicates(before.groups, |s: Seq<char>| s != name@);
            }
        }
        Persist::Config
    }

    /// Gives a group a new name, in the list and in every account that
    /// names the group, and asks for the aggregate to be written. Fails
    /// with `DuplicateKey` where a group of the new name exists, else
    /// with `NotFound` where none of the old name does; a failure changes
    /// nothing.
    pub fn rename_group(&mut self, old_name: String, new_name: String) -> (r: Result<
        Persist,
        StoreError,
    >)
        ensures
            match r {
                Ok(persist) => {
                    &&& !old(self)@.config.groups.contains(new_name@)
                    &&& old(self)@.config.groups.contains(old_name@)
                    &&& final(self)@.config == with_group_renamed(
                        old(self)@.config,
                        old_name@,
                        new_name@,
                    )
                    &&& final(self)@.logs == old(self)@.logs
                    &&& persist == Persist::Config
                },
                Err(e) => {
                    &&& *final(self) == *old(self)
                    &&& e == if old(self)@.config.groups.contains(new_name@) {
                        StoreError::DuplicateKey
                    } else {
                        StoreError::NotFound
                    }
                    &&& old(self)@.config.groups.contains(new_name@) || !old(
                        self,
                    )@.config.groups.contains(old_name@)
                },
            },
            old(self)@.config.wf() ==> final(self)@.config.wf(),
    {
        if list_contains(&self.config.groups, &new_name) {
            return Err(StoreError::DuplicateKey);
        }
        let index = match find_text(&self.config.groups, &old_name) {
            Some(index) => index,
            None => {
                return Err(StoreError::NotFound);
            },
        };
        let ghost before = self@.config;
        self.config.groups.set(index, new_name.clone());
        assert(self@.config.groups =~= before.groups.update(index as int, new_name@));
        let mut i: usize = 0;
        while i < self.config.accounts.len()
            invariant
                i <= self.config.accounts.len(),
                self.config.accounts.len() == before.accounts.len(),
                index < before.groups.len(),
                self@.config == (ConfigModel { accounts: self@.config.accounts, ..before }
                    .with_groups(before.groups.update(index as int, new_name@))),
                self@.logs == old(self)@.logs,
                forall|j: int|
                    0 <= j < i ==> #[trigger] self@.config.accounts[j] == group_renamed(
                        before.accounts[j],
                        old_name@,
                        new_name@,
                    ),
                forall|j: int|
                    i <= j < before.accounts.len() ==> #[trigger] self@.config.accounts[j]
                        == before.accounts[j],
            decreases self.config.accounts.len() - i,
        {
            assert(self@.config.accounts[i as int] == self.config.accounts@[i as int]@);
            if names_group(&self.config.accounts[i], &old_name) {
                let ghost current = self@.config.accounts;
                let mut account = self.config.accounts[i].clone();
                account.group = Some(new_name.clone());
                let ghost stored = account@;
                self.config.accounts.set(i, account);
                assert(self@.config.accounts =~= current.update(i as int, stored));
            }
            i += 1;
        }
        proof {
            assert(self@.config.accounts =~= before.accounts.map_values(
                |a: AccountModel| group_renamed(a, old_name@, new_name@),
            ));
        }
        Ok(Persist::Config)
    }

    /// A copy of the group names, in the order of the store.
    pub fn get_groups(&self) -> (r: Vec<String>)
        ensures
            r.deep_view() == self@.config.groups,
    {
        let r = self.config.groups.clone();
        assert(r.deep_view() =~= self.config.groups.deep_view());
        r
    }
}

impl ConfigModel {
    /// The aggregate with another list of groups.
    pub open spec fn with_groups(self, groups: Seq<Seq<char>>) -> ConfigModel {
        ConfigModel { groups, ..self }
    }
}

} // verus!
