//! The root aggregate of the store: accounts, groups, tags and settings.

use crate::account::{Account, AccountModel, GlobalTag, TagModel};
use crate::log::{LogModel, OperationLog};
use vstd::prelude::*;

verus! {

/// The settings of the installation. There is one such record at any time.
#[derive(Debug, PartialEq, Eq)]
pub struct Settings {
    pub custom_card_bin: String,
    pub custom_card_bin_range: Option<String>,
    pub bin_pool_enabled: bool,
    pub test_mode_enabled: bool,
    pub test_mode_last_bin: Option<String>,
    pub card_bind_retry_count: u32,
}

/// The model of `Settings`.
pub struct SettingsModel {
    pub custom_card_bin: Seq<char>,
    pub custom_card_bin_range: Option<Seq<char>>,
    pub bin_pool_enabled: bool,
    pub test_mode_enabled: bool,
    pub test_mode_last_bin: Option<Seq<char>>,
    pub card_bind_retry_count: u32,
}

impl View for Settings {
    type V = SettingsModel;

    open spec fn view(&self) -> SettingsModel {
        SettingsModel {
            custom_card_bin: self.custom_card_bin@,
            custom_card_bin_range: self.custom_card_bin_range.deep_view(),
            bin_pool_enabled: self.bin_pool_enabled,
            test_mode_enabled: self.test_mode_enabled,
            test_mode_last_bin: self.test_mode_last_bin.deep_view(),
            card_bind_retry_count: self.card_bind_retry_count,
        }
    }
}

impl Clone for Settings {
    fn clone(&self) -> (r: Self)
        ensures
            r@ == self@,
    {
        Settings {
            custom_card_bin: self.custom_card_bin.clone(),
            custom_card_bin_range: self.custom_card_bin_range.clone(),
            bin_pool_enabled: self.bin_pool_enabled,
            test_mode_enabled: self.test_mode_enabled,
            test_mode_last_bin: self.test_mode_last_bin.clone(),
            card_bind_retry_count: self.card_bind_retry_count,
        }
    }
}

/// The settings of a fresh installation.
pub open spec fn default_settings() -> SettingsModel {
    SettingsModel {
        custom_card_bin: Seq::empty(),
        custom_card_bin_range: None,
        bin_pool_enabled: false,
        test_mode_enabled: false,
        test_mode_last_bin: None,
        card_bind_retry_count: 0,
    }
}

impl Default for Settings {
    fn default() -> (r: Self)
        ensures
            r@ == default_settings(),
    {
        Settings {
            custom_card_bin: String::new(),
            custom_card_bin_range: None,
            bin_pool_enabled: false,
            test_mode_enabled: false,
            test_mode_last_bin: None,
            card_bind_retry_count: 0,
        }
    }
}

/// Everything the store holds. `logs` is read from files of an older
/// layout only; the store moves such entries to the log of their own.
#[derive(Debug, PartialEq, Eq)]
pub struct AppConfig {
    pub accounts: Vec<Account>,
    pub groups: Vec<String>,
    pub tags: Vec<GlobalTag>,
    pub settings: Settings,
    pub logs: Vec<OperationLog>,
}

/// The model of an `AppConfig`.
pub struct ConfigModel {
    pub accounts: Seq<AccountModel>,
    pub groups: Seq<Seq<char>>,
    pub tags: Seq<TagModel>,
    pub settings: SettingsModel,
    pub logs: Seq<LogModel>,
}

impl View for AppConfig {
    type V = ConfigModel;

    open spec fn view(&self) -> ConfigModel {
        ConfigModel {
            accounts: self.accounts.deep_view(),
            groups: self.groups.deep_view(),
            tags: self.tags.deep_view(),
            settings: self.settings@,
            logs: self.logs.deep_view(),
        }
    }
}

/// No two accounts carry the same id.
pub open spec fn ids_distinct(accounts: Seq<AccountModel>) -> bool {
    forall|i: int, j: int|
        0 <= i < j < accounts.len() ==> (#[trigger] accounts[i]).id != (#[trigger] accounts[j]).id
}

/// No two accounts carry the same email, letter for letter.
pub open spec fn emails_distinct(accounts: Seq<AccountModel>) -> bool {
    forall|i: int, j: int|
        0 <= i < j < accounts.len() ==> (#[trigger] accounts[i]).email != (
        #[trigger] accounts[j]).email
}

/// No two tags carry the same name.
pub open spec fn names_distinct(tags: Seq<TagModel>) -> bool {
    forall|i: int, j: int|
        0 <= i < j < tags.len() ==> (#[trigger] tags[i]).name != (#[trigger] tags[j]).name
}

impl ConfigModel {
    /// The store without content.
    pub open spec fn empty() -> ConfigModel {
        ConfigModel {
            accounts: Seq::empty(),
            groups: Seq::empty(),
            tags: Seq::empty(),
            settings: default_settings(),
            logs: Seq::empty(),
        }
    }

    /// Ids, emails, group names and tag names each occur once.
    pub open spec fn wf(self) -> bool {
        &&& ids_distinct(self.accounts)
        &&& emails_distinct(self.accounts)
        &&& self.groups.no_duplicates()
        &&& names_distinct(self.tags)
    }
}

impl Default for AppConfig {
    fn default() -> (r: Self)
        ensures
            r@ == ConfigModel::empty(),
            r@.wf(),
    {
        let r = AppConfig {
            accounts: Vec::new(),
            groups: Vec::new(),
            tags: Vec::new(),
            settings: Settings::default(),
            logs: Vec::new(),
        };
        assert(r@.accounts =~= Seq::empty());
        assert(r@.groups =~= Seq::empty());
        assert(r@.tags =~= Seq::empty());
        assert(r@.logs =~= Seq::empty());
        r
    }
}

impl Clone for AppConfig {
    fn clone(&self) -> (r: Self)
        ensures
            r@ == self@,
    {
        let accounts = self.accounts.clone();
        let groups = self.groups.clone();
        let tags = self.tags.clone();
        let logs = self.logs.clone();
        assert(accounts.deep_view() =~= self.accounts.deep_view());
        assert(groups.deep_view() =~= self.groups.deep_view());
        assert(tags.deep_view() =~= self.tags.deep_view());
        assert(logs.deep_view() =~= self.logs.deep_view());
        AppConfig { accounts, groups, tags, settings: self.settings.clone(), logs }
    }
}

impl AppConfig {
    /// Tells whether ids, emails, group names and tag names each occur
    /// once.
    pub fn is_well_formed(&self) -> (r: bool)
        ensures
            r == self@.wf(),
    {
        let mut i: usize = 0;
        while i < self.accounts.len()
            invariant
                i <= self.accounts.len(),
                forall|a: int, b: int|
                    0 <= a < b < self.accounts.len() && a < i ==> (
                    #[trigger] self@.accounts[a]).id != (#[trigger] self@.accounts[b]).id,
            decreases self.accounts.len() - i,
        {
            let mut j: usize = i + 1;
            while j < self.accounts.len()
                invariant
                    i < j <= self.accounts.len(),
                    forall|b: int| i < b < j ==> self@.accounts[i as int].id != (
                    #[trigger] self@.accounts[b]).id,
                decreases self.accounts.len() - j,
            {
                if self.accounts[i].id == self.accounts[j].id {
                    assert(self@.accounts[i as int].id == self@.accounts[j as int].id);
                    return false;
                }
                j += 1;
            }
            i += 1;
        }
        let mut i: usize = 0;
        while i < self.accounts.len()
            invariant
                i <= self.accounts.len(),
                ids_distinct(self@.accounts),
                forall|a: int, b: int|
                    0 <= a < b < self.accounts.len() && a < i ==> (
                    #[trigger] self@.accounts[a]).email != (#[trigger] self@.accounts[b]).email,
            decreases self.accounts.len() - i,
        {
            let mut j: usize = i + 1;
            while j < self.accounts.len()
                invariant
                    i < j <= self.accounts.len(),
                    forall|b: int| i < b < j ==> self@.accounts[i as int].email != (
                    #[trigger] self@.accounts[b]).email,
                decreases self.accounts.len() - j,
            {
                if self.accounts[i].email == self.accounts[j].email {
                    assert(self@.accounts[i as int].email == self@.accounts[j as int].email);
                    return false;
                }
                j += 1;
            }
            i += 1;
        }
        let mut i: usize = 0;
        while i < self.groups.len()
            invariant
                i <= self.groups.len(),
                ids_distinct(self@.accounts),
                emails_distinct(self@.accounts),
                forall|a: int, b: int|
                    0 <= a < b < self.groups.len() && a < i ==> #[trigger] self@.groups[a]
                        != #[trigger] self@.groups[b],
            decreases self.groups.len() - i,
        {
            let mut j: usize = i + 1;
            while j < self.groups.len()
                invariant
                    i < j <= self.groups.len(),
                    forall|b: int| i < b < j ==> self@.groups[i as int] != #[trigger] self@.groups[b],
                decreases self.groups.len() - j,
            {
                if self.groups[i] == self.groups[j] {
                    assert(self@.groups[i as int] == self@.groups[j as int]);
                    return false;
                }
                j += 1;
            }
            i += 1;
        }
        let mut i: usize = 0;
        while i < self.tags.len()
            invariant
                i <= self.tags.len(),
                ids_distinct(self@.accounts),
                emails_distinct(self@.accounts),
                self@.groups.no_duplicates(),
                forall|a: int, b: int|
                    0 <= a < b < self.tags.len() && a < i ==> (#[trigger] self@.tags[a]).name != (
                    #[trigger] self@.tags[b]).name,
            decreases self.tags.len() - i,
        {
            let mut j: usize = i + 1;
            while j < self.tags.len()
                invariant
                    i < j <= self.tags.len(),
                    forall|b: int| i < b < j ==> self@.tags[i as int].name != (
                    #[trigger] self@.tags[b]).name,
                decreases self.tags.len() - j,
            {
                if self.tags[i].name == self.tags[j].name {
                    assert(self@.tags[i as int].name == self@.tags[j as int].name);
                    return false;
                }
                j += 1;
            }
            i += 1;
        }
        true
    }
}

} // verus!
