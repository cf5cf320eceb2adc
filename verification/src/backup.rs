//! Snapshots of the store, and the interchange of its data with another
//! installation.

use crate::account::{clone_accounts, Account, AccountModel};
use crate::clock::{local_rfc3339, local_stamp, Timestamp};
use crate::config::{emails_distinct, ids_distinct, AppConfig, ConfigModel, Settings};
use crate::error::StoreError;
use crate::order::{places, stable_order, stable_sort_order};
use crate::seqs::{lemma_filter_empty, lemma_filter_step};
use crate::store::{email_taken, has_email, with_group, DataStore, Persist};
use crate::text::{ends_with, list_contains, starts_with};
use vstd::prelude::*;

verus! {

/// The number of snapshots that are kept.
pub const BACKUPS_KEPT: usize = 10;

/// What an import did.
#[derive(Clone, Copy, Debug, PartialEq, Eq, Structural)]
pub struct ImportResult {
    pub accounts_added: usize,
    pub accounts_skipped: usize,
    pub groups_added: usize,
}

impl Default for ImportResult {
    fn default() -> (r: Self)
        ensures
            r == (ImportResult { accounts_added: 0, accounts_skipped: 0, groups_added: 0 }),
    {
        ImportResult { accounts_added: 0, accounts_skipped: 0, groups_added: 0 }
    }
}

/// A snapshot as it is reported: its file name and path, its size in
/// bytes, and the second at which it was last written.
#[derive(Debug, PartialEq, Eq)]
pub struct BackupInfo {
    pub name: String,
    pub path: String,
    pub size: u64,
    pub created_at: Option<i64>,
}

/// The model of a `BackupInfo`.
pub struct BackupInfoModel {
    pub name: Seq<char>,
    pub path: Seq<char>,
    pub size: u64,
    pub created_at: Option<i64>,
}

impl View for BackupInfo {
    type V = BackupInfoModel;

    open spec fn view(&self) -> BackupInfoModel {
        BackupInfoModel {
            name: self.name@,
            path: self.path@,
            size: self.size,
            created_at: self.created_at,
        }
    }
}

impl DeepView for BackupInfo {
    type V = BackupInfoModel;

    open spec fn deep_view(&self) -> BackupInfoModel {
        self@
    }
}

/// A file of the snapshot directory as it was found: its name and path,
/// its size in bytes, and the time at which it was last written, where
/// the file system told it.
#[derive(Debug, PartialEq, Eq)]
pub struct BackupEntry {
    pub name: String,
    pub path: String,
    pub size: u64,
    pub modified: Option<Timestamp>,
}

/// The model of a `BackupEntry`.
pub struct BackupEntryModel {
    pub name: Seq<char>,
    pub path: Seq<char>,
    pub size: u64,
    pub modified: Option<Timestamp>,
}

impl View for BackupEntry {
    type V = BackupEntryModel;

    open spec fn view(&self) -> BackupEntryModel {
        BackupEntryModel {
            name: self.name@,
            path: self.path@,
            size: self.size,
            modified: self.modified,
        }
    }
}

impl DeepView for BackupEntry {
    type V = BackupEntryModel;

    open spec fn deep_view(&self) -> BackupEntryModel {
        self@
    }
}

/// What is handed to another installation.
#[derive(Debug, PartialEq, Eq)]
pub struct ExportData {
    pub version: String,
    pub exported_at: String,
    pub accounts: Vec<Account>,
    pub groups: Vec<String>,
    pub settings: Settings,
}

/// What was read from the file of another installation: the accounts and
/// the groups, each where the file holds it.
#[derive(Debug, PartialEq, Eq)]
pub struct ImportData {
    pub accounts: Option<Vec<Account>>,
    pub groups: Option<Vec<String>>,
}

/// The model of `ImportData`.
pub struct ImportModel {
    pub accounts: Option<Seq<AccountModel>>,
    pub groups: Option<Seq<Seq<char>>>,
}

impl View for ImportData {
    type V = ImportModel;

    open spec fn view(&self) -> ImportModel {
        ImportModel { accounts: self.accounts.deep_view(), groups: self.groups.deep_view() }
    }
}

/// The name of a snapshot begins with `accounts_` and ends with `.json`.
pub open spec fn is_backup_name(name: Seq<char>) -> bool {
    "accounts_"@.is_prefix_of(name) && ".json"@.is_suffix_of(name)
}

/// The name of the snapshot that carries a time stamp.
pub open spec fn backup_name(stamp: Seq<char>) -> Seq<char> {
    "accounts_"@ + stamp + ".json"@
}

/// The accounts after a merge: each imported account, in its turn, joins
/// where no account carries its email yet, letter for letter.
pub open spec fn merged_accounts(current: Seq<AccountModel>, imported: Seq<AccountModel>) -> Seq<
    AccountModel,
>
    decreases imported.len(),
{
    if imported.len() == 0 {
        current
    } else {
        let before = merged_accounts(current, imported.drop_last());
        if email_taken(before, imported.last().email) {
            before
        } else {
            before.push(imported.last())
        }
    }
}

/// The groups after an import: each imported group, in its turn, joins
/// where it is not there yet.
pub open spec fn merged_groups(current: Seq<Seq<char>>, imported: Seq<Seq<char>>) -> Seq<
    Seq<char>,
>
    decreases imported.len(),
{
    if imported.len() == 0 {
        current
    } else {
        with_group(merged_groups(current, imported.drop_last()), imported.last())
    }
}

/// The accounts after an import: absent from the file, they stay; in
/// merge mode the imported ones are merged in; else they take the place
/// of the old ones.
pub open spec fn imported_accounts(
    current: Seq<AccountModel>,
    imported: Option<Seq<AccountModel>>,
    merge: bool,
) -> Seq<AccountModel> {
    match imported {
        Some(list) => if merge {
            merged_accounts(current, list)
        } else {
            list
        },
        None => current,
    }
}

/// The groups after an import.
pub open spec fn imported_groups(current: Seq<Seq<char>>, imported: Option<Seq<Seq<char>>>) -> Seq<
    Seq<char>,
> {
    match imported {
        Some(list) => merged_groups(current, list),
        None => current,
    }
}

/// The aggregate after an import.
pub open spec fn with_import(c: ConfigModel, data: ImportModel, merge: bool) -> ConfigModel {
    ConfigModel {
        accounts: imported_accounts(c.accounts, data.accounts, merge),
        groups: imported_groups(c.groups, data.groups),
        ..c
    }
}

/// The report on an import. In merge mode the accounts that joined are
/// counted as added and the others as skipped; else every imported
/// account counts as added.
pub open spec fn import_report(c: ConfigModel, data: ImportModel, merge: bool) -> (int, int, int) {
    let added = match data.accounts {
        Some(list) => if merge {
            merged_accounts(c.accounts, list).len() - c.accounts.len()
        } else {
            list.len() as int
        },
        None => 0,
    };
    let skipped = match data.accounts {
        Some(list) => if merge {
            list.len() - added
        } else {
            0
        },
        None => 0,
    };
    (added, skipped, imported_groups(c.groups, data.groups).len() - c.groups.len())
}

/// A merge adds at most the imported accounts and loses none.
proof fn lemma_merged_len(current: Seq<AccountModel>, imported: Seq<AccountModel>)
    ensures
        current.len() <= merged_accounts(current, imported).len() <= current.len()
            + imported.len(),
        emails_distinct(current) ==> emails_distinct(merged_accounts(current, imported)),
    decreases imported.len(),
{
    if imported.len() > 0 {
        lemma_merged_len(current, imported.drop_last());
    }
}

/// An import adds at most the imported groups, loses none, and keeps a
/// list of groups free of repetitions.
proof fn lemma_merged_groups(current: Seq<Seq<char>>, imported: Seq<Seq<char>>)
    ensures
        current.len() <= merged_groups(current, imported).len() <= current.len() + imported.len(),
        current.no_duplicates() ==> merged_groups(current, imported).no_duplicates(),
    decreases imported.len(),
{
    if imported.len() > 0 {
        lemma_merged_groups(current, imported.drop_last());
    }
}

/// Tells whether a file name is the name of a snapshot.
pub fn has_backup_name(name: &str) -> (r: bool)
    ensures
        r == is_backup_name(name@),
{
    starts_with(name, "accounts_") && ends_with(name, ".json")
}

/// The name of the snapshot that carries a time stamp.
pub fn backup_file_name(stamp: &str) -> (r: String)
    ensures
        r@ == backup_name(stamp@),
{
    let mut name = "accounts_".to_string();
    name.append(stamp);
    name.append(".json");
    name
}

/// The key under which a time that may be missing sorts from the newest
/// to the oldest, a missing one last.
pub open spec fn newest_first_key(at: Option<Timestamp>) -> Seq<i64> {
    match at {
        Some(at) => seq![0i64, (-1 - at.secs) as i64, (-(at.nanos as int)) as i64],
        None => seq![1i64],
    }
}

/// The key under which a second that may be missing sorts from the
/// newest to the oldest, a missing one last.
pub open spec fn latest_first_key(at: Option<i64>) -> Seq<i64> {
    match at {
        Some(secs) => seq![0i64, (-1 - secs) as i64],
        None => seq![1i64],
    }
}

/// The files of a directory that carry the name of a snapshot, in their
/// order.
pub open spec fn snapshots(entries: Seq<BackupEntryModel>) -> Seq<BackupEntryModel> {
    entries.filter(|e: BackupEntryModel| is_backup_name(e.name))
}

/// The snapshots from the newest to the oldest by the time they were
/// written; those written at the same time keep their order.
pub open spec fn newest_first(entries: Seq<BackupEntryModel>) -> Seq<BackupEntryModel> {
    let found = snapshots(entries);
    let order = stable_order(
        found.map_values(|e: BackupEntryModel| newest_first_key(e.modified)),
        found.len(),
        false,
    );
    Seq::new(found.len(), |i: int| found[order[i]])
}

/// The paths of the snapshots that have to go so that the `keep` newest
/// stay.
pub open spec fn outdated(entries: Seq<BackupEntryModel>, keep: usize) -> Seq<Seq<char>> {
    let sorted = newest_first(entries);
    if keep < sorted.len() {
        sorted.skip(keep as int).map_values(|e: BackupEntryModel| e.path)
    } else {
        Seq::empty()
    }
}

/// A snapshot as it is reported.
pub open spec fn reported(e: BackupEntryModel) -> BackupInfoModel {
    BackupInfoModel {
        name: e.name,
        path: e.path,
        size: e.size,
        created_at: match e.modified {
            Some(at) => Some(at.secs),
            None => None,
        },
    }
}

/// The reports on the snapshots of a directory, from the latest second
/// of writing to the earliest; snapshots of the same second keep their
/// order.
pub open spec fn listed(entries: Seq<BackupEntryModel>) -> Seq<BackupInfoModel> {
    let found = snapshots(entries).map_values(|e: BackupEntryModel| reported(e));
    let order = stable_order(
        found.map_values(|b: BackupInfoModel| latest_first_key(b.created_at)),
        found.len(),
        false,
    );
    Seq::new(found.len(), |i: int| found[order[i]])
}

/// Copies the entries that carry the name of a snapshot.
fn select_snapshots(entries: &Vec<BackupEntry>) -> (r: Vec<BackupEntry>)
    ensures
        r.deep_view() == snapshots(entries.deep_view()),
{
    let ghost all = entries.deep_view();
    let ghost keep = |e: BackupEntryModel| is_backup_name(e.name);
    let mut found: Vec<BackupEntry> = Vec::new();
    let mut i: usize = 0;
    proof {
        lemma_filter_empty(all.take(0), keep);
    }
    while i < entries.len()
        invariant
            i <= entries.len(),
            all == entries.deep_view(),
            keep == |e: BackupEntryModel| is_backup_name(e.name),
            found.deep_view() == all.take(i as int).filter(keep),
        decreases entries.len() - i,
    {
        proof {
            lemma_filter_step(all, i as int, keep);
            assert(all[i as int] == entries@[i as int]@);
        }
        if has_backup_name(entries[i].name.as_str()) {
            let ghost shorter = found.deep_view();
            found.push(
                BackupEntry {
                    name: entries[i].name.clone(),
                    path: entries[i].path.clone(),
                    size: entries[i].size,
                    modified: entries[i].modified,
                },
            );
            assert(found.deep_view() =~= shorter.push(all[i as int]));
        }
        i += 1;
    }
    assert(all.take(i as int) =~= all);
    found
}

/// Computes the key of a time of writing.
fn key_newest_first(at: Option<Timestamp>) -> (r: Vec<i64>)
    ensures
        r@ == newest_first_key(at),
{
    let mut key: Vec<i64> = Vec::new();
    match at {
        Some(at) => {
            key.push(0);
            key.push(-1 - at.secs);
            key.push(0 - (at.nanos as i64));
        },
        None => {
            key.push(1);
        },
    }
    assert(key@ =~= newest_first_key(at));
    key
}

/// Computes the key of a second of writing.
fn key_latest_first(at: Option<i64>) -> (r: Vec<i64>)
    ensures
        r@ == latest_first_key(at),
{
    let mut key: Vec<i64> = Vec::new();
    match at {
        Some(secs) => {
            key.push(0);
            key.push(-1 - secs);
        },
        None => {
            key.push(1);
        },
    }
    assert(key@ =~= latest_first_key(at));
    key
}

/// Names the snapshots to delete so that the `keep_count` newest stay:
/// their paths, from the newest of them to the oldest. Files that do not
/// carry the name of a snapshot are not named.
pub fn cleanup_old_backups(entries: &Vec<BackupEntry>, keep_count: usize) -> (r: Vec<String>)
    ensures
        r.deep_view() == outdated(entries.deep_view(), keep_count),
{
    let found = select_snapshots(entries);
    let n: usize = found.len();
    let ghost models = found.deep_view();
    let mut keys: Vec<Vec<i64>> = Vec::new();
    let mut i: usize = 0;
    while i < n
        invariant
            i <= n,
            n == found.len(),
            models == found.deep_view(),
            keys.len() == i,
            forall|j: int|
                0 <= j < i ==> (#[trigger] keys@[j])@ == newest_first_key(models[j].modified),
        decreases n - i,
    {
        keys.push(key_newest_first(found[i].modified));
        i += 1;
    }
    let ghost wanted = models.map_values(|e: BackupEntryModel| newest_first_key(e.modified));
    assert forall|j: int| 0 <= j < n implies #[trigger] keys.deep_view()[j] == wanted[j] by {
        assert(keys.deep_view()[j] =~= keys@[j]@);
    }
    assert(keys.deep_view() =~= wanted);
    let order = stable_sort_order(&keys, false);
    let ghost sorted = newest_first(entries.deep_view());
    let mut paths: Vec<String> = Vec::new();
    let mut k: usize = keep_count;
    while k < n
        invariant
            keep_count <= k,
            k == keep_count || k <= n,
            n == found.len(),
            n == order.len(),
            models == found.deep_view(),
            models == snapshots(entries.deep_view()),
            places(order@) == stable_order(wanted, n as nat, false),
            wanted == models.map_values(|e: BackupEntryModel| newest_first_key(e.modified)),
            sorted == newest_first(entries.deep_view()),
            forall|a: int| 0 <= a < order.len() ==> #[trigger] order@[a] < n,
            paths.len() == k - keep_count,
            forall|j: int|
                0 <= j < paths.len() ==> #[trigger] paths.deep_view()[j] == sorted[keep_count
                    + j].path,
        decreases n - k,
    {
        let from: usize = order[k];
        proof {
            assert(places(order@)[k as int] == from as int);
            assert(sorted[k as int] == models[from as int]);
        }
        let ghost shorter = paths.deep_view();
        paths.push(found[from].path.clone());
        assert(paths.deep_view() =~= shorter.push(models[from as int].path));
        k += 1;
    }
    proof {
        if keep_count < n {
            assert(paths.deep_view() =~= sorted.skip(keep_count as int).map_values(
                |e: BackupEntryModel| e.path,
            ));
        } else {
            assert(paths.deep_view() =~= Seq::empty());
        }
    }
    paths
}

impl DataStore {
    /// The name of the snapshot to write now: `accounts_`, the local time
    /// as year, month, day, an underscore, hour, minute and second, which
    /// are fifteen characters or more, and `.json`. After it is written,
    /// `cleanup_old_backups` says which snapshots go.
    pub fn create_timestamped_backup(&self) -> (r: String)
        ensures
            is_backup_name(r@),
            exists|stamp: Seq<char>| stamp.len() >= 15 && r@ == #[trigger] backup_name(stamp),
    {
        let stamp = local_stamp();
        let name = backup_file_name(stamp.as_str());
        proof {
            assert("accounts_"@.is_prefix_of(name@)) by {
                assert(name@.subrange(0, "accounts_"@.len() as int) =~= "accounts_"@);
            }
            assert(".json"@.is_suffix_of(name@)) by {
                assert(name@.subrange(name@.len() - ".json"@.len(), name@.len() as int)
                    =~= ".json"@);
            }
        }
        name
    }

    /// What is handed to another installation: the accounts, the groups
    /// and the settings, under the version `1.0` and the local time.
    pub fn export_data(&self) -> (r: ExportData)
        ensures
            r.version@ == "1.0"@,
            r.accounts.deep_view() == self@.config.accounts,
            r.groups.deep_view() == self@.config.groups,
            r.settings@ == self@.config.settings,
    {
        let groups = self.config.groups.clone();
        assert(groups.deep_view() =~= self.config.groups.deep_view());
        ExportData {
            version: "1.0".to_string(),
            exported_at: local_rfc3339(),
            accounts: clone_accounts(&self.config.accounts),
            groups,
            settings: self.config.settings.clone(),
        }
    }

    /// Takes in the data of another installation and asks for the
    /// aggregate to be written. Fails with `Validation` where the file
    /// could not be taken apart (`data` is `None`), else with `Io` where
    /// the snapshot of the present state could not be written before; a
    /// failure changes nothing. In merge mode an imported account joins
    /// where no account carries its email and is skipped where one does;
    /// else the imported accounts replace the old ones. Imported groups
    /// join where they are not there yet.
    pub fn import_data(&mut self, data: Option<ImportData>, merge: bool, snapshot_written: bool)
        -> (r: Result<ImportResult, StoreError>)
        ensures
            match r {
                Ok(report) => {
                    &&& data is Some
                    &&& snapshot_written
                    &&& final(self)@.config == with_import(
                        old(self)@.config,
                        data.unwrap()@,
                        merge,
                    )
                    &&& final(self)@.logs == old(self)@.logs
                    &&& (report.accounts_added as int, report.accounts_skipped as int,
                        report.groups_added as int) == import_report(
                        old(self)@.config,
                        data.unwrap()@,
                        merge,
                    )
                },
                Err(e) => {
                    &&& *final(self) == *old(self)
                    &&& e == if data is None {
                        StoreError::Validation
                    } else {
                        StoreError::Io
                    }
                    &&& data is None || !snapshot_written
                },
            },
            old(self)@.config.groups.no_duplicates()
                ==> final(self)@.config.groups.no_duplicates(),
            merge && emails_distinct(old(self)@.config.accounts) ==> emails_distinct(
                final(self)@.config.accounts,
            ),
            old(self)@.config.wf() && ids_distinct(final(self)@.config.accounts)
                && emails_distinct(final(self)@.config.accounts) ==> final(self)@.config.wf(),
    {
        let data = match data {
            Some(data) => data,
            None => {
                return Err(StoreError::Validation);
            },
        };
        if !snapshot_written {
            return Err(StoreError::Io);
        }
        let ghost before = self@.config;
        let mut report = ImportResult { accounts_added: 0, accounts_skipped: 0, groups_added: 0 };
        match data.accounts {
            Some(imported) => {
                if merge {
                    let ghost list = imported.deep_view();
                    let mut i: usize = 0;
                    while i < imported.len()
                        invariant
                            i <= imported.len(),
                            list == imported.deep_view(),
                            self@.config == (ConfigModel {
                                accounts: self@.config.accounts,
                                ..before
                            }),
                            self@.logs == old(self)@.logs,
                            self@.config.accounts == merged_accounts(
                                before.accounts,
                                list.take(i as int),
                            ),
                            report.groups_added == 0,
                            report.accounts_added + report.accounts_skipped == i,
                            report.accounts_added == self@.config.accounts.len()
                                - before.accounts.len(),
                        decreases imported.len() - i,
                    {
                        proof {
                            let upto = list.take(i + 1);
                            assert(upto.drop_last() =~= list.take(i as int));
                            assert(upto.last() == imported@[i as int]@);
                        }
                        if !has_email(&self.config.accounts, &imported[i].email) {
                            let ghost current = self@.config.accounts;
                            self.config.accounts.push(imported[i].clone());
                            assert(self@.config.accounts =~= current.push(list[i as int]));
                            report.accounts_added += 1;
                        } else {
                            report.accounts_skipped += 1;
                        }
                        i += 1;
                    }
                    proof {
                        assert(list.take(i as int) =~= list);
                        lemma_merged_len(before.accounts, list);
                    }
                } else {
                    report.accounts_added = imported.len();
                    self.config.accounts = imported;
                }
            },
            None => {},
        }
        let ghost accounts = self@.config.accounts;
        let ghost counted = report;
        match data.groups {
            Some(imported) => {
                let ghost list = imported.deep_view();
                let mut i: usize = 0;
                while i < imported.len()
                    invariant
                        i <= imported.len(),
                        list == imported.deep_view(),
                        self@.config == (ConfigModel {
                            accounts,
                            groups: self@.config.groups,
                            ..before
                        }),
                        self@.logs == old(self)@.logs,
                        self@.config.groups == merged_groups(before.groups, list.take(i as int)),
                        report.groups_added <= i,
                        report.groups_added == self@.config.groups.len() - before.groups.len(),
                        report.accounts_added == counted.accounts_added,
                        report.accounts_skipped == counted.accounts_skipped,
                    decreases imported.len() - i,
                {
                    proof {
                        let upto = list.take(i + 1);
                        assert(upto.drop_last() =~= list.take(i as int));
                        assert(upto.last() == imported@[i as int]@);
                    }
                    if !list_contains(&self.config.groups, &imported[i]) {
                        let ghost current = self@.config.groups;
                        self.config.groups.push(imported[i].clone());
                        assert(self@.config.groups =~= current.push(list[i as int]));
                        report.groups_added += 1;
                    }
                    i += 1;
                }
                proof {
                    assert(list.take(i as int) =~= list);
                    lemma_merged_groups(before.groups, list);
                }
            },
            None => {},
        }
        Ok(report)
    }

    /// The reports on the snapshots among the files of the snapshot
    /// directory, from the latest second of writing to the earliest.
    pub fn list_backups(&self, entries: &Vec<BackupEntry>) -> (r: Vec<BackupInfo>)
        ensures
            r.deep_view() == listed(entries.deep_view()),
    {
        let found = select_snapshots(entries);
        let n: usize = found.len();
        let ghost models = found.deep_view().map_values(|e: BackupEntryModel| reported(e));
        let mut infos: Vec<BackupInfo> = Vec::new();
        let mut keys: Vec<Vec<i64>> = Vec::new();
        let mut i: usize = 0;
        while i < n
            invariant
                i <= n,
                n == found.len(),
                models == found.deep_view().map_values(|e: BackupEntryModel| reported(e)),
                keys.len() == i,
                infos.len() == i,
                forall|j: int| 0 <= j < i ==> #[trigger] infos.deep_view()[j] == models[j],
                forall|j: int|
                    0 <= j < i ==> (#[trigger] keys@[j])@ == latest_first_key(models[j].created_at),
            decreases n - i,
        {
            let created_at = match found[i].modified {
                Some(at) => Some(at.secs),
                None => None,
            };
            let ghost shorter = infos.deep_view();
            let info = BackupInfo {
                name: found[i].name.clone(),
                path: found[i].path.clone(),
                size: found[i].size,
                created_at,
            };
            assert(info@ == reported(found.deep_view()[i as int]));
            infos.push(info);
            assert(infos.deep_view() =~= shorter.push(models[i as int]));
            keys.push(key_latest_first(created_at));
            i += 1;
        }
        assert(infos.deep_view() =~= models);
        let ghost wanted = models.map_values(|b: BackupInfoModel| latest_first_key(b.created_at));
        assert forall|j: int| 0 <= j < n implies #[trigger] keys.deep_view()[j] == wanted[j] by {
            assert(keys.deep_view()[j] =~= keys@[j]@);
        }
        assert(keys.deep_view() =~= wanted);
        let order = stable_sort_order(&keys, false);
        let ghost sorted = listed(entries.deep_view());
        let mut out: Vec<BackupInfo> = Vec::new();
        let mut k: usize = 0;
        while k < n
            invariant
                k <= n,
                n == infos.len(),
                n == order.len(),
                models == infos.deep_view(),
                models == snapshots(entries.deep_view()).map_values(
                    |e: BackupEntryModel| reported(e),
                ),
                places(order@) == stable_order(wanted, n as nat, false),
                wanted == models.map_values(|b: BackupInfoModel| latest_first_key(b.created_at)),
                sorted == listed(entries.deep_view()),
                forall|a: int| 0 <= a < order.len() ==> #[trigger] order@[a] < n,
                out.len() == k,
                forall|j: int| 0 <= j < k ==> #[trigger] out.deep_view()[j] == sorted[j],
            decreases n - k,
        {
            let from: usize = order[k];
            proof {
                assert(places(order@)[k as int] == from as int);
                assert(sorted[k as int] == models[from as int]);
            }
            let ghost shorter = out.deep_view();
            out.push(
                BackupInfo {
                    name: infos[from].name.clone(),
                    path: infos[from].path.clone(),
                    size: infos[from].size,
                    created_at: infos[from].created_at,
                },
            );
            assert(out.deep_view() =~= shorter.push(models[from as int]));
            k += 1;
        }
        assert(out.deep_view() =~= sorted);
        out
    }

    /// Puts a snapshot in the place of the present state and asks for
    /// the aggregate to be written. Fails with `Validation` where the
    /// snapshot could not be taken apart (`backup` is `None`), else with
    /// `Io` where the snapshot of the present state could not be written
    /// before; a failure changes nothing.
    pub fn restore_from_backup(&mut self, backup: Option<AppConfig>, snapshot_written: bool) -> (r:
        Result<Persist, StoreError>)
        ensures
            match r {
                Ok(persist) => {
                    &&& backup is Some
                    &&& snapshot_written
                    &&& final(self)@.config == backup.unwrap()@
                    &&& final(self)@.logs == old(self)@.logs
                    &&& persist == Persist::Config
                },
                Err(e) => {
                    &&& *final(self) == *old(self)
                    &&& e == if backup is None {
                        StoreError::Validation
                    } else {
                        StoreError::Io
                    }
                    &&& backup is None || !snapshot_written
                },
            },
    {
        match backup {
            Some(config) => {
                if !snapshot_written {
                    return Err(StoreError::Io);
                }
                self.config = config;
                Ok(Persist::Config)
            },
            None => Err(StoreError::Validation),
        }
    }
}

/// An email is taken after a merge exactly where it was taken before or
/// an imported account carries it.
pub proof fn lemma_merged_emails(
    current: Seq<AccountModel>,
    imported: Seq<AccountModel>,
    email: Seq<char>,
)
    ensures
        email_taken(merged_accounts(current, imported), email) <==> email_taken(current, email)
            || email_taken(imported, email),
    decreases imported.len(),
{
    if imported.len() > 0 {
        let rest = imported.drop_last();
        let last = imported.last();
        lemma_merged_emails(current, rest, email);
        let before = merged_accounts(current, rest);
        let after = merged_accounts(current, imported);
        if email_taken(imported, email) {
            let i = choose|i: int| 0 <= i < imported.len() && (#[trigger] imported[i]).email
                == email;
            if i < rest.len() {
                assert(rest[i].email == email);
            }
        }
        if email_taken(rest, email) {
            let i = choose|i: int| 0 <= i < rest.len() && (#[trigger] rest[i]).email == email;
            assert(imported[i].email == email);
        }
        if email_taken(before, email) {
            let i = choose|i: int| 0 <= i < before.len() && (#[trigger] before[i]).email == email;
            assert(after[i].email == email);
        }
        if email_taken(after, email) {
            let i = choose|i: int| 0 <= i < after.len() && (#[trigger] after[i]).email == email;
            if i < before.len() {
                assert(before[i].email == email);
            } else {
                assert(imported[imported.len() - 1].email == email);
            }
        }
        if last.email == email {
            assert(imported[imported.len() - 1].email == email);
            if !email_taken(before, email) {
                assert(after[after.len() - 1].email == email);
            }
        }
    }
}

/// Accounts merged into a store without accounts come out as they went
/// in, where no two of them carry the same email.
pub proof fn lemma_merge_into_empty(imported: Seq<AccountModel>)
    requires
        emails_distinct(imported),
    ensures
        merged_accounts(Seq::empty(), imported) == imported,
    decreases imported.len(),
{
    if imported.len() > 0 {
        let rest = imported.drop_last();
        lemma_merge_into_empty(rest);
        if email_taken(rest, imported.last().email) {
            let i = choose|i: int| 0 <= i < rest.len() && (#[trigger] rest[i]).email
                == imported.last().email;
            assert(imported[i].email != imported[imported.len() - 1].email);
        }
        assert(rest.push(imported.last()) =~= imported);
    } else {
        assert(imported =~= Seq::empty());
    }
}

/// A group is there after an import exactly where it was there before
/// or was imported; groups imported into a store without groups come out
/// as they went in, where none of them occurs twice.
pub proof fn lemma_merged_group_names(current: Seq<Seq<char>>, imported: Seq<Seq<char>>)
    ensures
        forall|name: Seq<char>| #[trigger]
            merged_groups(current, imported).contains(name) <==> current.contains(name)
                || imported.contains(name),
        current.len() == 0 && imported.no_duplicates() ==> merged_groups(current, imported)
            == imported,
    decreases imported.len(),
{
    if imported.len() > 0 {
        let rest = imported.drop_last();
        let last = imported.last();
        lemma_merged_group_names(current, rest);
        let before = merged_groups(current, rest);
        let after = merged_groups(current, imported);
        assert forall|name: Seq<char>| #[trigger]
            after.contains(name) <==> current.contains(name) || imported.contains(name) by {
            if imported.contains(name) {
                let i = choose|i: int| 0 <= i < imported.len() && imported[i] == name;
                if i < rest.len() {
                    assert(rest[i] == name);
                }
            }
            if rest.contains(name) {
                let i = choose|i: int| 0 <= i < rest.len() && rest[i] == name;
                assert(imported[i] == name);
            }
            if before.contains(name) {
                let i = choose|i: int| 0 <= i < before.len() && before[i] == name;
                assert(after[i] == name);
            }
            if after.contains(name) {
                let i = choose|i: int| 0 <= i < after.len() && after[i] == name;
                if i < before.len() {
                    assert(before[i] == name);
                } else {
                    assert(imported[imported.len() - 1] == name);
                }
            }
            if last == name {
                assert(imported[imported.len() - 1] == name);
                if !before.contains(name) {
                    assert(after[after.len() - 1] == name);
                }
            }
        }
        if current.len() == 0 && imported.no_duplicates() {
            if rest.contains(last) {
                let i = choose|i: int| 0 <= i < rest.len() && rest[i] == last;
                assert(imported[i] == imported[imported.len() - 1]);
            }
            assert(rest.push(last) =~= imported);
        }
    } else {
        assert(current.len() == 0 ==> current =~= imported);
    }
}

/// What one store exports, a store without content takes in by a merge:
/// it then holds an account under each email that the first holds and
/// under no other, and the groups of the first and no others. Where no
/// two accounts of the first carry the same email and none of its groups
/// occurs twice, the second holds the accounts and the groups of the
/// first as they stand there.
pub proof fn lemma_export_import_round_trip(source: ConfigModel)
    ensures
        ({
            let data = ImportModel { accounts: Some(source.accounts), groups: Some(source.groups) };
            let copy = with_import(ConfigModel::empty(), data, true);
            &&& forall|email: Seq<char>| #[trigger]
                email_taken(copy.accounts, email) <==> email_taken(source.accounts, email)
            &&& forall|name: Seq<char>| #[trigger]
                copy.groups.contains(name) <==> source.groups.contains(name)
            &&& emails_distinct(source.accounts) ==> copy.accounts == source.accounts
            &&& source.groups.no_duplicates() ==> copy.groups == source.groups
        }),
{
    let none = Seq::<AccountModel>::empty();
    assert forall|email: Seq<char>| #[trigger]
        email_taken(merged_accounts(none, source.accounts), email) <==> email_taken(
            source.accounts,
            email,
        ) by {
        lemma_merged_emails(none, source.accounts, email);
    }
    if emails_distinct(source.accounts) {
        lemma_merge_into_empty(source.accounts);
    }
    lemma_merged_group_names(Seq::empty(), source.groups);
}

} // verus!
