//! Operations of the store on many accounts at once. An id that cannot
//! be read or that no account carries fails alone: the batch goes on.

use crate::account::{Account, AccountModel, GlobalTag, TagModel, TagWithColor};
use crate::config::{emails_distinct, ids_distinct, ConfigModel};
use crate::ident::{parse_uuid, parsed_uuid};
use crate::seqs::position;
use crate::store::{ids_of, find_account, known, place, DataStore, Persist};
use crate::tags::{find_color, find_tag, remove_color, tag_names, tag_removed};
use crate::text::{list_contains, remove_text};
use vstd::prelude::*;

verus! {

/// The account after it has taken a tag. An account that carries the
/// name stays as it is. Else the name joins its tags, and where a tag of
/// the store carries the name and the account has no colour under it,
/// the colour of the first such tag joins its colours.
pub open spec fn tag_added(a: AccountModel, global: Seq<TagModel>, name: Seq<char>)
    -> AccountModel {
    if a.tags.contains(name) {
        a
    } else {
        AccountModel {
            tags: a.tags.push(name),
            tag_colors: if tag_names(global).contains(name) && !tag_names(a.tag_colors).contains(
                name,
            ) {
                a.tag_colors.push(
                    TagModel { name, color: global[position(tag_names(global), name)].color },
                )
            } else {
                a.tag_colors
            },
            ..a
        }
    }
}

/// The account after it has taken a list of tags, one after the other.
pub open spec fn tags_added(a: AccountModel, global: Seq<TagModel>, names: Seq<Seq<char>>)
    -> AccountModel
    decreases names.len(),
{
    if names.len() == 0 {
        a
    } else {
        tag_added(tags_added(a, global, names.drop_last()), global, names.last())
    }
}

/// The account after it has lost a list of tags, one after the other.
pub open spec fn tags_removed(a: AccountModel, names: Seq<Seq<char>>) -> AccountModel
    decreases names.len(),
{
    if names.len() == 0 {
        a
    } else {
        tag_removed(tags_removed(a, names.drop_last()), names.last())
    }
}

/// The account after a change of tags: first the additions, then the
/// removals.
pub open spec fn retagged(
    a: AccountModel,
    global: Seq<TagModel>,
    add: Seq<Seq<char>>,
    remove: Seq<Seq<char>>,
) -> AccountModel {
    tags_removed(tags_added(a, global, add), remove)
}

/// What a batch leaves: the accounts, and how many ids it could and
/// could not serve.
pub struct BatchModel {
    pub accounts: Seq<AccountModel>,
    pub succeeded: nat,
    pub failed: nat,
}

/// The result of a change of tags on the accounts that a list of id
/// texts names, taken one after the other. A text that is no id, or the
/// id of no account, counts as failed and changes nothing.
pub open spec fn batch_retagged(
    accounts: Seq<AccountModel>,
    global: Seq<TagModel>,
    ids: Seq<Seq<char>>,
    add: Seq<Seq<char>>,
    remove: Seq<Seq<char>>,
) -> BatchModel
    decreases ids.len(),
{
    if ids.len() == 0 {
        BatchModel { accounts, succeeded: 0, failed: 0 }
    } else {
        let before = batch_retagged(accounts, global, ids.drop_last(), add, remove);
        let id = parsed_uuid(ids.last());
        if id is Some && known(before.accounts, id.unwrap()) {
            let i = place(before.accounts, id.unwrap());
            BatchModel {
                accounts: before.accounts.update(
                    i,
                    retagged(before.accounts[i], global, add, remove),
                ),
                succeeded: before.succeeded + 1,
                failed: before.failed,
            }
        } else {
            BatchModel { failed: before.failed + 1, ..before }
        }
    }
}

/// The accounts after each account that a list of id texts names got the
/// place of its id in the list as its sort position. Texts that are no
/// id, and ids of no account, are passed over.
pub open spec fn reordered(accounts: Seq<AccountModel>, ids: Seq<Seq<char>>) -> Seq<AccountModel>
    decreases ids.len(),
{
    if ids.len() == 0 {
        accounts
    } else {
        let before = reordered(accounts, ids.drop_last());
        let id = parsed_uuid(ids.last());
        if id is Some && known(before, id.unwrap()) {
            let i = place(before, id.unwrap());
            before.update(
                i,
                AccountModel { sort_order: (ids.len() - 1) as i32, ..before[i] },
            )
        } else {
            before
        }
    }
}

/// Gives an account a tag.
pub fn add_tag_to(account: &mut Account, global: &Vec<GlobalTag>, name: &String)
    ensures
        final(account)@ == tag_added(old(account)@, global.deep_view(), name@),
{
    let ghost before = account@;
    if !list_contains(&account.tags, name) {
        account.tags.push(name.clone());
        assert(account@.tags =~= before.tags.push(name@));
        match find_tag(global, name) {
            Some(g) => {
                if find_color(&account.tag_colors, name).is_none() {
                    account.tag_colors.push(
                        TagWithColor { name: name.clone(), color: global[g].color.clone() },
                    );
                    assert(account@.tag_colors =~= before.tag_colors.push(
                        TagModel { name: name@, color: global.deep_view()[g as int].color },
                    ));
                }
            },
            None => {},
        }
    }
}

/// Changes the tags of an account: first the additions, then the
/// removals.
pub fn retag(
    account: &mut Account,
    global: &Vec<GlobalTag>,
    add: &Vec<String>,
    remove: &Vec<String>,
)
    ensures
        final(account)@ == retagged(
            old(account)@,
            global.deep_view(),
            add.deep_view(),
            remove.deep_view(),
        ),
        final(account)@.id == old(account)@.id,
        final(account)@.email == old(account)@.email,
{
    let ghost before = account@;
    let mut i: usize = 0;
    while i < add.len()
        invariant
            i <= add.len(),
            account@ == tags_added(before, global.deep_view(), add.deep_view().take(i as int)),
            account@.id == before.id,
            account@.email == before.email,
        decreases add.len() - i,
    {
        proof {
            let upto = add.deep_view().take(i + 1);
            assert(upto.drop_last() =~= add.deep_view().take(i as int));
            assert(upto.last() == add@[i as int]@);
        }
        add_tag_to(account, global, &add[i]);
        i += 1;
    }
    assert(add.deep_view().take(i as int) =~= add.deep_view());
    let ghost added = account@;
    let mut k: usize = 0;
    while k < remove.len()
        invariant
            k <= remove.len(),
            account@ == tags_removed(added, remove.deep_view().take(k as int)),
            account@.id == before.id,
            account@.email == before.email,
        decreases remove.len() - k,
    {
        proof {
            let upto = remove.deep_view().take(k + 1);
            assert(upto.drop_last() =~= remove.deep_view().take(k as int));
            assert(upto.last() == remove@[k as int]@);
        }
        remove_text(&mut account.tags, &remove[k]);
        remove_color(&mut account.tag_colors, &remove[k]);
        k += 1;
    }
    assert(remove.deep_view().take(k as int) =~= remove.deep_view());
}

impl DataStore {
    /// Changes the tags of the accounts that a list of id texts names,
    /// one id after the other, and asks for the aggregate to be written.
    /// Returns how many ids were served and how many were not: a text
    /// that is no id, or the id of no account, is counted and passed
    /// over.
    pub fn batch_update_account_tags(
        &mut self,
        account_ids: Vec<String>,
        add_tags: Vec<String>,
        remove_tags: Vec<String>,
    ) -> (r: (usize, usize))
        ensures
            ({
                let batch = batch_retagged(
                    old(self)@.config.accounts,
                    old(self)@.config.tags,
                    account_ids.deep_view(),
                    add_tags.deep_view(),
                    remove_tags.deep_view(),
                );
                &&& final(self)@.config == (ConfigModel {
                    accounts: batch.accounts,
                    ..old(self)@.config
                })
                &&& r.0 == batch.succeeded
                &&& r.1 == batch.failed
            }),
            r.0 + r.1 == account_ids.len(),
            final(self)@.logs == old(self)@.logs,
            old(self)@.config.wf() ==> final(self)@.config.wf(),
    {
        let ghost before = self@.config;
        let ghost ids = account_ids.deep_view();
        let mut success_count: usize = 0;
        let mut failed_count: usize = 0;
        let mut k: usize = 0;
        while k < account_ids.len()
            invariant
                k <= account_ids.len(),
                ids == account_ids.deep_view(),
                success_count + failed_count == k,
                self@.config == (ConfigModel { accounts: self@.config.accounts, ..before }),
                self@.logs == old(self)@.logs,
                self@.config.accounts == batch_retagged(
                    before.accounts,
                    before.tags,
                    ids.take(k as int),
                    add_tags.deep_view(),
                    remove_tags.deep_view(),
                ).accounts,
                success_count == batch_retagged(
                    before.accounts,
                    before.tags,
                    ids.take(k as int),
                    add_tags.deep_view(),
                    remove_tags.deep_view(),
                ).succeeded,
                failed_count == batch_retagged(
                    before.accounts,
                    before.tags,
                    ids.take(k as int),
                    add_tags.deep_view(),
                    remove_tags.deep_view(),
                ).failed,
                ids_of(self@.config.accounts) == ids_of(before.accounts),
                same_emails(before.accounts, self@.config.accounts),
            decreases account_ids.len() - k,
        {
            proof {
                let upto = ids.take(k + 1);
                assert(upto.drop_last() =~= ids.take(k as int));
                assert(upto.last() == account_ids@[k as int]@);
            }
            let ghost current = self@.config.accounts;
            let found = match parse_uuid(account_ids[k].as_str()) {
                Some(id) => find_account(&self.config.accounts, id),
                None => None,
            };
            match found {
                Some(i) => {
                    let mut account = self.config.accounts[i].clone();
                    retag(&mut account, &self.config.tags, &add_tags, &remove_tags);
                    let ghost stored = account@;
                    self.config.accounts.set(i, account);
                    proof {
                        assert(self@.config.accounts =~= current.update(i as int, stored));
                        assert(ids_of(self@.config.accounts) =~= ids_of(current));
                    }
                    success_count += 1;
                },
                None => {
                    failed_count += 1;
                },
            }
            k += 1;
        }
        proof {
            assert(ids.take(k as int) =~= ids);
            lemma_same_ids_distinct(before.accounts, self@.config.accounts);
        }
        (success_count, failed_count)
    }

    /// Gives each account that a list of id texts names the place of its
    /// id in the list as its sort position, and asks for the aggregate to
    /// be written. Texts that are no id, and ids of no account, are
    /// passed over.
    pub fn update_accounts_order(&mut self, account_ids: Vec<String>) -> (r: Persist)
        requires
            account_ids.len() <= i32::MAX,
        ensures
            final(self)@.config == (ConfigModel {
                accounts: reordered(old(self)@.config.accounts, account_ids.deep_view()),
                ..old(self)@.config
            }),
            final(self)@.logs == old(self)@.logs,
            r == Persist::Config,
            old(self)@.config.wf() ==> final(self)@.config.wf(),
    {
        let ghost before = self@.config;
        let ghost ids = account_ids.deep_view();
        let mut k: usize = 0;
        while k < account_ids.len()
            invariant
                k <= account_ids.len() <= i32::MAX,
                ids == account_ids.deep_view(),
                self@.config == (ConfigModel { accounts: self@.config.accounts, ..before }),
                self@.logs == old(self)@.logs,
                self@.config.accounts == reordered(before.accounts, ids.take(k as int)),
                ids_of(self@.config.accounts) == ids_of(before.accounts),
                same_emails(before.accounts, self@.config.accounts),
            decreases account_ids.len() - k,
        {
            proof {
                let upto = ids.take(k + 1);
                assert(upto.drop_last() =~= ids.take(k as int));
                assert(upto.last() == account_ids@[k as int]@);
            }
            let ghost current = self@.config.accounts;
            let found = match parse_uuid(account_ids[k].as_str()) {
                Some(id) => find_account(&self.config.accounts, id),
                None => None,
            };
            match found {
                Some(i) => {
                    let mut account = self.config.accounts[i].clone();
                    account.sort_order = k as i32;
                    let ghost stored = account@;
                    self.config.accounts.set(i, account);
                    proof {
                        assert(self@.config.accounts =~= current.update(i as int, stored));
                        assert(ids_of(self@.config.accounts) =~= ids_of(current));
                    }
                },
                None => {},
            }
            k += 1;
        }
        proof {
            assert(ids.take(k as int) =~= ids);
            lemma_same_ids_distinct(before.accounts, self@.config.accounts);
        }
        Persist::Config
    }
}

/// Two lists of accounts hold the same emails at the same places.
pub open spec fn same_emails(before: Seq<AccountModel>, after: Seq<AccountModel>) -> bool {
    &&& after.len() == before.len()
    &&& forall|j: int| 0 <= j < before.len() ==> (#[trigger] after[j]).email == before[j].email
}

/// Lists of accounts with the same ids and emails at the same places
/// have them distinct together.
pub proof fn lemma_same_ids_distinct(before: Seq<AccountModel>, after: Seq<AccountModel>)
    requires
        ids_of(after) == ids_of(before),
    ensures
        ids_distinct(before) ==> ids_distinct(after),
        same_emails(before, after) && emails_distinct(before) ==> emails_distinct(after),
{
    assert(after.len() == ids_of(after).len());
    assert(before.len() == ids_of(before).len());
    assert forall|i: int, j: int| 0 <= i < j < after.len() && ids_distinct(before) implies (
    #[trigger] after[i]).id != (#[trigger] after[j]).id by {
        assert(ids_of(after)[i] == after[i].id);
        assert(ids_of(after)[j] == after[j].id);
        assert(ids_of(before)[i] == before[i].id);
        assert(ids_of(before)[j] == before[j].id);
    }
}

} // verus!
