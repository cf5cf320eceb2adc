//! Operations of the store on tags: the tags that every account can
//! carry, and what a change of one means for the accounts that carry it.

use crate::account::{Account, AccountModel, GlobalTag, TagModel, TagWithColor};
use crate::config::{names_distinct, ConfigModel};
use crate::error::StoreError;
use crate::seqs::{lemma_filter_empty, lemma_filter_step, lemma_position_is, position};
use crate::store::{DataStore, Persist};
use crate::text::{find_text, remove_text, without};
use vstd::prelude::*;

verus! {

/// The names of a list of tags, in its order.
pub open spec fn tag_names(tags: Seq<TagModel>) -> Seq<Seq<char>> {
    tags.map_values(|t: TagModel| t.name)
}

/// The tags that do not carry a name, in their order.
pub open spec fn without_tag(tags: Seq<TagModel>, name: Seq<char>) -> Seq<TagModel> {
    tags.filter(|t: TagModel| t.name != name)
}

/// The account once a tag has a new name and colour. Where the account
/// carries the old name, its first occurrence becomes the new name;
/// where it has a colour of its own under the old name, the first such
/// entry takes the new name and the new colour.
pub open spec fn tag_renamed(a: AccountModel, old_name: Seq<char>, tag: TagModel) -> AccountModel {
    AccountModel {
        tags: if a.tags.contains(old_name) {
            a.tags.update(position(a.tags, old_name), tag.name)
        } else {
            a.tags
        },
        tag_colors: if tag_names(a.tag_colors).contains(old_name) {
            a.tag_colors.update(position(tag_names(a.tag_colors), old_name), tag)
        } else {
            a.tag_colors
        },
        ..a
    }
}

/// The account once a tag is gone: it carries neither the name nor a
/// colour under it.
pub open spec fn tag_removed(a: AccountModel, name: Seq<char>) -> AccountModel {
    AccountModel {
        tags: without(a.tags, name),
        tag_colors: without_tag(a.tag_colors, name),
        ..a
    }
}

/// The aggregate after the tag of the name `old_name` has become `tag`.
pub open spec fn with_tag_updated(c: ConfigModel, old_name: Seq<char>, tag: TagModel)
    -> ConfigModel {
    ConfigModel {
        tags: c.tags.update(position(tag_names(c.tags), old_name), tag),
        accounts: if old_name != tag.name {
            c.accounts.map_values(|a: AccountModel| tag_renamed(a, old_name, tag))
        } else {
            c.accounts
        },
        ..c
    }
}

/// The aggregate without the tags of a name.
pub open spec fn with_tag_deleted(c: ConfigModel, name: Seq<char>) -> ConfigModel {
    ConfigModel {
        tags: without_tag(c.tags, name),
        accounts: c.accounts.map_values(|a: AccountModel| tag_removed(a, name)),
        ..c
    }
}

/// Finds the first tag of a name.
pub fn find_tag(tags: &Vec<GlobalTag>, name: &String) -> (r: Option<usize>)
    ensures
        match r {
            Some(i) => tag_names(tags.deep_view()).contains(name@) && i == position(
                tag_names(tags.deep_view()),
                name@,
            ) && i < tags.len() && tags.deep_view()[i as int].name == name@,
            None => !tag_names(tags.deep_view()).contains(name@),
        },
{
    let ghost names = tag_names(tags.deep_view());
    let mut i: usize = 0;
    while i < tags.len()
        invariant
            i <= tags.len(),
            names == tag_names(tags.deep_view()),
            forall|j: int| 0 <= j < i ==> #[trigger] names[j] != name@,
        decreases tags.len() - i,
    {
        if tags[i].name == *name {
            proof {
                assert(names[i as int] == name@);
                lemma_position_is(names, name@, i as int);
            }
            return Some(i);
        }
        i += 1;
    }
    None
}

/// Finds the first colour that an account keeps under a tag name.
pub fn find_color(colors: &Vec<TagWithColor>, name: &String) -> (r: Option<usize>)
    ensures
        match r {
            Some(i) => tag_names(colors.deep_view()).contains(name@) && i == position(
                tag_names(colors.deep_view()),
                name@,
            ) && i < colors.len() && colors.deep_view()[i as int].name == name@,
            None => !tag_names(colors.deep_view()).contains(name@),
        },
{
    let ghost names = tag_names(colors.deep_view());
    let mut i: usize = 0;
    while i < colors.len()
        invariant
            i <= colors.len(),
            names == tag_names(colors.deep_view()),
            forall|j: int| 0 <= j < i ==> #[trigger] names[j] != name@,
        decreases colors.len() - i,
    {
        if colors[i].name == *name {
            proof {
                assert(names[i as int] == name@);
                lemma_position_is(names, name@, i as int);
            }
            return Some(i);
        }
        i += 1;
    }
    None
}

/// Removes the colours that an account keeps under a tag name.
pub fn remove_color(colors: &mut Vec<TagWithColor>, name: &String)
    ensures
        final(colors).deep_view() == without_tag(old(colors).deep_view(), name@),
{
    let ghost before = colors.deep_view();
    let ghost keep = |t: TagModel| t.name != name@;
    let mut kept: Vec<TagWithColor> = Vec::new();
    let mut i: usize = 0;
    proof {
        lemma_filter_empty(before.take(0), keep);
    }
    while i < colors.len()
        invariant
            i <= colors.len(),
            colors.deep_view() == before,
            keep == |t: TagModel| t.name != name@,
            kept.deep_view() == before.take(i as int).filter(keep),
        decreases colors.len() - i,
    {
        proof {
            lemma_filter_step(before, i as int, keep);
            assert(before[i as int] == colors@[i as int]@);
        }
        if colors[i].name != *name {
            let ghost shorter = kept.deep_view();
            kept.push(colors[i].clone());
            assert(kept.deep_view() =~= shorter.push(before[i as int]));
        }
        i += 1;
    }
    assert(before.take(i as int) =~= before);
    *colors = kept;
}

/// Applies the new name and colour of a tag to one account.
pub fn rename_tag_in(account: &mut Account, old_name: &String, tag: &GlobalTag)
    ensures
        final(account)@ == tag_renamed(old(account)@, old_name@, tag@),
{
    let ghost before = account@;
    match find_text(&account.tags, old_name) {
        Some(i) => {
            account.tags.set(i, tag.name.clone());
            assert(account@.tags =~= before.tags.update(i as int, tag@.name));
        },
        None => {},
    }
    match find_color(&account.tag_colors, old_name) {
        Some(i) => {
            account.tag_colors.set(
                i,
                TagWithColor { name: tag.name.clone(), color: tag.color.clone() },
            );
            assert(account@.tag_colors =~= before.tag_colors.update(i as int, tag@));
        },
        None => {},
    }
}

/// A filter by name keeps the names of a list of tags free of repetitions.
proof fn lemma_without_tag_distinct(tags: Seq<TagModel>, name: Seq<char>)
    requires
        names_distinct(tags),
    ensures
        names_distinct(without_tag(tags, name)),
    decreases tags.len(),
{
    reveal(Seq::filter);
    let keep = |t: TagModel| t.name != name;
    if tags.len() > 0 {
        let rest = tags.drop_last();
        lemma_without_tag_distinct(rest, name);
        let left = without_tag(rest, name);
        assert forall|i: int| 0 <= i < left.len() implies (#[trigger] left[i]).name
            != tags.last().name by {
            assert(left.contains(left[i]));
            rest.lemma_filter_contains_rev(keep, left[i]);
            let j = choose|j: int| 0 <= j < rest.len() && rest[j] == left[i];
            assert(tags[j].name != tags[tags.len() - 1].name);
        }
    }
}

impl DataStore {
    /// A copy of the tags, in the order of the store.
    pub fn get_tags(&self) -> (r: Vec<GlobalTag>)
        ensures
            r.deep_view() == self@.config.tags,
    {
        let r = self.config.tags.clone();
        assert(r.deep_view() =~= self.config.tags.deep_view());
        r
    }

    /// Adds a tag and asks for the aggregate to be written. Fails with
    /// `DuplicateKey`, and changes nothing, where a tag of the name
    /// exists.
    pub fn add_tag(&mut self, tag: GlobalTag) -> (r: Result<Persist, StoreError>)
        ensures
            match r {
                Ok(persist) => {
                    &&& !tag_names(old(self)@.config.tags).contains(tag@.name)
                    &&& final(self)@.config == (ConfigModel {
                        tags: old(self)@.config.tags.push(tag@),
                        ..old(self)@.config
                    })
                    &&& final(self)@.logs == old(self)@.logs
                    &&& persist == Persist::Config
                },
                Err(e) => {
                    &&& e == StoreError::DuplicateKey
                    &&& tag_names(old(self)@.config.tags).contains(tag@.name)
                    &&& *final(self) == *old(self)
                },
            },
            old(self)@.config.wf() ==> final(self)@.config.wf(),
    {
        if find_tag(&self.config.tags, &tag.name).is_some() {
            return Err(StoreError::DuplicateKey);
        }
        let ghost before = self@.config.tags;
        self.config.tags.push(tag);
        proof {
            assert(self@.config.tags =~= before.push(tag@));
            assert forall|i: int| 0 <= i < before.len() implies (#[trigger] before[i]).name
                != tag@.name by {
                assert(tag_names(before)[i] == before[i].name);
            }
        }
        Ok(Persist::Config)
    }

    /// Replaces the first tag of the name `old_name` by `tag` and asks
    /// for the aggregate to be written. Where the name changes, every
    /// account follows: see `tag_renamed`. Fails with `DuplicateKey`
    /// where the name changes to one that a tag carries, else with
    /// `NotFound` where no tag carries the old name; a failure changes
    /// nothing.
    pub fn update_tag(&mut self, old_name: String, tag: GlobalTag) -> (r: Result<
        Persist,
        StoreError,
    >)
        ensures
            match r {
                Ok(persist) => {
                    &&& old_name@ == tag@.name || !tag_names(old(self)@.config.tags).contains(
                        tag@.name,
                    )
                    &&& tag_names(old(self)@.config.tags).contains(old_name@)
                    &&& final(self)@.config == with_tag_updated(old(self)@.config, old_name@, tag@)
                    &&& final(self)@.logs == old(self)@.logs
                    &&& persist == Persist::Config
                },
                Err(e) => {
                    &&& *final(self) == *old(self)
                    &&& e == if old_name@ != tag@.name && tag_names(
                        old(self)@.config.tags,
                    ).contains(tag@.name) {
                        StoreError::DuplicateKey
                    } else {
                        StoreError::NotFound
                    }
                    &&& e == StoreError::NotFound ==> !tag_names(old(self)@.config.tags).contains(
                        old_name@,
                    )
                },
            },
            old(self)@.config.wf() ==> final(self)@.config.wf(),
    {
        let renamed = old_name != tag.name;
        if renamed && find_tag(&self.config.tags, &tag.name).is_some() {
            return Err(StoreError::DuplicateKey);
        }
        let index = match find_tag(&self.config.tags, &old_name) {
            Some(index) => index,
            None => {
                return Err(StoreError::NotFound);
            },
        };
        let ghost before = self@.config;
        if renamed {
            let mut i: usize = 0;
            while i < self.config.accounts.len()
                invariant
                    i <= self.config.accounts.len(),
                    self.config.accounts.len() == before.accounts.len(),
                    self@.config == (ConfigModel { accounts: self@.config.accounts, ..before }),
                    self@.logs == old(self)@.logs,
                    forall|j: int|
                        0 <= j < i ==> #[trigger] self@.config.accounts[j] == tag_renamed(
                            before.accounts[j],
                            old_name@,
                            tag@,
                        ),
                    forall|j: int|
                        i <= j < before.accounts.len() ==> #[trigger] self@.config.accounts[j]
                            == before.accounts[j],
                decreases self.config.accounts.len() - i,
            {
                let ghost current = self@.config.accounts;
                assert(current[i as int] == self.config.accounts@[i as int]@);
                let mut account = self.config.accounts[i].clone();
                rename_tag_in(&mut account, &old_name, &tag);
                let ghost stored = account@;
                self.config.accounts.set(i, account);
                assert(self@.config.accounts =~= current.update(i as int, stored));
                i += 1;
            }
            assert(self@.config.accounts =~= before.accounts.map_values(
                |a: AccountModel| tag_renamed(a, old_name@, tag@),
            ));
        }
        self.config.tags.set(index, tag);
        proof {
            assert(self@.config.tags =~= before.tags.update(index as int, tag@));
            let names = tag_names(before.tags);
            assert(names[index as int] == before.tags[index as int].name);
            assert forall|i: int| 0 <= i < before.tags.len() && i != index && names_distinct(
                before.tags,
            ) implies (#[trigger] before.tags[i]).name != tag@.name by {
                assert(names[i] == before.tags[i].name);
                if renamed {
                    assert(!names.contains(tag@.name));
                } else {
                    assert(tag@.name == old_name@);
                    assert(before.tags[i].name != before.tags[index as int].name);
                }
            }
        }
        Ok(Persist::Config)
    }

    /// Deletes the tags of a name, takes the name and its colour from
    /// every account, and asks for the aggregate to be written.
    pub fn delete_tag(&mut self, name: String) -> (r: Persist)
        ensures
            final(self)@.config == with_tag_deleted(old(self)@.config, name@),
            final(self)@.logs == old(self)@.logs,
            r == Persist::Config,
            old(self)@.config.wf() ==> final(self)@.config.wf(),
    {
        let ghost before = self@.config;
        let ghost keep = |t: TagModel| t.name != name@;
        let mut kept: Vec<GlobalTag> = Vec::new();
        let mut k: usize = 0;
        proof {
            lemma_filter_empty(before.tags.take(0), keep);
        }
        while k < self.config.tags.len()
            invariant
                k <= self.config.tags.len(),
                self@ == old(self)@,
                before == old(self)@.config,
                keep == |t: TagModel| t.name != name@,
                kept.deep_view() == before.tags.take(k as int).filter(keep),
            decreases self.config.tags.len() - k,
        {
            proof {
                lemma_filter_step(before.tags, k as int, keep);
                assert(before.tags[k as int] == self.config.tags@[k as int]@);
            }
            if self.config.tags[k].name != name {
                let ghost shorter = kept.deep_view();
                kept.push(self.config.tags[k].clone());
                assert(kept.deep_view() =~= shorter.push(before.tags[k as int]));
            }
            k += 1;
        }
        assert(before.tags.take(k as int) =~= before.tags);
        self.config.tags = kept;
        let mut i: usize = 0;
        while i < self.config.accounts.len()
            invariant
                i <= self.config.accounts.len(),
                self.config.accounts.len() == before.accounts.len(),
                self@.config == (ConfigModel {
                    accounts: self@.config.accounts,
                    tags: without_tag(before.tags, name@),
                    ..before
                }),
                self@.logs == old(self)@.logs,
                forall|j: int|
                    0 <= j < i ==> #[trigger] self@.config.accounts[j] == tag_removed(
                        before.accounts[j],
                        name@,
                    ),
                forall|j: int|
                    i <= j < before.accounts.len() ==> #[trigger] self@.config.accounts[j]
                        == before.accounts[j],
            decreases self.config.accounts.len() - i,
        {
            let ghost current = self@.config.accounts;
            assert(current[i as int] == self.config.accounts@[i as int]@);
            let mut account = self.config.accounts[i].clone();
            remove_text(&mut account.tags, &name);
            remove_color(&mut account.tag_colors, &name);
            let ghost stored = account@;
            self.config.accounts.set(i, account);
            assert(self@.config.accounts =~= current.update(i as int, stored));
            i += 1;
        }
        proof {
            assert(self@.config.accounts =~= before.accounts.map_values(
                |a: AccountModel| tag_removed(a, name@),
            ));
            if before.wf() {
                lemma_without_tag_distinct(before.tags, name@);
            }
        }
        Persist::Config
    }
}

} // verus!
