//! Queries on the accounts of the store: by a text, by a group, by tags.

use crate::account::{Account, AccountModel};
use crate::seqs::{lemma_filter_empty, lemma_filter_step};
use crate::store::DataStore;
use crate::text::{contains, list_contains, lowercase, lowercase_of, occurs_in};
use vstd::prelude::*;

verus! {

/// One of the tags holds the text, capitals counting as small letters.
pub open spec fn tag_holds(tags: Seq<Seq<char>>, lower: Seq<char>) -> bool {
    exists|i: int| 0 <= i < tags.len() && occurs_in(lowercase_of(#[trigger] tags[i]), lower)
}

/// The email, the nickname or a tag of the account holds the text,
/// capitals counting as small letters on both sides.
pub open spec fn answers(a: AccountModel, query: Seq<char>) -> bool {
    let lower = lowercase_of(query);
    occurs_in(lowercase_of(a.email), lower) || occurs_in(lowercase_of(a.nickname), lower)
        || tag_holds(a.tags, lower)
}

/// The account carries one of the tags.
pub open spec fn carries_any(a: AccountModel, tags: Seq<Seq<char>>) -> bool {
    exists|i: int| 0 <= i < tags.len() && a.tags.contains(#[trigger] tags[i])
}

/// Tells whether one of the tags holds a text that is in small letters.
fn any_tag_holds(tags: &Vec<String>, lower: &String) -> (r: bool)
    ensures
        r == tag_holds(tags.deep_view(), lower@),
{
    let mut i: usize = 0;
    while i < tags.len()
        invariant
            i <= tags.len(),
            forall|j: int|
                0 <= j < i ==> !occurs_in(lowercase_of(#[trigger] tags.deep_view()[j]), lower@),
        decreases tags.len() - i,
    {
        let tag = lowercase(tags[i].as_str());
        if contains(tag.as_str(), lower.as_str()) {
            assert(occurs_in(lowercase_of(tags.deep_view()[i as int]), lower@));
            return true;
        }
        i += 1;
    }
    false
}

/// Tells whether an account answers a query that is in small letters.
fn account_answers(account: &Account, lower: &String) -> (r: bool)
    ensures
        r == (occurs_in(lowercase_of(account@.email), lower@) || occurs_in(
            lowercase_of(account@.nickname),
            lower@,
        ) || tag_holds(account@.tags, lower@)),
{
    let email = lowercase(account.email.as_str());
    if contains(email.as_str(), lower.as_str()) {
        return true;
    }
    let nickname = lowercase(account.nickname.as_str());
    if contains(nickname.as_str(), lower.as_str()) {
        return true;
    }
    any_tag_holds(&account.tags, lower)
}

/// Tells whether an account carries one of the tags.
fn account_carries_any(account: &Account, tags: &Vec<String>) -> (r: bool)
    ensures
        r == carries_any(account@, tags.deep_view()),
{
    let mut i: usize = 0;
    while i < tags.len()
        invariant
            i <= tags.len(),
            forall|j: int| 0 <= j < i ==> !account@.tags.contains(#[trigger] tags.deep_view()[j]),
        decreases tags.len() - i,
    {
        if list_contains(&account.tags, &tags[i]) {
            assert(account@.tags.contains(tags.deep_view()[i as int]));
            return true;
        }
        i += 1;
    }
    false
}

/// The accounts whose email, nickname or tags hold a text, in the order
/// of the store. Capitals count as small letters.
pub fn search_accounts(store: &DataStore, query: String) -> (r: Vec<Account>)
    ensures
        r.deep_view() == store@.config.accounts.filter(|a: AccountModel| answers(a, query@)),
{
    let lower = lowercase(query.as_str());
    let ghost all = store@.config.accounts;
    let ghost keep = |a: AccountModel| answers(a, query@);
    let mut found: Vec<Account> = Vec::new();
    let mut i: usize = 0;
    proof {
        lemma_filter_empty(all.take(0), keep);
    }
    while i < store.config.accounts.len()
        invariant
            i <= store.config.accounts.len(),
            all == store@.config.accounts,
            lower@ == lowercase_of(query@),
            keep == |a: AccountModel| answers(a, query@),
            found.deep_view() == all.take(i as int).filter(keep),
        decreases store.config.accounts.len() - i,
    {
        proof {
            lemma_filter_step(all, i as int, keep);
            assert(all[i as int] == store.config.accounts@[i as int]@);
        }
        if account_answers(&store.config.accounts[i], &lower) {
            let ghost shorter = found.deep_view();
            found.push(store.config.accounts[i].clone());
            assert(found.deep_view() =~= shorter.push(all[i as int]));
        }
        i += 1;
    }
    assert(all.take(i as int) =~= all);
    found
}

/// The accounts that name a group, in the order of the store.
pub fn filter_accounts_by_group(store: &DataStore, group: String) -> (r: Vec<Account>)
    ensures
        r.deep_view() == store@.config.accounts.filter(
            |a: AccountModel| a.group == Some(group@),
        ),
{
    let ghost all = store@.config.accounts;
    let ghost keep = |a: AccountModel| a.group == Some(group@);
    let mut found: Vec<Account> = Vec::new();
    let mut i: usize = 0;
    proof {
        lemma_filter_empty(all.take(0), keep);
    }
    while i < store.config.accounts.len()
        invariant
            i <= store.config.accounts.len(),
            all == store@.config.accounts,
            keep == |a: AccountModel| a.group == Some(group@),
            found.deep_view() == all.take(i as int).filter(keep),
        decreases store.config.accounts.len() - i,
    {
        proof {
            lemma_filter_step(all, i as int, keep);
            assert(all[i as int] == store.config.accounts@[i as int]@);
        }
        let named = match &store.config.accounts[i].group {
            Some(name) => *name == group,
            None => false,
        };
        if named {
            let ghost shorter = found.deep_view();
            found.push(store.config.accounts[i].clone());
            assert(found.deep_view() =~= shorter.push(all[i as int]));
        }
        i += 1;
    }
    assert(all.take(i as int) =~= all);
    found
}

/// The accounts that carry at least one of the tags, in the order of the
/// store.
pub fn filter_accounts_by_tags(store: &DataStore, tags: Vec<String>) -> (r: Vec<Account>)
    ensures
        r.deep_view() == store@.config.accounts.filter(
            |a: AccountModel| carries_any(a, tags.deep_view()),
        ),
{
    let ghost all = store@.config.accounts;
    let ghost keep = |a: AccountModel| carries_any(a, tags.deep_view());
    let mut found: Vec<Account> = Vec::new();
    let mut i: usize = 0;
    proof {
        lemma_filter_empty(all.take(0), keep);
    }
    while i < store.config.accounts.len()
        invariant
            i <= store.config.accounts.len(),
            all == store@.config.accounts,
            keep == |a: AccountModel| carries_any(a, tags.deep_view()),
            found.deep_view() == all.take(i as int).filter(keep),
        decreases store.config.accounts.len() - i,
    {
        proof {
            lemma_filter_step(all, i as int, keep);
            assert(all[i as int] == store.config.accounts@[i as int]@);
        }
        if account_carries_any(&store.config.accounts[i], &tags) {
            let ghost shorter = found.deep_view();
            found.push(store.config.accounts[i].clone());
            assert(found.deep_view() =~= shorter.push(all[i as int]));
        }
        i += 1;
    }
    assert(all.take(i as int) =~= all);
    found
}

} // verus!
