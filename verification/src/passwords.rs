//! What the operations of the store do to the passwords that are stored:
//! a change of password changes one, and no other operation on the
//! accounts that are there changes any.

use crate::account::{AccountModel, TagModel};
use crate::batch::{batch_retagged, reordered, tags_added, tags_removed};
use crate::clock::Timestamp;
use crate::config::ConfigModel;
use crate::editing::{replaced, with_password, with_tokens};
use crate::groups::{with_group_renamed, without_group};
use crate::ident::parsed_uuid;
use crate::seqs::lemma_position;
use crate::store::{ids_of, known, place};
use crate::tags::{with_tag_deleted, with_tag_updated};
use vstd::prelude::*;

verus! {

/// The passwords of a list of accounts, in its order.
pub open spec fn passwords(accounts: Seq<AccountModel>) -> Seq<Seq<char>> {
    accounts.map_values(|a: AccountModel| a.password)
}

/// A replacement of an account leaves every password as it is stored,
/// whatever password the replacement carries.
pub proof fn lemma_replace_keeps_passwords(c: ConfigModel, account: AccountModel)
    requires
        known(c.accounts, account.id),
    ensures
        passwords(replaced(c, account).accounts) == passwords(c.accounts),
{
    lemma_position(ids_of(c.accounts), account.id);
    assert(passwords(replaced(c, account).accounts) =~= passwords(c.accounts));
}

/// A change of password changes the password of the account at the
/// place of the id and nothing else of it, and leaves every other
/// account as it was.
pub proof fn lemma_password_changes_one(c: ConfigModel, id: u128, password: Seq<char>)
    requires
        known(c.accounts, id),
    ensures
        ({
            let i = place(c.accounts, id);
            let after = with_password(c, id, password).accounts;
            &&& 0 <= i < c.accounts.len()
            &&& passwords(after) == passwords(c.accounts).update(i, password)
            &&& after == c.accounts.update(i, AccountModel { password, ..c.accounts[i] })
        }),
{
    lemma_position(ids_of(c.accounts), id);
    let i = place(c.accounts, id);
    assert(passwords(with_password(c, id, password).accounts) =~= passwords(c.accounts).update(
        i,
        password,
    ));
}

/// A new token leaves every password as it is stored.
pub proof fn lemma_tokens_keep_passwords(
    c: ConfigModel,
    id: u128,
    token: Seq<char>,
    refresh_token: Option<Seq<char>>,
    expires_at: Timestamp,
    now: Timestamp,
)
    requires
        known(c.accounts, id),
    ensures
        passwords(with_tokens(c, id, token, refresh_token, expires_at, now).accounts) == passwords(
            c.accounts,
        ),
{
    lemma_position(ids_of(c.accounts), id);
    assert(passwords(with_tokens(c, id, token, refresh_token, expires_at, now).accounts)
        =~= passwords(c.accounts));
}

/// The operations on groups and on tags leave every password as it is
/// stored.
pub proof fn lemma_groups_and_tags_keep_passwords(
    c: ConfigModel,
    name: Seq<char>,
    new_name: Seq<char>,
    tag: TagModel,
)
    ensures
        passwords(without_group(c, name).accounts) == passwords(c.accounts),
        passwords(with_group_renamed(c, name, new_name).accounts) == passwords(c.accounts),
        passwords(with_tag_updated(c, name, tag).accounts) == passwords(c.accounts),
        passwords(with_tag_deleted(c, name).accounts) == passwords(c.accounts),
{
    assert(passwords(without_group(c, name).accounts) =~= passwords(c.accounts));
    assert(passwords(with_group_renamed(c, name, new_name).accounts) =~= passwords(c.accounts));
    assert(passwords(with_tag_updated(c, name, tag).accounts) =~= passwords(c.accounts));
    assert(passwords(with_tag_deleted(c, name).accounts) =~= passwords(c.accounts));
}

/// A change of tags leaves the password of an account as it is.
proof fn lemma_retag_keeps_password(
    a: AccountModel,
    global: Seq<TagModel>,
    add: Seq<Seq<char>>,
    remove: Seq<Seq<char>>,
)
    ensures
        tags_added(a, global, add).password == a.password,
        tags_added(a, global, add).id == a.id,
        tags_removed(a, remove).password == a.password,
        tags_removed(a, remove).id == a.id,
    decreases add.len() + remove.len(),
{
    if add.len() > 0 {
        lemma_retag_keeps_password(a, global, add.drop_last(), Seq::empty());
    }
    if remove.len() > 0 {
        lemma_retag_keeps_password(a, global, Seq::empty(), remove.drop_last());
    }
}

/// A change of tags on many accounts leaves every password as it is
/// stored, and serves or fails each id it is given.
pub proof fn lemma_batch_keeps_passwords(
    accounts: Seq<AccountModel>,
    global: Seq<TagModel>,
    ids: Seq<Seq<char>>,
    add: Seq<Seq<char>>,
    remove: Seq<Seq<char>>,
)
    ensures
        passwords(batch_retagged(accounts, global, ids, add, remove).accounts) == passwords(
            accounts,
        ),
        ids_of(batch_retagged(accounts, global, ids, add, remove).accounts) == ids_of(accounts),
        batch_retagged(accounts, global, ids, add, remove).succeeded + batch_retagged(
            accounts,
            global,
            ids,
            add,
            remove,
        ).failed == ids.len(),
    decreases ids.len(),
{
    if ids.len() > 0 {
        lemma_batch_keeps_passwords(accounts, global, ids.drop_last(), add, remove);
        let before = batch_retagged(accounts, global, ids.drop_last(), add, remove);
        let after = batch_retagged(accounts, global, ids, add, remove);
        let id = parsed_uuid(ids.last());
        if id is Some && known(before.accounts, id.unwrap()) {
            lemma_position(ids_of(before.accounts), id.unwrap());
            let i = place(before.accounts, id.unwrap());
            let added = tags_added(before.accounts[i], global, add);
            lemma_retag_keeps_password(before.accounts[i], global, add, Seq::empty());
            lemma_retag_keeps_password(added, global, Seq::empty(), remove);
            assert(passwords(after.accounts) =~= passwords(before.accounts));
            assert(ids_of(after.accounts) =~= ids_of(before.accounts));
        }
    }
}

/// A new order of the accounts leaves every password as it is stored.
pub proof fn lemma_order_keeps_passwords(accounts: Seq<AccountModel>, ids: Seq<Seq<char>>)
    ensures
        passwords(reordered(accounts, ids)) == passwords(accounts),
        ids_of(reordered(accounts, ids)) == ids_of(accounts),
    decreases ids.len(),
{
    if ids.len() > 0 {
        lemma_order_keeps_passwords(accounts, ids.drop_last());
        let before = reordered(accounts, ids.drop_last());
        let after = reordered(accounts, ids);
        let id = parsed_uuid(ids.last());
        if id is Some && known(before, id.unwrap()) {
            lemma_position(ids_of(before), id.unwrap());
            assert(passwords(after) =~= passwords(before));
            assert(ids_of(after) =~= ids_of(before));
        }
    }
}

} // verus!
