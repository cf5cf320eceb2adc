//! The accounts in the order of one of their fields.
//!
//! The order is stable in both directions: accounts with the same key
//! keep the order they have in the store, whether the keys rise or
//! fall.

use crate::account::{Account, AccountModel};
use crate::clock::Timestamp;
use crate::order::{
    arranges_stably, key_le, lemma_stable_order, places, stable_order, stable_sort_order,
};
use crate::store::DataStore;
use crate::text::{is_text, lowercase, lowercase_of};
use vstd::prelude::*;
use vstd::utf8::encode_utf8;

verus! {

/// The field by which accounts are ordered.
#[derive(Clone, Copy, Debug, PartialEq, Eq, Structural)]
pub enum SortField {
    Email,
    CreatedAt,
    UsedQuota,
    RemainingQuota,
    TokenExpiresAt,
    SubscriptionExpiresAt,
    PlanName,
}

/// The direction in which accounts are ordered.
#[derive(Clone, Copy, Debug, PartialEq, Eq, Structural)]
pub enum SortDirection {
    Asc,
    Desc,
}

/// The key of a text: the bytes of its UTF-8 form.
pub open spec fn text_key(text: Seq<char>) -> Seq<i64> {
    encode_utf8(text).map_values(|b: u8| b as i64)
}

/// The key of a point in time.
pub open spec fn time_key(at: Timestamp) -> Seq<i64> {
    seq![at.secs, at.nanos as i64]
}

/// The key of a point in time that may be missing: a missing one comes
/// after every present one.
pub open spec fn optional_time_key(at: Option<Timestamp>) -> Seq<i64> {
    match at {
        Some(at) => seq![0i64, at.secs, at.nanos as i64],
        None => seq![1i64],
    }
}

/// The rank of a plan: enterprise over teams over pro over trial over
/// free over anything else and over none. Capitals count as small
/// letters.
pub open spec fn plan_rank(plan: Option<Seq<char>>) -> i64 {
    match plan {
        Some(name) => {
            let lower = lowercase_of(name);
            if lower == "enterprise"@ {
                5
            } else if lower == "teams"@ {
                4
            } else if lower == "pro"@ {
                3
            } else if lower == "trial"@ {
                2
            } else if lower == "free"@ {
                1
            } else {
                0
            }
        },
        None => 0,
    }
}

/// A quota that may be missing, as a number: a missing one is zero.
pub open spec fn quota(amount: Option<i32>) -> i64 {
    match amount {
        Some(n) => n as i64,
        None => 0,
    }
}

/// The key of an account under a field. Emails are ordered without
/// regard to capitals; the remaining quota is the total less the used
/// one; plans are ordered from the highest rank down.
pub open spec fn sort_key(a: AccountModel, field: SortField) -> Seq<i64> {
    match field {
        SortField::Email => text_key(lowercase_of(a.email)),
        SortField::CreatedAt => time_key(a.created_at),
        SortField::UsedQuota => seq![quota(a.used_quota)],
        SortField::RemainingQuota => seq![(quota(a.total_quota) - quota(a.used_quota)) as i64],
        SortField::TokenExpiresAt => optional_time_key(a.token_expires_at),
        SortField::SubscriptionExpiresAt => optional_time_key(a.subscription_expires_at),
        SortField::PlanName => seq![(5 - plan_rank(a.plan_name)) as i64],
    }
}

/// The keys of a list of accounts under a field.
pub open spec fn keys_of(accounts: Seq<AccountModel>, field: SortField) -> Seq<Seq<i64>> {
    accounts.map_values(|a: AccountModel| sort_key(a, field))
}

/// The keys fall: for the descending direction of every field but the
/// plan, and for the ascending direction of the plan, whose key falls as
/// its rank rises.
pub open spec fn flipped(field: SortField, direction: SortDirection) -> bool {
    (direction == SortDirection::Desc) != (field == SortField::PlanName)
}

/// The places of the accounts in the order of a field and a direction:
/// the stable order of their keys, falling where the order is flipped.
pub open spec fn sorted_places(
    accounts: Seq<AccountModel>,
    field: SortField,
    direction: SortDirection,
) -> Seq<int> {
    stable_order(keys_of(accounts, field), accounts.len(), flipped(field, direction))
}

/// The accounts in the order of a field and a direction.
pub open spec fn sorted_accounts(
    accounts: Seq<AccountModel>,
    field: SortField,
    direction: SortDirection,
) -> Seq<AccountModel> {
    let at = sorted_places(accounts, field, direction);
    Seq::new(accounts.len(), |i: int| accounts[at[i]])
}

/// Computes the key of a text.
pub fn key_of_text(text: &str) -> (r: Vec<i64>)
    ensures
        r@ == text_key(text@),
{
    let bytes = text.as_bytes();
    let mut key: Vec<i64> = Vec::new();
    let mut i: usize = 0;
    while i < bytes.len()
        invariant
            i <= bytes.len(),
            bytes@ == encode_utf8(text@),
            key@ == text_key(text@).take(i as int),
        decreases bytes.len() - i,
    {
        key.push(bytes[i] as i64);
        i += 1;
        assert(key@ =~= text_key(text@).take(i as int));
    }
    assert(text_key(text@).take(i as int) =~= text_key(text@));
    key
}

/// Computes the rank of a plan.
pub fn rank_of_plan(plan: &Option<String>) -> (r: i64)
    ensures
        r == plan_rank(plan.deep_view()),
{
    match plan {
        Some(name) => {
            let lower = lowercase(name.as_str());
            if is_text(&lower, "enterprise") {
                5
            } else if is_text(&lower, "teams") {
                4
            } else if is_text(&lower, "pro") {
                3
            } else if is_text(&lower, "trial") {
                2
            } else if is_text(&lower, "free") {
                1
            } else {
                0
            }
        },
        None => 0,
    }
}

/// A quota that may be missing, as a number.
fn quota_of(amount: Option<i32>) -> (r: i64)
    ensures
        r == quota(amount),
{
    match amount {
        Some(n) => n as i64,
        None => 0,
    }
}

/// Computes the key of a point in time that may be missing.
fn key_of_optional_time(at: Option<Timestamp>) -> (r: Vec<i64>)
    ensures
        r@ == optional_time_key(at),
{
    let mut key: Vec<i64> = Vec::new();
    match at {
        Some(at) => {
            key.push(0);
            key.push(at.secs);
            key.push(at.nanos as i64);
        },
        None => {
            key.push(1);
        },
    }
    assert(key@ =~= optional_time_key(at));
    key
}

/// Computes the key of an account under a field.
pub fn key_of(account: &Account, field: SortField) -> (r: Vec<i64>)
    ensures
        r@ == sort_key(account@, field),
{
    match field {
        SortField::Email => {
            let lower = lowercase(account.email.as_str());
            key_of_text(lower.as_str())
        },
        SortField::CreatedAt => {
            let mut key: Vec<i64> = Vec::new();
            key.push(account.created_at.secs);
            key.push(account.created_at.nanos as i64);
            assert(key@ =~= time_key(account@.created_at));
            key
        },
        SortField::UsedQuota => {
            let mut key: Vec<i64> = Vec::new();
            key.push(quota_of(account.used_quota));
            assert(key@ =~= seq![quota(account@.used_quota)]);
            key
        },
        SortField::RemainingQuota => {
            let mut key: Vec<i64> = Vec::new();
            key.push(quota_of(account.total_quota) - quota_of(account.used_quota));
            assert(key@ =~= seq![
                (quota(account@.total_quota) - quota(account@.used_quota)) as i64,
            ]);
            key
        },
        SortField::TokenExpiresAt => key_of_optional_time(account.token_expires_at),
        SortField::SubscriptionExpiresAt => key_of_optional_time(account.subscription_expires_at),
        SortField::PlanName => {
            let mut key: Vec<i64> = Vec::new();
            key.push(5 - rank_of_plan(&account.plan_name));
            assert(key@ =~= seq![(5 - plan_rank(account@.plan_name)) as i64]);
            key
        },
    }
}

/// Copies a list of accounts in the order of a field and a direction.
pub fn sort_accounts(accounts: &Vec<Account>, field: SortField, direction: SortDirection) -> (r:
    Vec<Account>)
    ensures
        r.deep_view() == sorted_accounts(accounts.deep_view(), field, direction),
{
    let ghost models = accounts.deep_view();
    let n: usize = accounts.len();
    let mut keys: Vec<Vec<i64>> = Vec::new();
    let mut i: usize = 0;
    while i < n
        invariant
            i <= n,
            n == accounts.len(),
            models == accounts.deep_view(),
            keys.len() == i,
            forall|j: int| 0 <= j < i ==> (#[trigger] keys@[j])@ == sort_key(models[j], field),
        decreases n - i,
    {
        keys.push(key_of(&accounts[i], field));
        i += 1;
    }
    assert forall|j: int| 0 <= j < n implies #[trigger] keys.deep_view()[j] == sort_key(
        models[j],
        field,
    ) by {
        assert(keys.deep_view()[j] =~= keys@[j]@);
    }
    assert(keys.deep_view() =~= keys_of(models, field));
    let flip = (direction == SortDirection::Desc) != (field == SortField::PlanName);
    let order = stable_sort_order(&keys, flip);
    let ghost at = sorted_places(models, field, direction);
    let mut sorted: Vec<Account> = Vec::new();
    let mut k: usize = 0;
    while k < n
        invariant
            k <= n,
            n == accounts.len(),
            n == order.len(),
            models == accounts.deep_view(),
            places(order@) == at,
            at == sorted_places(models, field, direction),
            forall|a: int| 0 <= a < order.len() ==> #[trigger] order@[a] < n,
            sorted.len() == k,
            forall|j: int| 0 <= j < k ==> #[trigger] sorted.deep_view()[j] == models[at[j]],
        decreases n - k,
    {
        let from: usize = order[k];
        proof {
            assert(places(order@)[k as int] == from as int);
        }
        let ghost shorter = sorted.deep_view();
        sorted.push(accounts[from].clone());
        assert(sorted.deep_view() =~= shorter.push(models[from as int]));
        k += 1;
    }
    assert(sorted.deep_view() =~= sorted_accounts(models, field, direction));
    sorted
}

impl DataStore {
    /// A copy of the accounts in the order of a field and a direction.
    pub fn get_sorted_accounts(&self, sort_field: &SortField, sort_direction: &SortDirection) -> (r:
        Vec<Account>)
        ensures
            r.deep_view() == sorted_accounts(self@.config.accounts, *sort_field, *sort_direction),
    {
        sort_accounts(&self.config.accounts, *sort_field, *sort_direction)
    }
}

/// The order of a field and a direction arranges the accounts: every
/// place of the store occurs in it once, so no account is lost and none
/// is made up.
pub proof fn lemma_sorted_is_rearrangement(
    accounts: Seq<AccountModel>,
    field: SortField,
    direction: SortDirection,
)
    ensures
        sorted_accounts(accounts, field, direction).len() == accounts.len(),
        sorted_places(accounts, field, direction).len() == accounts.len(),
        forall|i: int|
            0 <= i < accounts.len() ==> 0 <= #[trigger] sorted_places(
                accounts,
                field,
                direction,
            )[i] < accounts.len(),
        forall|i: int, j: int|
            0 <= i < j < accounts.len() ==> #[trigger] sorted_places(accounts, field, direction)[i]
                != #[trigger] sorted_places(accounts, field, direction)[j],
{
    let n = accounts.len();
    let keys = keys_of(accounts, field);
    lemma_stable_order(keys, n, flipped(field, direction));
    assert(arranges_stably(
        sorted_places(accounts, field, direction),
        keys,
        n,
        flipped(field, direction),
    ));
}

/// Accounts with the same key stand as they stand in the store, in every
/// order; in an order that is not flipped the keys do not fall.
pub proof fn lemma_sort_stable(
    accounts: Seq<AccountModel>,
    field: SortField,
    direction: SortDirection,
    i: int,
    j: int,
)
    requires
        0 <= i < j < accounts.len(),
    ensures
        !flipped(field, direction) ==> key_le(
            sort_key(sorted_accounts(accounts, field, direction)[i], field),
            sort_key(sorted_accounts(accounts, field, direction)[j], field),
        ),
        sort_key(sorted_accounts(accounts, field, direction)[i], field) == sort_key(
            sorted_accounts(accounts, field, direction)[j],
            field,
        ) ==> sorted_places(accounts, field, direction)[i] < sorted_places(
            accounts,
            field,
            direction,
        )[j],
{
    let n = accounts.len();
    let keys = keys_of(accounts, field);
    lemma_stable_order(keys, n, flipped(field, direction));
    let order = sorted_places(accounts, field, direction);
    assert(0 <= order[i] < n && 0 <= order[j] < n);
    assert(keys[order[i]] == sort_key(accounts[order[i]], field));
    assert(keys[order[j]] == sort_key(accounts[order[j]], field));
}

/// In a flipped order the keys do not rise, and accounts with the same
/// key stand as they stand in the store.
pub proof fn lemma_sort_flipped(
    accounts: Seq<AccountModel>,
    field: SortField,
    direction: SortDirection,
    i: int,
    j: int,
)
    requires
        flipped(field, direction),
        0 <= i < j < accounts.len(),
    ensures
        key_le(
            sort_key(sorted_accounts(accounts, field, direction)[j], field),
            sort_key(sorted_accounts(accounts, field, direction)[i], field),
        ),
        sort_key(sorted_accounts(accounts, field, direction)[i], field) == sort_key(
            sorted_accounts(accounts, field, direction)[j],
            field,
        ) ==> sorted_places(accounts, field, direction)[i] < sorted_places(
            accounts,
            field,
            direction,
        )[j],
{
    let n = accounts.len();
    let keys = keys_of(accounts, field);
    lemma_stable_order(keys, n, true);
    let order = sorted_places(accounts, field, direction);
    assert(0 <= order[i] < n && 0 <= order[j] < n);
    assert(keys[order[i]] == sort_key(accounts[order[i]], field));
    assert(keys[order[j]] == sort_key(accounts[order[j]], field));
}

} // verus!
