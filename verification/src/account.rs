//! Accounts, the tags they carry, and their mathematical models.

use crate::clock::Timestamp;
use vstd::prelude::*;

verus! {

/// Where an account stands in its life.
#[derive(Debug, PartialEq, Eq)]
pub enum AccountStatus {
    Active,
    Inactive,
    Error(String),
}

/// The model of an `AccountStatus`.
pub enum StatusModel {
    Active,
    Inactive,
    Error(Seq<char>),
}

impl View for AccountStatus {
    type V = StatusModel;

    open spec fn view(&self) -> StatusModel {
        match *self {
            AccountStatus::Active => StatusModel::Active,
            AccountStatus::Inactive => StatusModel::Inactive,
            AccountStatus::Error(message) => StatusModel::Error(message@),
        }
    }
}

impl Clone for AccountStatus {
    fn clone(&self) -> (r: Self)
        ensures
            r@ == self@,
    {
        match self {
            AccountStatus::Active => AccountStatus::Active,
            AccountStatus::Inactive => AccountStatus::Inactive,
            AccountStatus::Error(message) => AccountStatus::Error(message.clone()),
        }
    }
}

/// The colour that one account shows a tag in.
#[derive(Debug, PartialEq, Eq)]
pub struct TagWithColor {
    pub name: String,
    pub color: String,
}

/// A tag that every account can carry, with the colour it has by default.
#[derive(Debug, PartialEq, Eq)]
pub struct GlobalTag {
    pub name: String,
    pub color: String,
}

/// The model of a `TagWithColor` and of a `GlobalTag`: a name and a colour.
pub struct TagModel {
    pub name: Seq<char>,
    pub color: Seq<char>,
}

impl View for TagWithColor {
    type V = TagModel;

    open spec fn view(&self) -> TagModel {
        TagModel { name: self.name@, color: self.color@ }
    }
}

impl DeepView for TagWithColor {
    type V = TagModel;

    open spec fn deep_view(&self) -> TagModel {
        self@
    }
}

impl Clone for TagWithColor {
    fn clone(&self) -> (r: Self)
        ensures
            r@ == self@,
    {
        TagWithColor { name: self.name.clone(), color: self.color.clone() }
    }
}

impl View for GlobalTag {
    type V = TagModel;

    open spec fn view(&self) -> TagModel {
        TagModel { name: self.name@, color: self.color@ }
    }
}

impl DeepView for GlobalTag {
    type V = TagModel;

    open spec fn deep_view(&self) -> TagModel {
        self@
    }
}

impl Clone for GlobalTag {
    fn clone(&self) -> (r: Self)
        ensures
            r@ == self@,
    {
        GlobalTag { name: self.name.clone(), color: self.color.clone() }
    }
}

/// One managed account.
#[derive(Debug, PartialEq, Eq)]
pub struct Account {
    pub id: u128,
    pub email: String,
    pub password: String,
    pub nickname: String,
    pub group: Option<String>,
    pub tags: Vec<String>,
    pub tag_colors: Vec<TagWithColor>,
    pub token: Option<String>,
    pub refresh_token: Option<String>,
    pub token_expires_at: Option<Timestamp>,
    pub plan_name: Option<String>,
    pub used_quota: Option<i32>,
    pub total_quota: Option<i32>,
    pub subscription_expires_at: Option<Timestamp>,
    pub is_disabled: Option<bool>,
    pub windsurf_api_key: Option<String>,
    pub last_login_at: Option<Timestamp>,
    pub last_quota_update: Option<Timestamp>,
    pub sort_order: i32,
    pub status: AccountStatus,
    pub created_at: Timestamp,
}

/// The model of an `Account`: the same fields, texts as sequences of
/// characters.
pub struct AccountModel {
    pub id: u128,
    pub email: Seq<char>,
    pub password: Seq<char>,
    pub nickname: Seq<char>,
    pub group: Option<Seq<char>>,
    pub tags: Seq<Seq<char>>,
    pub tag_colors: Seq<TagModel>,
    pub token: Option<Seq<char>>,
    pub refresh_token: Option<Seq<char>>,
    pub token_expires_at: Option<Timestamp>,
    pub plan_name: Option<Seq<char>>,
    pub used_quota: Option<i32>,
    pub total_quota: Option<i32>,
    pub subscription_expires_at: Option<Timestamp>,
    pub is_disabled: Option<bool>,
    pub windsurf_api_key: Option<Seq<char>>,
    pub last_login_at: Option<Timestamp>,
    pub last_quota_update: Option<Timestamp>,
    pub sort_order: i32,
    pub status: StatusModel,
    pub created_at: Timestamp,
}

impl View for Account {
    type V = AccountModel;

    open spec fn view(&self) -> AccountModel {
        AccountModel {
            id: self.id,
            email: self.email@,
            password: self.password@,
            nickname: self.nickname@,
            group: self.group.deep_view(),
            tags: self.tags.deep_view(),
            tag_colors: self.tag_colors.deep_view(),
            token: self.token.deep_view(),
            refresh_token: self.refresh_token.deep_view(),
            token_expires_at: self.token_expires_at,
            plan_name: self.plan_name.deep_view(),
            used_quota: self.used_quota,
            total_quota: self.total_quota,
            subscription_expires_at: self.subscription_expires_at,
            is_disabled: self.is_disabled,
            windsurf_api_key: self.windsurf_api_key.deep_view(),
            last_login_at: self.last_login_at,
            last_quota_update: self.last_quota_update,
            sort_order: self.sort_order,
            status: self.status@,
            created_at: self.created_at,
        }
    }
}

impl DeepView for Account {
    type V = AccountModel;

    open spec fn deep_view(&self) -> AccountModel {
        self@
    }
}

/// The account that `Account::new` makes.
pub open spec fn new_account(
    id: u128,
    created_at: Timestamp,
    email: Seq<char>,
    password: Seq<char>,
    nickname: Seq<char>,
    tags: Seq<Seq<char>>,
) -> AccountModel {
    AccountModel {
        id,
        email,
        password,
        nickname,
        group: None,
        tags,
        tag_colors: Seq::empty(),
        token: None,
        refresh_token: None,
        token_expires_at: None,
        plan_name: None,
        used_quota: None,
        total_quota: None,
        subscription_expires_at: None,
        is_disabled: None,
        windsurf_api_key: None,
        last_login_at: None,
        last_quota_update: None,
        sort_order: 0,
        status: StatusModel::Inactive,
        created_at,
    }
}

impl Account {
    /// A fresh account: inactive, in no group, with no token and no
    /// subscription data.
    pub fn new(
        id: u128,
        created_at: Timestamp,
        email: String,
        password: String,
        nickname: String,
        tags: Vec<String>,
    ) -> (r: Account)
        ensures
            r@ == new_account(id, created_at, email@, password@, nickname@, tags.deep_view()),
    {
        let r = Account {
            id,
            email,
            password,
            nickname,
            group: None,
            tags,
            tag_colors: Vec::new(),
            token: None,
            refresh_token: None,
            token_expires_at: None,
            plan_name: None,
            used_quota: None,
            total_quota: None,
            subscription_expires_at: None,
            is_disabled: None,
            windsurf_api_key: None,
            last_login_at: None,
            last_quota_update: None,
            sort_order: 0,
            status: AccountStatus::Inactive,
            created_at,
        };
        assert(r@.tag_colors =~= Seq::empty());
        r
    }
}

impl Clone for Account {
    fn clone(&self) -> (r: Self)
        ensures
            r@ == self@,
    {
        let tags = self.tags.clone();
        let tag_colors = self.tag_colors.clone();
        assert(tags.deep_view() =~= self.tags.deep_view());
        assert(tag_colors.deep_view() =~= self.tag_colors.deep_view());
        Account {
            id: self.id,
            email: self.email.clone(),
            password: self.password.clone(),
            nickname: self.nickname.clone(),
            group: self.group.clone(),
            tags,
            tag_colors,
            token: self.token.clone(),
            refresh_token: self.refresh_token.clone(),
            token_expires_at: self.token_expires_at,
            plan_name: self.plan_name.clone(),
            used_quota: self.used_quota,
            total_quota: self.total_quota,
            subscription_expires_at: self.subscription_expires_at,
            is_disabled: self.is_disabled,
            windsurf_api_key: self.windsurf_api_key.clone(),
            last_login_at: self.last_login_at,
            last_quota_update: self.last_quota_update,
            sort_order: self.sort_order,
            status: self.status.clone(),
            created_at: self.created_at,
        }
    }
}

/// Copies a list of accounts.
pub fn clone_accounts(list: &Vec<Account>) -> (r: Vec<Account>)
    ensures
        r.deep_view() == list.deep_view(),
{
    let r = list.clone();
    assert(r.deep_view() =~= list.deep_view());
    r
}

} // verus!
