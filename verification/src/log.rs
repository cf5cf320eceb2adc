//! The operation log: an append-only list that keeps its newest entries.

use crate::clock::Timestamp;
use crate::seqs::{lemma_filter_empty, lemma_filter_step};
use vstd::prelude::*;

verus! {

/// The number of entries that the log keeps at most.
pub const LOG_LIMIT: usize = 1000;

/// What an operation did.
#[derive(Clone, Copy, Debug, PartialEq, Eq, Structural)]
pub enum OperationType {
    AddAccount,
    EditAccount,
    DeleteAccount,
    BatchOperation,
}

/// How an operation ended.
#[derive(Clone, Copy, Debug, PartialEq, Eq, Structural)]
pub enum OperationStatus {
    Success,
    Failed,
}

/// One entry of the operation log. It is never changed once written.
#[derive(Debug, PartialEq, Eq)]
pub struct OperationLog {
    pub operation_type: OperationType,
    pub status: OperationStatus,
    pub message: String,
    pub account_id: Option<u128>,
    pub account_email: Option<String>,
    pub created_at: Timestamp,
}

/// The model of an `OperationLog`.
pub struct LogModel {
    pub operation_type: OperationType,
    pub status: OperationStatus,
    pub message: Seq<char>,
    pub account_id: Option<u128>,
    pub account_email: Option<Seq<char>>,
    pub created_at: Timestamp,
}

impl View for OperationLog {
    type V = LogModel;

    open spec fn view(&self) -> LogModel {
        LogModel {
            operation_type: self.operation_type,
            status: self.status,
            message: self.message@,
            account_id: self.account_id,
            account_email: self.account_email.deep_view(),
            created_at: self.created_at,
        }
    }
}

impl DeepView for OperationLog {
    type V = LogModel;

    open spec fn deep_view(&self) -> LogModel {
        self@
    }
}

impl Clone for OperationLog {
    fn clone(&self) -> (r: Self)
        ensures
            r@ == self@,
    {
        OperationLog {
            operation_type: self.operation_type,
            status: self.status,
            message: self.message.clone(),
            account_id: self.account_id,
            account_email: self.account_email.clone(),
            created_at: self.created_at,
        }
    }
}

impl OperationLog {
    /// An entry that refers to no account.
    pub fn new(
        operation_type: OperationType,
        status: OperationStatus,
        message: String,
        created_at: Timestamp,
    ) -> (r: OperationLog)
        ensures
            r@ == (LogModel {
                operation_type,
                status,
                message: message@,
                account_id: None,
                account_email: None,
                created_at,
            }),
    {
        OperationLog {
            operation_type,
            status,
            message,
            account_id: None,
            account_email: None,
            created_at,
        }
    }

    /// The same entry, referring to an account.
    pub fn with_account(self, id: u128, email: String) -> (r: OperationLog)
        ensures
            r@ == (LogModel { account_id: Some(id), account_email: Some(email@), ..self@ }),
    {
        OperationLog {
            operation_type: self.operation_type,
            status: self.status,
            message: self.message,
            account_id: Some(id),
            account_email: Some(email),
            created_at: self.created_at,
        }
    }
}

/// The log after one more entry: the entry stands last, and of what is
/// then more than `LOG_LIMIT` entries the oldest are gone.
pub open spec fn appended(logs: Seq<LogModel>, entry: LogModel) -> Seq<LogModel> {
    let all = logs.push(entry);
    if all.len() > LOG_LIMIT {
        all.skip(all.len() - LOG_LIMIT)
    } else {
        all
    }
}

/// The newest `limit` entries in the order in which they were written, or
/// all of them where no limit is given.
pub open spec fn recent(logs: Seq<LogModel>, limit: Option<usize>) -> Seq<LogModel> {
    match limit {
        Some(n) => if n < logs.len() {
            logs.skip(logs.len() - n)
        } else {
            logs
        },
        None => logs,
    }
}

/// The entries that do not refer to one account, in their order.
pub open spec fn without_account(logs: Seq<LogModel>, id: u128) -> Seq<LogModel> {
    logs.filter(|entry: LogModel| entry.account_id != Some(id))
}

/// Appends an entry and evicts from the front down to `LOG_LIMIT`.
pub fn append_log(logs: &mut Vec<OperationLog>, entry: OperationLog)
    ensures
        final(logs).deep_view() == appended(old(logs).deep_view(), entry@),
{
    let ghost before = logs.deep_view();
    logs.push(entry);
    assert(logs.deep_view() =~= before.push(entry@));
    if logs.len() > LOG_LIMIT {
        let start: usize = logs.len() - LOG_LIMIT;
        let ghost all = logs.deep_view();
        let kept = logs.split_off(start);
        assert(kept.deep_view() =~= all.skip(start as int));
        *logs = kept;
    }
}

/// Copies out the newest `limit` entries, or all of them.
pub fn recent_logs(logs: &Vec<OperationLog>, limit: Option<usize>) -> (r: Vec<OperationLog>)
    ensures
        r.deep_view() == recent(logs.deep_view(), limit),
{
    let start: usize = match limit {
        Some(n) => if n < logs.len() {
            logs.len() - n
        } else {
            0
        },
        None => 0,
    };
    let mut out: Vec<OperationLog> = Vec::new();
    let mut i: usize = start;
    while i < logs.len()
        invariant
            start <= i <= logs.len(),
            out.deep_view() == logs.deep_view().subrange(start as int, i as int),
        decreases logs.len() - i,
    {
        let ghost shorter = out.deep_view();
        out.push(logs[i].clone());
        assert(out.deep_view() =~= shorter.push(logs@[i as int]@));
        i += 1;
        assert(out.deep_view() =~= logs.deep_view().subrange(start as int, i as int));
    }
    assert(out.deep_view() =~= logs.deep_view().skip(start as int));
    assert(logs.deep_view().skip(0) =~= logs.deep_view());
    out
}

/// Removes the entries that refer to one account and keeps the others as
/// they stand.
pub fn remove_account_logs(logs: &mut Vec<OperationLog>, id: u128)
    ensures
        final(logs).deep_view() == without_account(old(logs).deep_view(), id),
{
    let ghost before = logs.deep_view();
    let ghost keep = |entry: LogModel| entry.account_id != Some(id);
    let mut kept: Vec<OperationLog> = Vec::new();
    let mut i: usize = 0;
    proof {
        lemma_filter_empty(before.take(0), keep);
    }
    while i < logs.len()
        invariant
            i <= logs.len(),
            logs.deep_view() == before,
            keep == |entry: LogModel| entry.account_id != Some(id),
            kept.deep_view() == before.take(i as int).filter(keep),
        decreases logs.len() - i,
    {
        proof {
            lemma_filter_step(before, i as int, keep);
        }
        let refers = match logs[i].account_id {
            Some(other) => other == id,
            None => false,
        };
        if !refers {
            let ghost shorter = kept.deep_view();
            kept.push(logs[i].clone());
            assert(kept.deep_view() =~= shorter.push(logs@[i as int]@));
        }
        i += 1;
    }
    assert(before.take(i as int) =~= before);
    *logs = kept;
}

/// A full log that takes one more entry keeps its size, loses its single
/// oldest entry and keeps the order of the others.
pub proof fn lemma_retention(logs: Seq<LogModel>, entry: LogModel)
    requires
        logs.len() == LOG_LIMIT,
    ensures
        appended(logs, entry).len() == LOG_LIMIT,
        appended(logs, entry) == logs.skip(1).push(entry),
{
    assert(logs.push(entry).skip(1) =~= logs.skip(1).push(entry));
}

/// A log never outgrows its limit by taking an entry, and the entry it
/// took is its last.
pub proof fn lemma_appended_bounded(logs: Seq<LogModel>, entry: LogModel)
    ensures
        0 < appended(logs, entry).len() <= LOG_LIMIT,
        appended(logs, entry).last() == entry,
        logs.len() < LOG_LIMIT ==> appended(logs, entry) == logs.push(entry),
{
}

/// Removing an account's entries removes exactly those: no entry that is
/// left refers to the account, every entry that is left was there, and
/// every entry that refers to another account or to none is left.
pub proof fn lemma_cascade(logs: Seq<LogModel>, id: u128)
    ensures
        forall|i: int|
            0 <= i < without_account(logs, id).len() ==> (#[trigger] without_account(
                logs,
                id,
            )[i]).account_id != Some(id),
        forall|i: int|
            0 <= i < without_account(logs, id).len() ==> logs.contains(
                #[trigger] without_account(logs, id)[i],
            ),
        forall|i: int|
            0 <= i < logs.len() && logs[i].account_id != Some(id) ==> without_account(
                logs,
                id,
            ).contains(#[trigger] logs[i]),
{
    let keep = |entry: LogModel| entry.account_id != Some(id);
    let left = logs.filter(keep);
    assert forall|i: int| 0 <= i < left.len() implies (#[trigger] left[i]).account_id != Some(
        id,
    ) && logs.contains(left[i]) by {
        logs.lemma_filter_pred(keep, i);
        assert(left.contains(left[i]));
        logs.lemma_filter_contains_rev(keep, left[i]);
    }
    assert forall|i: int| 0 <= i < logs.len() && logs[i].account_id != Some(id) implies left.contains(
        #[trigger] logs[i],
    ) by {
        logs.lemma_filter_contains(keep, i);
    }
}

/// The removal works entry by entry and keeps the order: on two logs
/// written one after the other it gives what it gives on each, one after
/// the other; an entry alone is dropped where it refers to the account
/// and kept where it does not.
pub proof fn lemma_cascade_in_order(first: Seq<LogModel>, second: Seq<LogModel>, entry: LogModel, id: u128)
    ensures
        without_account(first + second, id) == without_account(first, id) + without_account(
            second,
            id,
        ),
        without_account(seq![entry], id) == if entry.account_id == Some(id) {
            Seq::<LogModel>::empty()
        } else {
            seq![entry]
        },
{
    let keep = |entry: LogModel| entry.account_id != Some(id);
    Seq::filter_distributes_over_add(first, second, keep);
    lemma_filter_empty(Seq::<LogModel>::empty(), keep);
    Seq::<LogModel>::empty().lemma_filter_push(entry, keep);
    assert(Seq::<LogModel>::empty().push(entry) =~= seq![entry]);
}

} // verus!
