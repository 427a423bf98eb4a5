use crate::error::Error;
use crate::state::{Call, StoreState};
use crate::transaction::approved_by;
use vstd::prelude::*;

verus! {

/// The identifier that the call returns in this store: for an accepted
/// `create_group` or `add_transaction` one more than the counter's last
/// value, and none for any other call.
pub open spec fn returned_id(store: StoreState, call: Call) -> Option<int> {
    if store.refusal(call).is_some() {
        None
    } else {
        match call {
            Call::CreateGroup { owner } => Some(store.last_group_id + 1),
            Call::AddTransaction { user_id, group_id, amount, proof_ref } => Some(
                store.last_transaction_id + 1,
            ),
            _ => None,
        }
    }
}

/// The store in which the call at place `k` of a sequence is made, when the
/// sequence starts in `store`.
pub open spec fn store_before(store: StoreState, calls: Seq<Call>, k: int) -> StoreState {
    store.after_all(calls.take(k))
}

/// The store before the call at place `k + 1` is the store before the call
/// at place `k`, after that call.
pub proof fn lemma_store_before_next(store: StoreState, calls: Seq<Call>, k: int)
    requires
        0 <= k < calls.len(),
    ensures
        store_before(store, calls, k + 1) == store_before(store, calls, k).after(calls[k]),
{
    assert(calls.take(k + 1).drop_last() =~= calls.take(k));
    assert(calls.take(k + 1).last() == calls[k]);
}

/// No call lowers an identifier counter.
pub proof fn lemma_counters_never_fall(store: StoreState, call: Call)
    ensures
        store.last_group_id <= store.after(call).last_group_id,
        store.last_transaction_id <= store.after(call).last_transaction_id,
{
}

/// No sequence of calls lowers an identifier counter.
pub proof fn lemma_counters_never_fall_over(store: StoreState, calls: Seq<Call>, i: int, j: int)
    requires
        0 <= i <= j <= calls.len(),
    ensures
        store_before(store, calls, i).last_group_id <= store_before(store, calls, j).last_group_id,
        store_before(store, calls, i).last_transaction_id <= store_before(
            store,
            calls,
            j,
        ).last_transaction_id,
    decreases j - i,
{
    if i < j {
        lemma_counters_never_fall_over(store, calls, i, j - 1);
        lemma_store_before_next(store, calls, j - 1);
        lemma_counters_never_fall(store_before(store, calls, j - 1), calls[j - 1]);
    }
}

/// Group identifiers are given out in strictly increasing order, so none
/// is given out twice: of two accepted `create_group` calls anywhere in a
/// sequence of calls, the later one returns the greater identifier.
pub proof fn lemma_group_ids_strictly_increase(
    store: StoreState,
    calls: Seq<Call>,
    i: int,
    j: int,
)
    requires
        0 <= i < j < calls.len(),
        calls[i] is CreateGroup,
        calls[j] is CreateGroup,
        returned_id(store_before(store, calls, i), calls[i]).is_some(),
        returned_id(store_before(store, calls, j), calls[j]).is_some(),
    ensures
        returned_id(store_before(store, calls, i), calls[i]).unwrap() < returned_id(
            store_before(store, calls, j),
            calls[j],
        ).unwrap(),
{
    lemma_store_before_next(store, calls, i);
    lemma_counters_never_fall_over(store, calls, i + 1, j);
}

/// Transaction identifiers are given out in strictly increasing order, so
/// none is given out twice: of two accepted `add_transaction` calls
/// anywhere in a sequence of calls, the later one returns the greater
/// identifier.
pub proof fn lemma_transaction_ids_strictly_increase(
    store: StoreState,
    calls: Seq<Call>,
    i: int,
    j: int,
)
    requires
        0 <= i < j < calls.len(),
        calls[i] is AddTransaction,
        calls[j] is AddTransaction,
        returned_id(store_before(store, calls, i), calls[i]).is_some(),
        returned_id(store_before(store, calls, j), calls[j]).is_some(),
    ensures
        returned_id(store_before(store, calls, i), calls[i]).unwrap() < returned_id(
            store_before(store, calls, j),
            calls[j],
        ).unwrap(),
{
    lemma_store_before_next(store, calls, i);
    lemma_counters_never_fall_over(store, calls, i + 1, j);
}

/// Only the owner adds members: whoever else calls `add_member_to_group`
/// on a group is refused as unauthorized, and the store stays as it was.
pub proof fn lemma_only_owner_adds_members(
    store: StoreState,
    group_id: u64,
    user_id: Seq<char>,
    caller: Seq<char>,
)
    requires
        store.groups.contains_key(group_id),
        store.groups[group_id].owner != caller,
    ensures
        store.refusal(Call::AddMemberToGroup { group_id, user_id, caller }) == Some(
            Error::Unauthorized,
        ),
        store.after(Call::AddMemberToGroup { group_id, user_id, caller }) == store,
{
}

/// A user joins a group once: when the owner adds a user who is in the
/// group already, the call is refused because the member exists, and the
/// store stays as it was.
pub proof fn lemma_member_is_added_once(
    store: StoreState,
    group_id: u64,
    user_id: Seq<char>,
    caller: Seq<char>,
)
    requires
        store.groups.contains_key(group_id),
        store.groups[group_id].owner == caller,
        store.groups[group_id].members.contains(user_id),
    ensures
        store.refusal(Call::AddMemberToGroup { group_id, user_id, caller }) == Some(
            Error::MemberAlreadyExists,
        ),
        store.after(Call::AddMemberToGroup { group_id, user_id, caller }) == store,
{
}

/// Repeating an accepted `add_member_to_group` is refused because the
/// member exists.
pub proof fn lemma_repeated_add_member_is_refused(
    store: StoreState,
    group_id: u64,
    user_id: Seq<char>,
    caller: Seq<char>,
)
    requires
        store.refusal(Call::AddMemberToGroup { group_id, user_id, caller }).is_none(),
    ensures
        store.after(Call::AddMemberToGroup { group_id, user_id, caller }).refusal(
            Call::AddMemberToGroup { group_id, user_id, caller },
        ) == Some(Error::MemberAlreadyExists),
{
    let members = store.groups[group_id].members;
    assert(members.push(user_id)[members.len() as int] == user_id);
}

/// Whoever has approved stands among the approvals.
pub proof fn lemma_approver_is_recorded(approvals: Seq<Seq<char>>, approver: Seq<char>)
    ensures
        approved_by(approvals, approver).contains(approver),
        approved_by(approved_by(approvals, approver), approver) == approved_by(approvals, approver),
{
    if !approvals.contains(approver) {
        assert(approvals.push(approver)[approvals.len() as int] == approver);
    }
}

/// Approving is idempotent: the same approval made twice leaves the store
/// as the approval made once does.
pub proof fn lemma_approve_twice_is_approve_once(store: StoreState, tx_id: u64, approver: Seq<char>)
    ensures
        store.after(Call::ApproveTransaction { tx_id, approver }).after(
            Call::ApproveTransaction { tx_id, approver },
        ) == store.after(Call::ApproveTransaction { tx_id, approver }),
{
    let call = Call::ApproveTransaction { tx_id, approver };
    if store.refusal(call).is_none() {
        let once = store.after(call);
        lemma_approver_is_recorded(store.transactions[tx_id].approvals, approver);
        assert(once.refusal(call).is_none());
        assert(once.after(call).transactions =~= once.transactions);
        assert(once.after(call) =~= once);
    }
}

/// Who is not a member of a transaction's group cannot approve it: the
/// call is refused as unauthorized, and the approvals stay as they were.
pub proof fn lemma_non_member_cannot_approve(store: StoreState, tx_id: u64, approver: Seq<char>)
    requires
        store.transactions.contains_key(tx_id),
        store.groups.contains_key(store.transactions[tx_id].group_id),
        !store.groups[store.transactions[tx_id].group_id].members.contains(approver),
    ensures
        store.refusal(Call::ApproveTransaction { tx_id, approver }) == Some(Error::Unauthorized),
        store.after(Call::ApproveTransaction { tx_id, approver }) == store,
{
}

} // verus!
