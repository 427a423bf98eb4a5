use crate::contributions::{balances_agree, paid_by_a_member};
use crate::group::GroupView;
use crate::member::MemberView;
use crate::soundness::{lemma_call_keeps_records, records_sound};
use crate::state::{Call, StoreState};
use crate::totals::totals_agree;
use crate::transaction::TransactionView;
use vstd::prelude::*;

verus! {

/// The later list begins with the earlier one: nothing was taken out of it
/// or moved in it.
pub open spec fn grown_from<A>(later: Seq<A>, earlier: Seq<A>) -> bool {
    &&& earlier.len() <= later.len()
    &&& forall|i: int| 0 <= i < earlier.len() ==> later[i] == earlier[i]
}

/// The group is the same group later on: identifier and owner are as they
/// were, the total has not fallen, and the members have only been added to.
pub open spec fn same_group_later(earlier: GroupView, later: GroupView) -> bool {
    &&& later.group_id == earlier.group_id
    &&& later.owner == earlier.owner
    &&& earlier.total_amount <= later.total_amount
    &&& grown_from(later.members, earlier.members)
}

/// The member is the same member later on: user identifier and address are
/// as they were, and every balance is still there.
pub open spec fn same_member_later(earlier: MemberView, later: MemberView) -> bool {
    &&& later.user_id == earlier.user_id
    &&& later.address == earlier.address
    &&& forall|group_id: u64| #[trigger]
        earlier.group_balances.contains_key(group_id) ==> later.group_balances.contains_key(
            group_id,
        )
}

/// The transaction is the same transaction later on: all is as it was
/// recorded, and the approvals have only been added to.
pub open spec fn same_transaction_later(earlier: TransactionView, later: TransactionView) -> bool {
    &&& later.id == earlier.id
    &&& later.user_id == earlier.user_id
    &&& later.group_id == earlier.group_id
    &&& later.amount == earlier.amount
    &&& later.proof_ref == earlier.proof_ref
    &&& grown_from(later.approvals, earlier.approvals)
}

/// The later store carries the earlier one on: no record is gone, each is
/// the same record later on, no counter has fallen, and the list of all
/// groups has only been added to.
pub open spec fn carried_on(earlier: StoreState, later: StoreState) -> bool {
    &&& forall|group_id: u64| #[trigger]
        earlier.groups.contains_key(group_id) ==> later.groups.contains_key(group_id)
            && same_group_later(earlier.groups[group_id], later.groups[group_id])
    &&& forall|user_id: Seq<char>| #[trigger]
        earlier.members.contains_key(user_id) ==> later.members.contains_key(user_id)
            && same_member_later(earlier.members[user_id], later.members[user_id])
    &&& forall|tx_id: u64| #[trigger]
        earlier.transactions.contains_key(tx_id) ==> later.transactions.contains_key(tx_id)
            && same_transaction_later(earlier.transactions[tx_id], later.transactions[tx_id])
    &&& earlier.last_group_id <= later.last_group_id
    &&& earlier.last_transaction_id <= later.last_transaction_id
    &&& grown_from(later.group_list, earlier.group_list)
}

/// What carries on a store that carries on another carries on that other.
pub proof fn lemma_carried_on_twice(first: StoreState, second: StoreState, third: StoreState)
    requires
        carried_on(first, second),
        carried_on(second, third),
    ensures
        carried_on(first, third),
{
    assert forall|group_id: u64| #[trigger]
        first.groups.contains_key(group_id) implies third.groups.contains_key(group_id)
        && same_group_later(first.groups[group_id], third.groups[group_id]) by {
        assert(second.groups.contains_key(group_id));
    }
    assert forall|user_id: Seq<char>| #[trigger]
        first.members.contains_key(user_id) implies third.members.contains_key(user_id)
        && same_member_later(first.members[user_id], third.members[user_id]) by {
        assert(second.members.contains_key(user_id));
        assert forall|group_id: u64| #[trigger]
            first.members[user_id].group_balances.contains_key(
                group_id,
            ) implies third.members[user_id].group_balances.contains_key(group_id) by {
            assert(second.members[user_id].group_balances.contains_key(group_id));
        }
    }
    assert forall|tx_id: u64| #[trigger]
        first.transactions.contains_key(tx_id) implies third.transactions.contains_key(tx_id)
        && same_transaction_later(first.transactions[tx_id], third.transactions[tx_id]) by {
        assert(second.transactions.contains_key(tx_id));
    }
}

/// No call takes a record away or changes what a record was created with:
/// the store after a call carries on the store before it.
pub proof fn lemma_call_carries_on(store: StoreState, call: Call)
    requires
        records_sound(store),
    ensures
        carried_on(store, store.after(call)),
{
    if store.refusal(call).is_none() {
        match call {
            Call::CreateGroup { owner } => {
                assert(!store.groups.contains_key((store.last_group_id + 1) as u64));
            },
            Call::CreateMember { user_id, address } => {},
            Call::AddMemberToGroup { group_id, user_id, caller } => {},
            Call::AddTransaction { user_id, group_id, amount, proof_ref } => {
                assert(!store.transactions.contains_key((store.last_transaction_id + 1) as u64));
            },
            Call::ApproveTransaction { tx_id, approver } => {},
        }
    }
}

/// No sequence of calls takes a record away or changes what a record was
/// created with: groups, members and transactions are created once and
/// stay, totals and counters never fall, and lists only grow.
pub proof fn lemma_calls_carry_on(store: StoreState, calls: Seq<Call>)
    requires
        records_sound(store),
    ensures
        records_sound(store.after_all(calls)),
        carried_on(store, store.after_all(calls)),
    decreases calls.len(),
{
    if calls.len() > 0 {
        let middle = store.after_all(calls.drop_last());
        lemma_calls_carry_on(store, calls.drop_last());
        lemma_call_keeps_records(middle, calls.last());
        lemma_call_carries_on(middle, calls.last());
        lemma_carried_on_twice(store, middle, middle.after(calls.last()));
    }
}

/// A member's balance in a group never falls, as long as only members of a
/// group pay into it.
pub proof fn lemma_balance_never_falls(
    store: StoreState,
    call: Call,
    user_id: Seq<char>,
    group_id: u64,
)
    requires
        totals_agree(store),
        balances_agree(store),
        paid_by_a_member(store, call),
        store.members.contains_key(user_id),
        store.members[user_id].group_balances.contains_key(group_id),
    ensures
        store.after(call).members.contains_key(user_id),
        store.after(call).members[user_id].group_balances.contains_key(group_id),
        store.members[user_id].group_balances[group_id] <= store.after(
            call,
        ).members[user_id].group_balances[group_id],
{
    assert(store.groups.contains_key(group_id) && store.groups[group_id].members.contains(user_id));
}

} // verus!
