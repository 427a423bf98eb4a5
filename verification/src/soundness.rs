use crate::group::fresh_group;
use crate::state::{empty_store, Call, StoreState};
use vstd::prelude::*;

verus! {

/// Every record is stored under its own identifier.
pub open spec fn stored_under_own_id(store: StoreState) -> bool {
    &&& forall|group_id: u64| #[trigger]
        store.groups.contains_key(group_id) ==> store.groups[group_id].group_id == group_id
    &&& forall|user_id: Seq<char>| #[trigger]
        store.members.contains_key(user_id) ==> store.members[user_id].user_id == user_id
    &&& forall|tx_id: u64| #[trigger]
        store.transactions.contains_key(tx_id) ==> store.transactions[tx_id].id == tx_id
}

/// The identifiers in use are those that the counters have given out: the
/// groups stand under 1 to the last group identifier, the transactions
/// under 1 to the last transaction identifier.
pub open spec fn ids_given_out(store: StoreState) -> bool {
    &&& forall|group_id: u64| #[trigger]
        store.groups.contains_key(group_id) <==> 1 <= group_id <= store.last_group_id
    &&& forall|tx_id: u64| #[trigger]
        store.transactions.contains_key(tx_id) <==> 1 <= tx_id <= store.last_transaction_id
}

/// The list of all groups holds each group as it was created, in the order
/// of the identifiers.
pub open spec fn groups_listed(store: StoreState) -> bool {
    &&& store.group_list.len() == store.last_group_id
    &&& forall|i: int|
        0 <= i < store.group_list.len() ==> #[trigger] store.group_list[i] == fresh_group(
            (i + 1) as u64,
            store.groups[(i + 1) as u64].owner,
        )
}

/// No user stands twice among the members of a group or among the
/// approvals of a transaction, and whoever approved a transaction is a
/// member of the group that the transaction goes to.
pub open spec fn lists_sound(store: StoreState) -> bool {
    &&& forall|group_id: u64| #[trigger]
        store.groups.contains_key(group_id) ==> store.groups[group_id].members.no_duplicates()
    &&& forall|tx_id: u64| #[trigger]
        store.transactions.contains_key(tx_id) ==> store.transactions[tx_id].approvals.no_duplicates()
    &&& forall|tx_id: u64, approver: Seq<char>|
        #![trigger store.transactions[tx_id].approvals.contains(approver)]
        store.transactions.contains_key(tx_id) && store.transactions[tx_id].approvals.contains(
            approver,
        ) ==> store.groups.contains_key(store.transactions[tx_id].group_id)
            && store.groups[store.transactions[tx_id].group_id].members.contains(approver)
}

/// The records are sound: each stands under its own identifier, the
/// identifiers are those given out, the list of all groups matches the
/// groups, and the lists inside the records are sound.
pub open spec fn records_sound(store: StoreState) -> bool {
    &&& stored_under_own_id(store)
    &&& ids_given_out(store)
    &&& groups_listed(store)
    &&& lists_sound(store)
}

/// In the empty store the records are sound.
pub proof fn lemma_records_sound_at_start()
    ensures
        records_sound(empty_store()),
{
}

/// Appending an item that a list without repetition does not hold leaves
/// it without repetition, and adds that item to what it contains.
proof fn lemma_push_new(list: Seq<Seq<char>>, added: Seq<char>)
    requires
        list.no_duplicates(),
        !list.contains(added),
    ensures
        list.push(added).no_duplicates(),
        forall|wanted: Seq<char>|
            list.contains(wanted) ==> #[trigger] list.push(added).contains(wanted),
        list.push(added).contains(added),
{
    let longer = list.push(added);
    assert forall|i: int, j: int|
        0 <= i < longer.len() && 0 <= j < longer.len() && i != j implies longer[i]
        != longer[j] by {
        if i < list.len() && j < list.len() {
            assert(list[i] != list[j]);
        } else if i < list.len() {
            assert(list.contains(list[i]));
        } else {
            assert(list.contains(list[j]));
        }
    }
    assert forall|wanted: Seq<char>| list.contains(wanted) implies #[trigger] longer.contains(
        wanted,
    ) by {
        let i = choose|i: int| 0 <= i < list.len() && list[i] == wanted;
        assert(longer[i] == wanted);
    }
    assert(longer[list.len() as int] == added);
}

/// Creating a group keeps the records sound.
proof fn lemma_create_group_keeps_records(store: StoreState, owner: Seq<char>)
    requires
        records_sound(store),
        store.create_group_error().is_none(),
    ensures
        records_sound(store.create_group(owner)),
{
    let next = store.create_group(owner);
    let new_id = (store.last_group_id + 1) as u64;
    assert(!store.groups.contains_key(new_id));
    assert(next.groups[new_id].members =~= Seq::<Seq<char>>::empty());
    assert forall|i: int| 0 <= i < next.group_list.len() implies #[trigger] next.group_list[i]
        == fresh_group((i + 1) as u64, next.groups[(i + 1) as u64].owner) by {
        if i < store.group_list.len() {
            assert(next.group_list[i] == store.group_list[i]);
            assert(store.groups.contains_key((i + 1) as u64));
        }
    }
    assert forall|tx_id: u64, approver: Seq<char>|
        #![trigger next.transactions[tx_id].approvals.contains(approver)]
        next.transactions.contains_key(tx_id) && next.transactions[tx_id].approvals.contains(
            approver,
        ) implies next.groups.contains_key(next.transactions[tx_id].group_id)
        && next.groups[next.transactions[tx_id].group_id].members.contains(approver) by {
        assert(store.transactions[tx_id].approvals.contains(approver));
    }
}

/// Letting a user join a group keeps the records sound.
proof fn lemma_add_member_keeps_records(
    store: StoreState,
    group_id: u64,
    user_id: Seq<char>,
    caller: Seq<char>,
)
    requires
        records_sound(store),
        store.add_member_error(group_id, user_id, caller).is_none(),
    ensures
        records_sound(store.add_member_to_group(group_id, user_id)),
{
    let next = store.add_member_to_group(group_id, user_id);
    lemma_push_new(store.groups[group_id].members, user_id);
    assert forall|i: int| 0 <= i < next.group_list.len() implies #[trigger] next.group_list[i]
        == fresh_group((i + 1) as u64, next.groups[(i + 1) as u64].owner) by {
        assert(next.group_list[i] == store.group_list[i]);
    }
    assert forall|tx_id: u64, approver: Seq<char>|
        #![trigger next.transactions[tx_id].approvals.contains(approver)]
        next.transactions.contains_key(tx_id) && next.transactions[tx_id].approvals.contains(
            approver,
        ) implies next.groups.contains_key(next.transactions[tx_id].group_id)
        && next.groups[next.transactions[tx_id].group_id].members.contains(approver) by {
        assert(store.transactions[tx_id].approvals.contains(approver));
    }
}

/// Recording a contribution keeps the records sound.
proof fn lemma_add_transaction_keeps_records(
    store: StoreState,
    user_id: Seq<char>,
    group_id: u64,
    amount: u64,
    proof_ref: Seq<char>,
)
    requires
        records_sound(store),
        store.add_transaction_error(user_id, group_id, amount).is_none(),
    ensures
        records_sound(store.add_transaction(user_id, group_id, amount, proof_ref)),
{
    let next = store.add_transaction(user_id, group_id, amount, proof_ref);
    let new_id = (store.last_transaction_id + 1) as u64;
    assert(!store.transactions.contains_key(new_id));
    assert(next.transactions[new_id].approvals =~= Seq::<Seq<char>>::empty());
    assert forall|i: int| 0 <= i < next.group_list.len() implies #[trigger] next.group_list[i]
        == fresh_group((i + 1) as u64, next.groups[(i + 1) as u64].owner) by {
        assert(next.group_list[i] == store.group_list[i]);
    }
    assert forall|tx_id: u64, approver: Seq<char>|
        #![trigger next.transactions[tx_id].approvals.contains(approver)]
        next.transactions.contains_key(tx_id) && next.transactions[tx_id].approvals.contains(
            approver,
        ) implies next.groups.contains_key(next.transactions[tx_id].group_id)
        && next.groups[next.transactions[tx_id].group_id].members.contains(approver) by {
        if tx_id != new_id {
            assert(store.transactions[tx_id].approvals.contains(approver));
        }
    }
}

/// Approving a transaction keeps the records sound.
proof fn lemma_approve_keeps_records(store: StoreState, tx_id: u64, approver: Seq<char>)
    requires
        records_sound(store),
        store.approve_error(tx_id, approver).is_none(),
    ensures
        records_sound(store.approve_transaction(tx_id, approver)),
{
    let next = store.approve_transaction(tx_id, approver);
    let before = store.transactions[tx_id].approvals;
    if !before.contains(approver) {
        lemma_push_new(before, approver);
    }
    assert forall|t: u64, a: Seq<char>|
        #![trigger next.transactions[t].approvals.contains(a)]
        next.transactions.contains_key(t) && next.transactions[t].approvals.contains(a)
            implies next.groups.contains_key(next.transactions[t].group_id)
        && next.groups[next.transactions[t].group_id].members.contains(a) by {
        if t == tx_id && !before.contains(approver) {
            if a != approver {
                let i = choose|i: int|
                    0 <= i < before.push(approver).len() && before.push(approver)[i] == a;
                assert(before[i] == a);
                assert(store.transactions[t].approvals.contains(a));
            }
        } else {
            assert(store.transactions[t].approvals.contains(a));
        }
    }
}

/// A call keeps the records sound.
pub proof fn lemma_call_keeps_records(store: StoreState, call: Call)
    requires
        records_sound(store),
    ensures
        records_sound(store.after(call)),
{
    if store.refusal(call).is_none() {
        match call {
            Call::CreateGroup { owner } => {
                lemma_create_group_keeps_records(store, owner);
            },
            Call::CreateMember { user_id, address } => {},
            Call::AddMemberToGroup { group_id, user_id, caller } => {
                lemma_add_member_keeps_records(store, group_id, user_id, caller);
            },
            Call::AddTransaction { user_id, group_id, amount, proof_ref } => {
                lemma_add_transaction_keeps_records(store, user_id, group_id, amount, proof_ref);
            },
            Call::ApproveTransaction { tx_id, approver } => {
                lemma_approve_keeps_records(store, tx_id, approver);
            },
        }
    }
}

/// After any sequence of calls on a store with sound records, the records
/// are sound.
pub proof fn lemma_calls_keep_records(store: StoreState, calls: Seq<Call>)
    requires
        records_sound(store),
    ensures
        records_sound(store.after_all(calls)),
    decreases calls.len(),
{
    if calls.len() > 0 {
        lemma_calls_keep_records(store, calls.drop_last());
        lemma_call_keeps_records(store.after_all(calls.drop_last()), calls.last());
    }
}

/// After any sequence of calls on the empty store, the records are sound.
pub proof fn lemma_records_sound_after_calls(calls: Seq<Call>)
    ensures
        records_sound(empty_store().after_all(calls)),
{
    lemma_records_sound_at_start();
    lemma_calls_keep_records(empty_store(), calls);
}

} // verus!
