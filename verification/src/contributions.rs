use crate::member::balance_or_zero;
use crate::state::{empty_store, Call, StoreState};
use crate::totals::{by_user_to_group, counted, lemma_call_keeps_totals, lemma_nothing_wanted_sums_to_zero, lemma_same_counts_same_sum, lemma_sum_with_next, sum_of, totals_agree};
use vstd::prelude::*;

verus! {

/// The call, where it is an accepted `add_transaction`, is made by a member
/// of the group that it pays into.
pub open spec fn paid_by_a_member(store: StoreState, call: Call) -> bool {
    match call {
        Call::AddTransaction { user_id, group_id, amount, proof_ref } => store.refusal(
            call,
        ).is_none() ==> store.groups[group_id].members.contains(user_id),
        _ => true,
    }
}

/// Every accepted `add_transaction` of the sequence is made by a member of
/// the group that it pays into, in the store in which it is made.
pub open spec fn all_paid_by_members(store: StoreState, calls: Seq<Call>) -> bool
    decreases calls.len(),
{
    if calls.len() == 0 {
        true
    } else {
        all_paid_by_members(store, calls.drop_last()) && paid_by_a_member(
            store.after_all(calls.drop_last()),
            calls.last(),
        )
    }
}

/// The books agree on the members: the members of every group and the
/// contributors of every transaction are registered, a member has a
/// balance in a group exactly when the member has joined that group, and
/// that balance is the sum of the amounts of the transactions that the
/// member made to the group.
pub open spec fn balances_agree(store: StoreState) -> bool {
    &&& forall|group_id: u64, user_id: Seq<char>|
        #![trigger store.groups[group_id].members.contains(user_id)]
        store.groups.contains_key(group_id) && store.groups[group_id].members.contains(user_id)
            ==> store.members.contains_key(user_id)
    &&& forall|tx_id: u64| #[trigger]
        store.transactions.contains_key(tx_id) ==> store.members.contains_key(
            store.transactions[tx_id].user_id,
        )
    &&& forall|user_id: Seq<char>, group_id: u64|
        #![trigger store.members[user_id].group_balances.contains_key(group_id)]
        store.members.contains_key(user_id) ==> (store.members[user_id].group_balances.contains_key(
            group_id,
        ) <==> store.groups.contains_key(group_id) && store.groups[group_id].members.contains(
            user_id,
        ))
    &&& forall|user_id: Seq<char>, group_id: u64|
        #![trigger balance_or_zero(store.members[user_id].group_balances, group_id)]
        store.members.contains_key(user_id) ==> balance_or_zero(
            store.members[user_id].group_balances,
            group_id,
        ) == sum_of(
            store.transactions,
            store.last_transaction_id as nat,
            by_user_to_group(user_id, group_id),
        )
}

/// In the empty store the books agree on the members.
pub proof fn lemma_balances_agree_at_start()
    ensures
        balances_agree(empty_store()),
{
}

/// Appending an item to a list adds that item to what the list contains,
/// and nothing else.
proof fn lemma_push_contains(list: Seq<Seq<char>>, added: Seq<char>, wanted: Seq<char>)
    ensures
        list.push(added).contains(wanted) <==> list.contains(wanted) || wanted == added,
{
    if list.contains(wanted) {
        let i = choose|i: int| 0 <= i < list.len() && list[i] == wanted;
        assert(list.push(added)[i] == wanted);
    }
    if wanted == added {
        assert(list.push(added)[list.len() as int] == wanted);
    }
    if list.push(added).contains(wanted) {
        let i = choose|i: int| 0 <= i < list.push(added).len() && list.push(added)[i] == wanted;
        if i < list.len() {
            assert(list[i] == wanted);
        }
    }
}

/// Creating a group keeps the books on the members in agreement.
proof fn lemma_create_group_keeps_balances(store: StoreState, owner: Seq<char>)
    requires
        totals_agree(store),
        balances_agree(store),
        store.create_group_error().is_none(),
    ensures
        balances_agree(store.create_group(owner)),
{
    let next = store.create_group(owner);
    let new_id = (store.last_group_id + 1) as u64;
    assert(!store.groups.contains_key(new_id));
    assert(next.groups[new_id].members =~= Seq::<Seq<char>>::empty());
    assert forall|user_id: Seq<char>, group_id: u64|
        #![trigger next.members[user_id].group_balances.contains_key(group_id)]
        next.members.contains_key(user_id) implies (next.members[user_id].group_balances.contains_key(
        group_id,
    ) <==> next.groups.contains_key(group_id) && next.groups[group_id].members.contains(
        user_id,
    )) by {
        assert(store.members[user_id].group_balances.contains_key(group_id) <==> store.groups.contains_key(
            group_id,
        ) && store.groups[group_id].members.contains(user_id));
    }
}

/// Registering a member keeps the books on the members in agreement.
proof fn lemma_create_member_keeps_balances(store: StoreState, user_id: Seq<char>, address: Seq<char>)
    requires
        totals_agree(store),
        balances_agree(store),
        store.create_member_error(user_id).is_none(),
    ensures
        balances_agree(store.create_member(user_id, address)),
{
    let next = store.create_member(user_id, address);
    let upto = store.last_transaction_id as nat;
    assert forall|u: Seq<char>, g: u64|
        #![trigger next.members[u].group_balances.contains_key(g)]
        next.members.contains_key(u) implies (next.members[u].group_balances.contains_key(g)
        <==> next.groups.contains_key(g) && next.groups[g].members.contains(u)) by {
        if u == user_id {
            if store.groups.contains_key(g) && store.groups[g].members.contains(u) {
                assert(store.members.contains_key(u));
            }
        } else {
            assert(store.members[u].group_balances.contains_key(g) <==> store.groups.contains_key(g)
                && store.groups[g].members.contains(u));
        }
    }
    assert forall|u: Seq<char>, g: u64|
        #![trigger balance_or_zero(next.members[u].group_balances, g)]
        next.members.contains_key(u) implies balance_or_zero(next.members[u].group_balances, g)
        == sum_of(next.transactions, upto, by_user_to_group(u, g)) by {
        if u == user_id {
            assert forall|id: u64| store.transactions.contains_key(id) implies !by_user_to_group(
                u,
                g,
            )(store.transactions[id]) by {
                assert(store.members.contains_key(store.transactions[id].user_id));
            }
            lemma_nothing_wanted_sums_to_zero(store.transactions, upto, by_user_to_group(u, g));
        } else {
            assert(balance_or_zero(store.members[u].group_balances, g) == sum_of(
                store.transactions,
                upto,
                by_user_to_group(u, g),
            ));
        }
    }
}

/// Letting a user join a group keeps the books on the members in
/// agreement.
proof fn lemma_add_member_keeps_balances(
    store: StoreState,
    group_id: u64,
    user_id: Seq<char>,
    caller: Seq<char>,
)
    requires
        totals_agree(store),
        balances_agree(store),
        store.add_member_error(group_id, user_id, caller).is_none(),
    ensures
        balances_agree(store.add_member_to_group(group_id, user_id)),
{
    let next = store.add_member_to_group(group_id, user_id);
    let upto = store.last_transaction_id as nat;
    let before = store.groups[group_id].members;
    assert forall|g: u64, u: Seq<char>|
        #![trigger next.groups[g].members.contains(u)]
        next.groups.contains_key(g) && next.groups[g].members.contains(u)
            implies next.members.contains_key(u) by {
        if g == group_id {
            lemma_push_contains(before, user_id, u);
            if u != user_id {
                assert(store.groups[g].members.contains(u));
            }
        } else {
            assert(store.groups[g].members.contains(u));
        }
    }
    assert forall|u: Seq<char>, g: u64|
        #![trigger next.members[u].group_balances.contains_key(g)]
        next.members.contains_key(u) implies (next.members[u].group_balances.contains_key(g)
        <==> next.groups.contains_key(g) && next.groups[g].members.contains(u)) by {
        assert(store.members[u].group_balances.contains_key(g) <==> store.groups.contains_key(g)
            && store.groups[g].members.contains(u));
        if g == group_id {
            lemma_push_contains(before, user_id, u);
        }
    }
    assert forall|u: Seq<char>, g: u64|
        #![trigger balance_or_zero(next.members[u].group_balances, g)]
        next.members.contains_key(u) implies balance_or_zero(next.members[u].group_balances, g)
        == sum_of(next.transactions, upto, by_user_to_group(u, g)) by {
        assert(balance_or_zero(store.members[u].group_balances, g) == sum_of(
            store.transactions,
            upto,
            by_user_to_group(u, g),
        ));
        if u == user_id && g == group_id {
            assert(store.members[u].group_balances.contains_key(g) <==> store.groups.contains_key(g)
                && store.groups[g].members.contains(u));
        }
    }
}

/// Recording a contribution of a member of the group keeps the books on
/// the members in agreement.
proof fn lemma_add_transaction_keeps_balances(
    store: StoreState,
    user_id: Seq<char>,
    group_id: u64,
    amount: u64,
    proof_ref: Seq<char>,
)
    requires
        totals_agree(store),
        balances_agree(store),
        store.add_transaction_error(user_id, group_id, amount).is_none(),
        store.groups[group_id].members.contains(user_id),
    ensures
        balances_agree(store.add_transaction(user_id, group_id, amount, proof_ref)),
{
    let next = store.add_transaction(user_id, group_id, amount, proof_ref);
    let upto = store.last_transaction_id as nat;
    let tx = next.transactions[(upto + 1) as u64];
    assert forall|g: u64, u: Seq<char>|
        #![trigger next.groups[g].members.contains(u)]
        next.groups.contains_key(g) && next.groups[g].members.contains(u)
            implies next.members.contains_key(u) by {
        assert(store.groups[g].members.contains(u));
    }
    assert forall|u: Seq<char>, g: u64|
        #![trigger next.members[u].group_balances.contains_key(g)]
        next.members.contains_key(u) implies (next.members[u].group_balances.contains_key(g)
        <==> next.groups.contains_key(g) && next.groups[g].members.contains(u)) by {
        assert(store.members[u].group_balances.contains_key(g) <==> store.groups.contains_key(g)
            && store.groups[g].members.contains(u));
    }
    assert forall|u: Seq<char>, g: u64|
        #![trigger balance_or_zero(next.members[u].group_balances, g)]
        next.members.contains_key(u) implies balance_or_zero(next.members[u].group_balances, g)
        == sum_of(next.transactions, next.last_transaction_id as nat, by_user_to_group(u, g)) by {
        assert(balance_or_zero(store.members[u].group_balances, g) == sum_of(
            store.transactions,
            upto,
            by_user_to_group(u, g),
        ));
        lemma_sum_with_next(store.transactions, upto, tx, by_user_to_group(u, g));
    }
}

/// Approving a transaction keeps the books on the members in agreement.
proof fn lemma_approve_keeps_balances(store: StoreState, tx_id: u64, approver: Seq<char>)
    requires
        totals_agree(store),
        balances_agree(store),
        store.approve_error(tx_id, approver).is_none(),
    ensures
        balances_agree(store.approve_transaction(tx_id, approver)),
{
    let next = store.approve_transaction(tx_id, approver);
    let upto = store.last_transaction_id as nat;
    assert forall|u: Seq<char>, g: u64|
        #![trigger balance_or_zero(next.members[u].group_balances, g)]
        next.members.contains_key(u) implies balance_or_zero(next.members[u].group_balances, g)
        == sum_of(next.transactions, upto, by_user_to_group(u, g)) by {
        assert(balance_or_zero(store.members[u].group_balances, g) == sum_of(
            store.transactions,
            upto,
            by_user_to_group(u, g),
        ));
        assert forall|id: nat| 1 <= id <= upto implies counted(
            next.transactions,
            id,
            by_user_to_group(u, g),
        ) == counted(store.transactions, id, by_user_to_group(u, g)) by {}
        lemma_same_counts_same_sum(
            next.transactions,
            store.transactions,
            upto,
            by_user_to_group(u, g),
        );
    }
}

/// A call keeps the books on the members in agreement, unless it is an
/// accepted `add_transaction` of someone who is not a member of the group.
pub proof fn lemma_call_keeps_balances(store: StoreState, call: Call)
    requires
        totals_agree(store),
        balances_agree(store),
        paid_by_a_member(store, call),
    ensures
        balances_agree(store.after(call)),
{
    if store.refusal(call).is_none() {
        match call {
            Call::CreateGroup { owner } => {
                lemma_create_group_keeps_balances(store, owner);
            },
            Call::CreateMember { user_id, address } => {
                lemma_create_member_keeps_balances(store, user_id, address);
            },
            Call::AddMemberToGroup { group_id, user_id, caller } => {
                lemma_add_member_keeps_balances(store, group_id, user_id, caller);
            },
            Call::AddTransaction { user_id, group_id, amount, proof_ref } => {
                lemma_add_transaction_keeps_balances(store, user_id, group_id, amount, proof_ref);
            },
            Call::ApproveTransaction { tx_id, approver } => {
                lemma_approve_keeps_balances(store, tx_id, approver);
            },
        }
    }
}

/// After any sequence of calls in which only members of a group pay into
/// it, on a store whose books agree, the books still agree on the members.
pub proof fn lemma_calls_keep_balances(store: StoreState, calls: Seq<Call>)
    requires
        totals_agree(store),
        balances_agree(store),
        all_paid_by_members(store, calls),
    ensures
        totals_agree(store.after_all(calls)),
        balances_agree(store.after_all(calls)),
    decreases calls.len(),
{
    if calls.len() > 0 {
        lemma_calls_keep_balances(store, calls.drop_last());
        lemma_call_keeps_totals(store.after_all(calls.drop_last()), calls.last());
        lemma_call_keeps_balances(store.after_all(calls.drop_last()), calls.last());
    }
}

/// After any sequence of calls on the empty store in which only members of
/// a group pay into it, a member has a balance in a group exactly when the
/// member has joined it, and the balance is the sum of the amounts of the
/// transactions that the member made to the group.
pub proof fn lemma_balance_is_sum_of_contributions(
    calls: Seq<Call>,
    user_id: Seq<char>,
    group_id: u64,
)
    requires
        all_paid_by_members(empty_store(), calls),
        empty_store().after_all(calls).members.contains_key(user_id),
    ensures
        empty_store().after_all(calls).members[user_id].group_balances.contains_key(group_id) <==> (
        empty_store().after_all(calls).groups.contains_key(group_id) && empty_store().after_all(
            calls,
        ).groups[group_id].members.contains(user_id)),
        balance_or_zero(empty_store().after_all(calls).members[user_id].group_balances, group_id)
            == sum_of(
            empty_store().after_all(calls).transactions,
            empty_store().after_all(calls).last_transaction_id as nat,
            by_user_to_group(user_id, group_id),
        ),
{
    lemma_balances_agree_at_start();
    lemma_calls_keep_balances(empty_store(), calls);
    let end = empty_store().after_all(calls);
    assert(end.members[user_id].group_balances.contains_key(group_id) <==> end.groups.contains_key(
        group_id,
    ) && end.groups[group_id].members.contains(user_id));
    assert(balance_or_zero(end.members[user_id].group_balances, group_id) == sum_of(
        end.transactions,
        end.last_transaction_id as nat,
        by_user_to_group(user_id, group_id),
    ));
}

} // verus!
