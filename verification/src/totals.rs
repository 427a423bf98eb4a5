use crate::state::{empty_store, Call, StoreState};
use crate::transaction::TransactionView;
use vstd::prelude::*;

verus! {

/// The transactions that go to the group.
pub open spec fn to_group(group_id: u64) -> spec_fn(TransactionView) -> bool {
    |tx: TransactionView| tx.group_id == group_id
}

/// The transactions that the user made to the group.
pub open spec fn by_user_to_group(user_id: Seq<char>, group_id: u64) -> spec_fn(
    TransactionView,
) -> bool {
    |tx: TransactionView| tx.user_id == user_id && tx.group_id == group_id
}

/// What the transaction stored under `id` adds to a sum over the wanted
/// transactions: its amount where one is stored there and is wanted, else
/// nothing.
pub open spec fn counted(
    transactions: Map<u64, TransactionView>,
    id: nat,
    wanted: spec_fn(TransactionView) -> bool,
) -> nat {
    if id <= u64::MAX && transactions.contains_key(id as u64) && wanted(transactions[id as u64]) {
        transactions[id as u64].amount as nat
    } else {
        0
    }
}

/// The sum of the amounts of the wanted transactions among those stored
/// under the identifiers from 1 to `upto`.
pub open spec fn sum_of(
    transactions: Map<u64, TransactionView>,
    upto: nat,
    wanted: spec_fn(TransactionView) -> bool,
) -> nat
    decreases upto,
{
    if upto == 0 {
        0
    } else {
        sum_of(transactions, (upto - 1) as nat, wanted) + counted(transactions, upto, wanted)
    }
}

/// Two stores of transactions that count the same under each identifier
/// up to `upto` have the same sum.
pub proof fn lemma_same_counts_same_sum(
    first: Map<u64, TransactionView>,
    second: Map<u64, TransactionView>,
    upto: nat,
    wanted: spec_fn(TransactionView) -> bool,
)
    requires
        forall|id: nat| 1 <= id <= upto ==> counted(first, id, wanted) == counted(second, id, wanted),
    ensures
        sum_of(first, upto, wanted) == sum_of(second, upto, wanted),
    decreases upto,
{
    if upto > 0 {
        lemma_same_counts_same_sum(first, second, (upto - 1) as nat, wanted);
        assert(counted(first, upto, wanted) == counted(second, upto, wanted));
    }
}

/// Where no wanted transaction is stored, the sum is nothing.
pub proof fn lemma_nothing_wanted_sums_to_zero(
    transactions: Map<u64, TransactionView>,
    upto: nat,
    wanted: spec_fn(TransactionView) -> bool,
)
    requires
        forall|id: u64| transactions.contains_key(id) ==> !wanted(transactions[id]),
    ensures
        sum_of(transactions, upto, wanted) == 0,
    decreases upto,
{
    if upto > 0 {
        lemma_nothing_wanted_sums_to_zero(transactions, (upto - 1) as nat, wanted);
    }
}

/// A transaction stored under the next identifier adds its amount to the
/// sum where it is wanted, and nothing where it is not.
pub proof fn lemma_sum_with_next(
    transactions: Map<u64, TransactionView>,
    upto: nat,
    tx: TransactionView,
    wanted: spec_fn(TransactionView) -> bool,
)
    requires
        upto < u64::MAX,
    ensures
        sum_of(transactions.insert((upto + 1) as u64, tx), upto + 1, wanted) == sum_of(
            transactions,
            upto,
            wanted,
        ) + (if wanted(tx) {
            tx.amount as nat
        } else {
            0
        }),
{
    let longer = transactions.insert((upto + 1) as u64, tx);
    assert forall|id: nat| 1 <= id <= upto implies counted(longer, id, wanted) == counted(
        transactions,
        id,
        wanted,
    ) by {}
    lemma_same_counts_same_sum(longer, transactions, upto, wanted);
}

/// The books agree on the groups: every group and every transaction has an
/// identifier that was given out, every transaction goes to a group that
/// exists, and each group's total is the sum of the amounts of the
/// transactions that go to it.
pub open spec fn totals_agree(store: StoreState) -> bool {
    &&& forall|group_id: u64| #[trigger]
        store.groups.contains_key(group_id) ==> 1 <= group_id <= store.last_group_id
    &&& forall|tx_id: u64| #[trigger]
        store.transactions.contains_key(tx_id) ==> 1 <= tx_id <= store.last_transaction_id
    &&& forall|tx_id: u64| #[trigger]
        store.transactions.contains_key(tx_id) ==> store.groups.contains_key(
            store.transactions[tx_id].group_id,
        )
    &&& forall|group_id: u64| #[trigger]
        store.groups.contains_key(group_id) ==> store.groups[group_id].total_amount == sum_of(
            store.transactions,
            store.last_transaction_id as nat,
            to_group(group_id),
        )
}

/// In the empty store the books agree on the groups.
pub proof fn lemma_totals_agree_at_start()
    ensures
        totals_agree(empty_store()),
{
}

/// A call keeps the books on the groups in agreement.
pub proof fn lemma_call_keeps_totals(store: StoreState, call: Call)
    requires
        totals_agree(store),
    ensures
        totals_agree(store.after(call)),
{
    if store.refusal(call).is_none() {
        lemma_accepted_call_keeps_totals(store, call);
    }
}

/// An accepted call keeps the books on the groups in agreement.
proof fn lemma_accepted_call_keeps_totals(store: StoreState, call: Call)
    requires
        totals_agree(store),
        store.refusal(call).is_none(),
    ensures
        totals_agree(store.after(call)),
{
    let next = store.after(call);
    let upto = store.last_transaction_id as nat;
    match call {
        Call::CreateGroup { owner } => {
            let new_id = (store.last_group_id + 1) as u64;
            assert(!store.groups.contains_key(new_id));
            assert forall|group_id: u64| #[trigger]
                next.groups.contains_key(group_id) implies next.groups[group_id].total_amount
                == sum_of(next.transactions, upto, to_group(group_id)) by {
                if group_id == new_id {
                    lemma_nothing_wanted_sums_to_zero(store.transactions, upto, to_group(new_id));
                }
            }
        },
        Call::CreateMember { user_id, address } => {},
        Call::AddMemberToGroup { group_id, user_id, caller } => {},
        Call::AddTransaction { user_id, group_id, amount, proof_ref } => {
            let tx = next.transactions[(upto + 1) as u64];
            assert forall|g: u64| #[trigger]
                next.groups.contains_key(g) implies next.groups[g].total_amount == sum_of(
                next.transactions,
                next.last_transaction_id as nat,
                to_group(g),
            ) by {
                lemma_sum_with_next(store.transactions, upto, tx, to_group(g));
                assert(store.groups.contains_key(g));
            }
        },
        Call::ApproveTransaction { tx_id, approver } => {
            assert forall|g: u64| #[trigger]
                next.groups.contains_key(g) implies next.groups[g].total_amount == sum_of(
                next.transactions,
                upto,
                to_group(g),
            ) by {
                assert forall|id: nat| 1 <= id <= upto implies counted(
                    next.transactions,
                    id,
                    to_group(g),
                ) == counted(store.transactions, id, to_group(g)) by {}
                lemma_same_counts_same_sum(next.transactions, store.transactions, upto, to_group(g));
            }
        },
    }
}

/// After any sequence of calls on a store whose books agree on the groups,
/// they still agree: each group's total is the sum of the amounts of all
/// the transactions that go to it.
pub proof fn lemma_calls_keep_totals(store: StoreState, calls: Seq<Call>)
    requires
        totals_agree(store),
    ensures
        totals_agree(store.after_all(calls)),
    decreases calls.len(),
{
    if calls.len() > 0 {
        lemma_calls_keep_totals(store, calls.drop_last());
        lemma_call_keeps_totals(store.after_all(calls.drop_last()), calls.last());
    }
}

/// After any sequence of calls on the empty store, each group's total is
/// the sum of the amounts of all the transactions that go to it.
pub proof fn lemma_group_total_is_sum_of_transactions(calls: Seq<Call>, group_id: u64)
    requires
        empty_store().after_all(calls).groups.contains_key(group_id),
    ensures
        empty_store().after_all(calls).groups[group_id].total_amount == sum_of(
            empty_store().after_all(calls).transactions,
            empty_store().after_all(calls).last_transaction_id as nat,
            to_group(group_id),
        ),
        forall|tx_id: u64| #[trigger]
            empty_store().after_all(calls).transactions.contains_key(tx_id) ==> 1 <= tx_id
                <= empty_store().after_all(calls).last_transaction_id,
{
    lemma_totals_agree_at_start();
    lemma_calls_keep_totals(empty_store(), calls);
}

} // verus!
