use group_ledger::error::Error;
use group_ledger::identity::{Address, Symbol};
use group_ledger::ledger::MappingContract;
use group_ledger::repository::Contract;
use group_ledger::store::Store;

fn sym(text: &str) -> Symbol {
    Symbol::new(text)
}

fn addr(key: &str) -> Address {
    Address::new(key)
}

fn approvals_of(store: &Store, tx_id: u64) -> Vec<String> {
    let tx = Contract::get_transaction(store, tx_id).unwrap();
    tx.approvals().iter().map(|s| s.as_str().to_string()).collect()
}

#[test]
fn scenario_group_member_transaction_approval() {
    let mut store = Store::new();
    let g = MappingContract::create_group(&mut store, addr("O")).unwrap();
    assert_eq!(g, 1);
    assert_eq!(MappingContract::create_member(&mut store, sym("M"), addr("A")), Ok(()));
    assert_eq!(MappingContract::add_member_to_group(&mut store, g, sym("M"), addr("O")), Ok(()));

    let tx = MappingContract::add_transaction(&mut store, sym("M"), g, 100, sym("proofA"));
    assert_eq!(tx, Ok(1));
    assert_eq!(Contract::get_group(&store, g).unwrap().total_amount(), 100);
    assert_eq!(Contract::get_member(&store, &sym("M")).unwrap().balance_in(g), Some(100));

    assert_eq!(MappingContract::approve_transaction(&mut store, 1, sym("M")), Ok(()));
    assert_eq!(approvals_of(&store, 1), vec!["M".to_string()]);

    assert_eq!(MappingContract::approve_transaction(&mut store, 1, sym("M")), Ok(()));
    assert_eq!(approvals_of(&store, 1), vec!["M".to_string()]);

    let before = store.clone();
    assert_eq!(
        MappingContract::approve_transaction(&mut store, 1, sym("stranger")),
        Err(Error::Unauthorized)
    );
    assert_eq!(store, before);
    assert_eq!(approvals_of(&store, 1), vec!["M".to_string()]);
}

#[test]
fn scenario_second_member_with_same_user_id_is_refused() {
    let mut store = Store::new();
    assert_eq!(MappingContract::create_member(&mut store, sym("alice"), addr("addrA")), Ok(()));
    let before = store.clone();
    assert_eq!(
        MappingContract::create_member(&mut store, sym("alice"), addr("addrB")),
        Err(Error::UserIdAlreadyExists)
    );
    assert_eq!(store, before);
    let alice = Contract::get_member(&store, &sym("alice")).unwrap();
    assert_eq!(alice.address().as_str(), "addrA");
}

#[test]
fn group_ids_are_given_out_in_increasing_order() {
    let mut store = Store::new();
    let mut last = 0;
    for k in 1..=5u64 {
        let id = MappingContract::create_group(&mut store, addr("O")).unwrap();
        assert_eq!(id, k);
        assert!(id > last);
        last = id;
        // calls of other operations in between do not disturb the counter
        MappingContract::create_member(&mut store, sym(&format!("u{}", k)), addr("A")).unwrap();
    }
    assert_eq!(store.last_group_id(), 5);
}

#[test]
fn transaction_ids_are_given_out_in_increasing_order() {
    let mut store = Store::new();
    let g = MappingContract::create_group(&mut store, addr("O")).unwrap();
    MappingContract::create_member(&mut store, sym("M"), addr("A")).unwrap();
    MappingContract::add_member_to_group(&mut store, g, sym("M"), addr("O")).unwrap();
    for k in 1..=4u64 {
        let id = MappingContract::add_transaction(&mut store, sym("M"), g, k, sym("p")).unwrap();
        assert_eq!(id, k);
    }
    assert_eq!(store.last_transaction_id(), 4);
}

#[test]
fn group_total_is_the_sum_of_its_transactions() {
    let mut store = Store::new();
    let g1 = MappingContract::create_group(&mut store, addr("O")).unwrap();
    let g2 = MappingContract::create_group(&mut store, addr("P")).unwrap();
    MappingContract::create_member(&mut store, sym("a"), addr("A")).unwrap();
    MappingContract::create_member(&mut store, sym("b"), addr("B")).unwrap();
    MappingContract::add_member_to_group(&mut store, g1, sym("a"), addr("O")).unwrap();
    MappingContract::add_member_to_group(&mut store, g1, sym("b"), addr("O")).unwrap();
    MappingContract::add_member_to_group(&mut store, g2, sym("a"), addr("P")).unwrap();

    MappingContract::add_transaction(&mut store, sym("a"), g1, 10, sym("p1")).unwrap();
    MappingContract::add_transaction(&mut store, sym("b"), g1, 25, sym("p2")).unwrap();
    MappingContract::add_transaction(&mut store, sym("a"), g2, 7, sym("p3")).unwrap();
    MappingContract::add_transaction(&mut store, sym("a"), g1, 0, sym("p4")).unwrap();
    MappingContract::add_transaction(&mut store, sym("a"), g1, 5, sym("p5")).unwrap();

    for g in [g1, g2] {
        let mut sum = 0u64;
        for id in 1..=store.last_transaction_id() {
            let tx = Contract::get_transaction(&store, id).unwrap();
            if tx.group_id() == g {
                sum += tx.amount();
            }
        }
        assert_eq!(Contract::get_group(&store, g).unwrap().total_amount(), sum);
    }
    assert_eq!(Contract::get_group(&store, g1).unwrap().total_amount(), 40);
    assert_eq!(Contract::get_group(&store, g2).unwrap().total_amount(), 7);
}

#[test]
fn member_balance_is_the_sum_of_own_contributions() {
    let mut store = Store::new();
    let g1 = MappingContract::create_group(&mut store, addr("O")).unwrap();
    let g2 = MappingContract::create_group(&mut store, addr("O")).unwrap();
    MappingContract::create_member(&mut store, sym("a"), addr("A")).unwrap();
    MappingContract::create_member(&mut store, sym("b"), addr("B")).unwrap();

    // no balance before joining
    assert_eq!(Contract::get_member(&store, &sym("a")).unwrap().balance_in(g1), None);
    MappingContract::add_member_to_group(&mut store, g1, sym("a"), addr("O")).unwrap();
    assert_eq!(Contract::get_member(&store, &sym("a")).unwrap().balance_in(g1), Some(0));
    assert_eq!(Contract::get_member(&store, &sym("a")).unwrap().balance_in(g2), None);
    MappingContract::add_member_to_group(&mut store, g1, sym("b"), addr("O")).unwrap();
    MappingContract::add_member_to_group(&mut store, g2, sym("a"), addr("O")).unwrap();

    MappingContract::add_transaction(&mut store, sym("a"), g1, 10, sym("p")).unwrap();
    MappingContract::add_transaction(&mut store, sym("b"), g1, 25, sym("p")).unwrap();
    MappingContract::add_transaction(&mut store, sym("a"), g2, 7, sym("p")).unwrap();
    MappingContract::add_transaction(&mut store, sym("a"), g1, 5, sym("p")).unwrap();

    let a = Contract::get_member(&store, &sym("a")).unwrap();
    let b = Contract::get_member(&store, &sym("b")).unwrap();
    assert_eq!(a.balance_in(g1), Some(15));
    assert_eq!(a.balance_in(g2), Some(7));
    assert_eq!(b.balance_in(g1), Some(25));
    assert_eq!(b.balance_in(g2), None);
}

#[test]
fn contribution_without_membership_counts_from_zero() {
    let mut store = Store::new();
    let g = MappingContract::create_group(&mut store, addr("O")).unwrap();
    MappingContract::create_member(&mut store, sym("a"), addr("A")).unwrap();
    assert_eq!(MappingContract::add_transaction(&mut store, sym("a"), g, 9, sym("p")), Ok(1));
    assert_eq!(Contract::get_member(&store, &sym("a")).unwrap().balance_in(g), Some(9));
    assert_eq!(Contract::get_group(&store, g).unwrap().total_amount(), 9);
    assert!(!Contract::get_group(&store, g).unwrap().has_member(&sym("a")));
}

#[test]
fn add_member_is_refused_for_each_reason_in_order() {
    let mut store = Store::new();
    let g = MappingContract::create_group(&mut store, addr("O")).unwrap();
    MappingContract::create_member(&mut store, sym("a"), addr("A")).unwrap();

    let before = store.clone();
    assert_eq!(
        MappingContract::add_member_to_group(&mut store, 99, sym("a"), addr("O")),
        Err(Error::GroupNotFound)
    );
    assert_eq!(
        MappingContract::add_member_to_group(&mut store, g, sym("a"), addr("X")),
        Err(Error::Unauthorized)
    );
    // the caller is checked before the user is looked up
    assert_eq!(
        MappingContract::add_member_to_group(&mut store, g, sym("nobody"), addr("X")),
        Err(Error::Unauthorized)
    );
    assert_eq!(
        MappingContract::add_member_to_group(&mut store, g, sym("nobody"), addr("O")),
        Err(Error::MemberNotFound)
    );
    assert_eq!(store, before);

    assert_eq!(MappingContract::add_member_to_group(&mut store, g, sym("a"), addr("O")), Ok(()));
    let joined = store.clone();
    assert_eq!(
        MappingContract::add_member_to_group(&mut store, g, sym("a"), addr("O")),
        Err(Error::MemberAlreadyExists)
    );
    // a stranger who repeats the call is still told that he may not
    assert_eq!(
        MappingContract::add_member_to_group(&mut store, g, sym("a"), addr("X")),
        Err(Error::Unauthorized)
    );
    assert_eq!(store, joined);
    let group = Contract::get_group(&store, g).unwrap();
    assert_eq!(group.members().len(), 1);
    assert_eq!(group.members()[0].as_str(), "a");
}

#[test]
fn add_transaction_is_refused_for_each_reason_in_order() {
    let mut store = Store::new();
    let g = MappingContract::create_group(&mut store, addr("O")).unwrap();
    MappingContract::create_member(&mut store, sym("a"), addr("A")).unwrap();
    let before = store.clone();
    assert_eq!(
        MappingContract::add_transaction(&mut store, sym("nobody"), 99, 1, sym("p")),
        Err(Error::GroupNotFound)
    );
    assert_eq!(
        MappingContract::add_transaction(&mut store, sym("nobody"), g, 1, sym("p")),
        Err(Error::MemberNotFound)
    );
    assert_eq!(store, before);
    // a refused call takes no identifier
    assert_eq!(store.last_transaction_id(), 0);
    assert_eq!(MappingContract::add_transaction(&mut store, sym("a"), g, 1, sym("p")), Ok(1));
}

#[test]
fn amounts_do_not_wrap() {
    let mut store = Store::new();
    let g = MappingContract::create_group(&mut store, addr("O")).unwrap();
    MappingContract::create_member(&mut store, sym("a"), addr("A")).unwrap();
    MappingContract::create_member(&mut store, sym("b"), addr("B")).unwrap();
    assert_eq!(
        MappingContract::add_transaction(&mut store, sym("a"), g, u64::MAX, sym("p")),
        Ok(1)
    );
    let before = store.clone();
    // the group's total would leave its range
    assert_eq!(
        MappingContract::add_transaction(&mut store, sym("b"), g, 1, sym("p")),
        Err(Error::AmountOverflow)
    );
    assert_eq!(store, before);
    assert_eq!(store.last_transaction_id(), 1);
    // an amount of zero still fits
    assert_eq!(MappingContract::add_transaction(&mut store, sym("b"), g, 0, sym("p")), Ok(2));
    assert_eq!(Contract::get_group(&store, g).unwrap().total_amount(), u64::MAX);
}

#[test]
fn member_balance_does_not_wrap() {
    let mut store = Store::new();
    let g = MappingContract::create_group(&mut store, addr("O")).unwrap();
    let mut a = group_ledger::member::Member::new(sym("a"), addr("A"));
    a.join_group(g);
    assert_eq!(a.contribute(g, u64::MAX), Ok(()));
    Contract::set_member(&mut store, a);
    let before = store.clone();
    // the group's total is still zero, the member's balance is at the end of its range
    assert_eq!(
        MappingContract::add_transaction(&mut store, sym("a"), g, 1, sym("p")),
        Err(Error::AmountOverflow)
    );
    assert_eq!(store, before);
}

#[test]
fn identifiers_run_out_without_wrapping() {
    let mut store = Store::new();
    store.set_last_group_id(u64::MAX - 1);
    assert_eq!(MappingContract::create_group(&mut store, addr("O")), Ok(u64::MAX));
    let before = store.clone();
    assert_eq!(
        MappingContract::create_group(&mut store, addr("O")),
        Err(Error::IdentifierExhausted)
    );
    assert_eq!(MappingContract::get_next_group_id(&mut store), Err(Error::IdentifierExhausted));
    assert_eq!(store, before);

    MappingContract::create_member(&mut store, sym("a"), addr("A")).unwrap();
    store.set_last_transaction_id(u64::MAX);
    let before = store.clone();
    assert_eq!(
        MappingContract::add_transaction(&mut store, sym("a"), u64::MAX, 1, sym("p")),
        Err(Error::IdentifierExhausted)
    );
    assert_eq!(
        MappingContract::get_next_transaction_id(&mut store),
        Err(Error::IdentifierExhausted)
    );
    assert_eq!(store, before);
}

#[test]
fn next_identifier_is_one_more_than_the_last() {
    let mut store = Store::new();
    assert_eq!(MappingContract::get_next_group_id(&mut store), Ok(1));
    assert_eq!(MappingContract::get_next_group_id(&mut store), Ok(2));
    assert_eq!(store.last_group_id(), 2);
    assert_eq!(MappingContract::get_next_transaction_id(&mut store), Ok(1));
    assert_eq!(store.last_transaction_id(), 1);
    store.set_last_transaction_id(41);
    assert_eq!(MappingContract::get_next_transaction_id(&mut store), Ok(42));
}

#[test]
fn approval_is_refused_for_each_reason_in_order() {
    let mut store = Store::new();
    let g = MappingContract::create_group(&mut store, addr("O")).unwrap();
    MappingContract::create_member(&mut store, sym("a"), addr("A")).unwrap();
    MappingContract::add_member_to_group(&mut store, g, sym("a"), addr("O")).unwrap();
    MappingContract::add_transaction(&mut store, sym("a"), g, 3, sym("p")).unwrap();
    // a transaction whose group is not stored
    let orphan =
        group_ledger::transaction::Transaction::new(7, sym("a"), 99, 1, sym("p"));
    Contract::set_transaction(&mut store, orphan);

    let before = store.clone();
    assert_eq!(
        MappingContract::approve_transaction(&mut store, 5, sym("a")),
        Err(Error::TransactionNotFound)
    );
    assert_eq!(
        MappingContract::approve_transaction(&mut store, 7, sym("a")),
        Err(Error::GroupNotFound)
    );
    assert_eq!(
        MappingContract::approve_transaction(&mut store, 1, sym("b")),
        Err(Error::Unauthorized)
    );
    assert_eq!(store, before);
}

#[test]
fn approvals_gather_in_order_and_once_each() {
    let mut store = Store::new();
    let g = MappingContract::create_group(&mut store, addr("O")).unwrap();
    for u in ["a", "b", "c"] {
        MappingContract::create_member(&mut store, sym(u), addr("A")).unwrap();
        MappingContract::add_member_to_group(&mut store, g, sym(u), addr("O")).unwrap();
    }
    MappingContract::add_transaction(&mut store, sym("a"), g, 3, sym("p")).unwrap();
    for u in ["b", "a", "b", "c", "a"] {
        assert_eq!(MappingContract::approve_transaction(&mut store, 1, sym(u)), Ok(()));
    }
    assert_eq!(
        approvals_of(&store, 1),
        vec!["b".to_string(), "a".to_string(), "c".to_string()]
    );
    // the rest of the transaction is as it was recorded
    let tx = Contract::get_transaction(&store, 1).unwrap();
    assert_eq!(tx.id(), 1);
    assert_eq!(tx.user_id().as_str(), "a");
    assert_eq!(tx.group_id(), g);
    assert_eq!(tx.amount(), 3);
    assert_eq!(tx.proof_ref().as_str(), "p");
}

#[test]
fn all_groups_are_listed_as_created() {
    let mut store = Store::new();
    assert!(MappingContract::get_all_groups(&store).is_empty());
    let g1 = MappingContract::create_group(&mut store, addr("O")).unwrap();
    let g2 = MappingContract::create_group(&mut store, addr("P")).unwrap();
    MappingContract::create_member(&mut store, sym("a"), addr("A")).unwrap();
    MappingContract::add_member_to_group(&mut store, g1, sym("a"), addr("O")).unwrap();
    MappingContract::add_transaction(&mut store, sym("a"), g1, 3, sym("p")).unwrap();

    let before = store.clone();
    let groups = MappingContract::get_all_groups(&store);
    assert_eq!(store, before);
    assert_eq!(groups.len(), 2);
    assert_eq!(groups[0].group_id(), g1);
    assert_eq!(groups[0].owner().as_str(), "O");
    assert_eq!(groups[1].group_id(), g2);
    assert_eq!(groups[1].owner().as_str(), "P");
    // the list holds each group as it was created
    assert_eq!(groups[0].total_amount(), 0);
    assert!(groups[0].members().is_empty());
    assert_eq!(Contract::get_all_group_ids(&store), vec![g1, g2]);
}

#[test]
fn new_group_is_empty_and_owned_by_its_creator() {
    let mut store = Store::new();
    let g = MappingContract::create_group(&mut store, addr("O")).unwrap();
    let group = Contract::get_group(&store, g).unwrap();
    assert_eq!(group.group_id(), 1);
    assert!(group.is_owner(&addr("O")));
    assert!(!group.is_owner(&addr("o")));
    assert_eq!(group.total_amount(), 0);
    assert!(group.members().is_empty());
}
