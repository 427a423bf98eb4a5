use group_ledger::balances::Balances;
use group_ledger::error::Error;
use group_ledger::group::Group;
use group_ledger::identity::{clone_symbols, contains_symbol, symbols_distinct, Address, Symbol};
use group_ledger::member::Member;
use group_ledger::repository::Contract;
use group_ledger::store::{DataKey, Store};
use group_ledger::transaction::Transaction;

fn sym(text: &str) -> Symbol {
    Symbol::new(text)
}

fn addr(key: &str) -> Address {
    Address::new(key)
}

#[test]
fn error_codes_are_fixed() {
    assert_eq!(Error::GroupAlreadyExists.code(), 1);
    assert_eq!(Error::GroupNotFound.code(), 2);
    assert_eq!(Error::Unauthorized.code(), 3);
    assert_eq!(Error::MemberAlreadyExists.code(), 4);
    assert_eq!(Error::MemberNotFound.code(), 5);
    assert_eq!(Error::UserIdAlreadyExists.code(), 6);
    assert_eq!(Error::IdentifierExhausted.code(), 7);
    assert_eq!(Error::TransactionNotFound.code(), 8);
    assert_eq!(Error::AmountOverflow.code(), 9);
}

#[test]
fn error_codes_read_back() {
    assert_eq!(Error::from_code(0), None);
    assert_eq!(Error::from_code(10), None);
    assert_eq!(Error::from_code(u32::MAX), None);
    for code in 1..=9u32 {
        assert_eq!(Error::from_code(code).unwrap().code(), code);
    }
    assert_eq!(Error::from_code(3), Some(Error::Unauthorized));
    assert_eq!(Error::from_code(7), Some(Error::IdentifierExhausted));
}

#[test]
fn symbols_compare_by_their_characters() {
    assert!(sym("alice").same(&sym("alice")));
    assert!(!sym("alice").same(&sym("Alice")));
    assert!(!sym("alice").same(&sym("alic")));
    assert!(sym("").same(&sym("")));
    assert_eq!(sym("alice").as_str(), "alice");
    assert_eq!(sym("alice").clone(), sym("alice"));
    assert!(addr("GABC").same(&addr("GABC")));
    assert!(!addr("GABC").same(&addr("GABD")));
    assert_eq!(addr("GABC").as_str(), "GABC");
    assert_eq!(addr("GABC").clone(), addr("GABC"));
}

#[test]
fn symbol_lists_are_searched_and_checked() {
    let list = vec![sym("a"), sym("b"), sym("c")];
    assert!(contains_symbol(&list, &sym("a")));
    assert!(contains_symbol(&list, &sym("c")));
    assert!(!contains_symbol(&list, &sym("d")));
    assert!(!contains_symbol(&Vec::new(), &sym("a")));
    assert!(symbols_distinct(&list));
    assert!(symbols_distinct(&Vec::new()));
    assert!(!symbols_distinct(&vec![sym("a"), sym("b"), sym("a")]));
    assert!(!symbols_distinct(&vec![sym("a"), sym("a")]));
    assert_eq!(clone_symbols(&list), list);
}

#[test]
fn balances_hold_one_amount_for_each_group() {
    let mut balances = Balances::new();
    assert_eq!(balances.get(1), None);
    balances.set(1, 10);
    balances.set(2, 20);
    assert_eq!(balances.get(1), Some(10));
    assert_eq!(balances.get(2), Some(20));
    assert_eq!(balances.get(3), None);
    balances.set(1, 11);
    assert_eq!(balances.get(1), Some(11));
    assert_eq!(balances.get(2), Some(20));
    assert_eq!(balances.to_pairs(), vec![(1, 11), (2, 20)]);
    assert_eq!(balances.clone(), balances);
}

#[test]
fn balances_are_read_from_pairs_with_distinct_groups() {
    let balances = Balances::from_pairs(vec![(3, 30), (1, 10)]).unwrap();
    assert_eq!(balances.get(3), Some(30));
    assert_eq!(balances.get(1), Some(10));
    assert_eq!(balances.get(2), None);
    assert_eq!(Balances::from_pairs(vec![(3, 30), (1, 10), (3, 31)]), None);
    assert_eq!(Balances::from_pairs(vec![(1, 10), (1, 10)]), None);
    assert_eq!(Balances::from_pairs(Vec::new()), Some(Balances::new()));
}

#[test]
fn group_members_stand_once() {
    let mut group = Group::new(4, addr("O"));
    assert_eq!(group.add_member(sym("a")), Ok(()));
    assert_eq!(group.add_member(sym("b")), Ok(()));
    assert_eq!(group.add_member(sym("a")), Err(Error::MemberAlreadyExists));
    assert_eq!(group.members(), &vec![sym("a"), sym("b")]);
    assert!(group.has_member(&sym("b")));
    assert!(!group.has_member(&sym("c")));
    assert_eq!(group.clone(), group);
}

#[test]
fn group_total_grows_without_wrapping() {
    let mut group = Group::new(4, addr("O"));
    assert_eq!(group.add_amount(5), Ok(()));
    assert_eq!(group.add_amount(u64::MAX - 5), Ok(()));
    assert_eq!(group.total_amount(), u64::MAX);
    assert_eq!(group.add_amount(1), Err(Error::AmountOverflow));
    assert_eq!(group.total_amount(), u64::MAX);
    assert_eq!(group.add_amount(0), Ok(()));
}

#[test]
fn group_is_built_from_parts_with_distinct_members() {
    let group = Group::from_parts(9, addr("O"), 77, vec![sym("a"), sym("b")]).unwrap();
    assert_eq!(group.group_id(), 9);
    assert_eq!(group.owner().as_str(), "O");
    assert_eq!(group.total_amount(), 77);
    assert_eq!(group.members(), &vec![sym("a"), sym("b")]);
    assert_eq!(Group::from_parts(9, addr("O"), 77, vec![sym("a"), sym("a")]), None);
}

#[test]
fn member_joins_and_contributes() {
    let mut member = Member::new(sym("a"), addr("A"));
    assert_eq!(member.user_id().as_str(), "a");
    assert_eq!(member.address().as_str(), "A");
    assert_eq!(member.balance_in(1), None);
    member.join_group(1);
    assert_eq!(member.balance_in(1), Some(0));
    assert_eq!(member.contribute(1, 40), Ok(()));
    assert_eq!(member.contribute(1, 2), Ok(()));
    assert_eq!(member.balance_in(1), Some(42));
    // a group without a balance counts from zero
    assert_eq!(member.contribute(2, 8), Ok(()));
    assert_eq!(member.balance_in(2), Some(8));
    assert_eq!(member.contribute(2, u64::MAX - 7), Err(Error::AmountOverflow));
    assert_eq!(member.balance_in(2), Some(8));
    assert_eq!(member.group_balances().to_pairs(), vec![(1, 42), (2, 8)]);
    // joining again starts the balance anew
    member.join_group(1);
    assert_eq!(member.balance_in(1), Some(0));
    assert_eq!(member.clone(), member);
}

#[test]
fn member_is_built_from_parts() {
    let balances = Balances::from_pairs(vec![(5, 50)]).unwrap();
    let member = Member::from_parts(sym("a"), addr("A"), balances);
    assert_eq!(member.user_id().as_str(), "a");
    assert_eq!(member.address().as_str(), "A");
    assert_eq!(member.balance_in(5), Some(50));
}

#[test]
fn transaction_gathers_each_approval_once() {
    let mut tx = Transaction::new(3, sym("a"), 1, 100, sym("proofA"));
    assert!(tx.approvals().is_empty());
    assert!(tx.approve(sym("b")));
    assert!(!tx.approve(sym("b")));
    assert!(tx.approve(sym("a")));
    assert_eq!(tx.approvals(), &vec![sym("b"), sym("a")]);
    assert!(tx.has_approval(&sym("a")));
    assert!(!tx.has_approval(&sym("c")));
    assert_eq!(tx.clone(), tx);
}

#[test]
fn transaction_is_built_from_parts_with_distinct_approvals() {
    let tx =
        Transaction::from_parts(3, sym("a"), 1, 100, sym("p"), vec![sym("x"), sym("y")]).unwrap();
    assert_eq!(tx.id(), 3);
    assert_eq!(tx.user_id().as_str(), "a");
    assert_eq!(tx.group_id(), 1);
    assert_eq!(tx.amount(), 100);
    assert_eq!(tx.proof_ref().as_str(), "p");
    assert_eq!(tx.approvals(), &vec![sym("x"), sym("y")]);
    assert_eq!(
        Transaction::from_parts(3, sym("a"), 1, 100, sym("p"), vec![sym("x"), sym("x")]),
        None
    );
}

#[test]
fn store_tells_what_it_holds() {
    let mut store = Store::new();
    assert!(!store.has(&DataKey::Group(1)));
    assert!(!store.has(&DataKey::Member(sym("a"))));
    assert!(!store.has(&DataKey::Transaction(1)));
    assert!(!store.has(&DataKey::LastGroupId));
    assert!(!store.has(&DataKey::LastTransactionId));
    assert!(!store.has(&DataKey::GroupList));

    store.save_group(Group::new(1, addr("O")));
    store.save_member(Member::new(sym("a"), addr("A")));
    store.save_transaction(Transaction::new(1, sym("a"), 1, 5, sym("p")));
    store.set_last_group_id(1);
    store.set_last_transaction_id(1);
    store.push_group_list(Group::new(1, addr("O")));

    assert!(store.has(&DataKey::Group(1)));
    assert!(!store.has(&DataKey::Group(2)));
    assert!(store.has(&DataKey::Member(sym("a"))));
    assert!(!store.has(&DataKey::Member(sym("b"))));
    assert!(store.has(&DataKey::Transaction(1)));
    assert!(!store.has(&DataKey::Transaction(2)));
    assert!(store.has(&DataKey::LastGroupId));
    assert!(store.has(&DataKey::LastTransactionId));
    assert!(store.has(&DataKey::GroupList));
}

#[test]
fn store_replaces_a_record_as_a_whole() {
    let mut store = Store::new();
    store.save_group(Group::new(1, addr("O")));
    store.save_group(Group::new(2, addr("P")));
    store.save_group(Group::from_parts(1, addr("Q"), 9, vec![sym("a")]).unwrap());
    let first = store.load_group(1).unwrap();
    assert_eq!(first.owner().as_str(), "Q");
    assert_eq!(first.total_amount(), 9);
    assert_eq!(store.load_group(2).unwrap().owner().as_str(), "P");
    assert_eq!(store.load_group(3), None);

    store.save_member(Member::new(sym("a"), addr("A")));
    store.save_member(Member::new(sym("a"), addr("B")));
    assert_eq!(store.load_member(&sym("a")).unwrap().address().as_str(), "B");
    assert_eq!(store.load_member(&sym("b")), None);

    store.save_transaction(Transaction::new(1, sym("a"), 1, 5, sym("p")));
    store.save_transaction(Transaction::new(1, sym("a"), 1, 6, sym("p")));
    assert_eq!(store.load_transaction(1).unwrap().amount(), 6);
    assert_eq!(store.load_transaction(2), None);
}

#[test]
fn store_keeps_the_list_of_groups() {
    let mut store = Store::new();
    assert!(store.group_list().is_empty());
    store.push_group_list(Group::new(1, addr("O")));
    store.push_group_list(Group::new(2, addr("P")));
    assert_eq!(store.listed_group_ids(), vec![1, 2]);
    assert_eq!(store.group_list(), vec![Group::new(1, addr("O")), Group::new(2, addr("P"))]);
    store.set_group_list(vec![Group::new(5, addr("Z"))]);
    assert_eq!(store.listed_group_ids(), vec![5]);
    assert_eq!(store.clone(), store);
}

#[test]
fn repository_reads_fail_by_kind() {
    let store = Store::new();
    assert_eq!(Contract::get_group(&store, 1), Err(Error::GroupNotFound));
    assert_eq!(Contract::get_member(&store, &sym("a")), Err(Error::MemberNotFound));
    assert_eq!(Contract::get_transaction(&store, 1), Err(Error::TransactionNotFound));
    assert!(Contract::get_all_group_ids(&store).is_empty());
}

#[test]
fn repository_reads_what_was_written() {
    let mut store = Store::new();
    Contract::set_member(&mut store, Member::new(sym("a"), addr("A")));
    Contract::set_transaction(&mut store, Transaction::new(4, sym("a"), 2, 5, sym("p")));
    Contract::set_group(&mut store, Group::new(2, addr("O")));
    assert_eq!(Contract::get_member(&store, &sym("a")), Ok(Member::new(sym("a"), addr("A"))));
    assert_eq!(
        Contract::get_transaction(&store, 4),
        Ok(Transaction::new(4, sym("a"), 2, 5, sym("p")))
    );
    assert_eq!(Contract::get_group(&store, 2), Ok(Group::new(2, addr("O"))));
}

#[test]
fn repository_lists_each_group_identifier_once() {
    let mut store = Store::new();
    Contract::set_group(&mut store, Group::new(2, addr("O")));
    Contract::set_group(&mut store, Group::new(7, addr("P")));
    Contract::set_group(&mut store, Group::from_parts(2, addr("O"), 5, Vec::new()).unwrap());
    assert_eq!(Contract::get_all_group_ids(&store), vec![2, 7]);
    assert_eq!(Contract::get_group(&store, 2).unwrap().total_amount(), 5);
}
