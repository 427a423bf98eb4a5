use crate::assoc::{as_map, keys_distinct, lemma_key_not_in_map, lemma_pair_in_map, lemma_push_pair, lemma_update_pair};
use crate::group::{Group, GroupView};
use crate::identity::Symbol;
use crate::member::{Member, MemberView};
use crate::state::{empty_store, StoreState};
use crate::transaction::{Transaction, TransactionView};
use vstd::prelude::*;

verus! {

/// The name under which the store keeps a record or a counter.
#[derive(Debug, PartialEq, Eq)]
pub enum DataKey {
    /// The group with this identifier.
    Group(u64),
    /// The member with this user identifier.
    Member(Symbol),
    /// The transaction with this identifier.
    Transaction(u64),
    /// The counter of group identifiers.
    LastGroupId,
    /// The counter of transaction identifiers.
    LastTransactionId,
    /// The list of all groups.
    GroupList,
}

/// Whether the store holds something under the key. A counter that has
/// given out no identifier, and a list of groups without a group, count as
/// absent.
pub open spec fn holds(store: StoreState, key: DataKey) -> bool {
    match key {
        DataKey::Group(group_id) => store.groups.contains_key(group_id),
        DataKey::Member(user_id) => store.members.contains_key(user_id@),
        DataKey::Transaction(tx_id) => store.transactions.contains_key(tx_id),
        DataKey::LastGroupId => store.last_group_id > 0,
        DataKey::LastTransactionId => store.last_transaction_id > 0,
        DataKey::GroupList => store.group_list.len() > 0,
    }
}

/// The views of a list of groups, in the list's order.
pub open spec fn group_views(groups: Seq<Group>) -> Seq<GroupView> {
    Seq::new(groups.len(), |i: int| groups[i]@)
}

/// The identifiers of a list of groups, in the list's order.
pub open spec fn group_ids(groups: Seq<GroupView>) -> Seq<u64> {
    Seq::new(groups.len(), |i: int| groups[i].group_id)
}

spec fn group_pairs(groups: Seq<Group>) -> Seq<(u64, GroupView)> {
    Seq::new(groups.len(), |i: int| (groups[i]@.group_id, groups[i]@))
}

spec fn member_pairs(members: Seq<Member>) -> Seq<(Seq<char>, MemberView)> {
    Seq::new(members.len(), |i: int| (members[i]@.user_id, members[i]@))
}

spec fn transaction_pairs(transactions: Seq<Transaction>) -> Seq<(u64, TransactionView)> {
    Seq::new(transactions.len(), |i: int| (transactions[i]@.id, transactions[i]@))
}

/// The first place in `groups` that holds the identifier, or the length of
/// `groups` where none does.
fn group_position(groups: &Vec<Group>, group_id: u64) -> (i: usize)
    ensures
        i <= groups@.len(),
        i < groups@.len() ==> groups@[i as int]@.group_id == group_id,
        forall|j: int| 0 <= j < i ==> groups@[j]@.group_id != group_id,
{
    let mut i: usize = 0;
    while i < groups.len()
        invariant
            i <= groups@.len(),
            forall|j: int| 0 <= j < i ==> groups@[j]@.group_id != group_id,
        decreases groups@.len() - i,
    {
        if groups[i].group_id() == group_id {
            return i;
        }
        i += 1;
    }
    i
}

/// The first place in `members` that holds the user identifier, or the
/// length of `members` where none does.
fn member_position(members: &Vec<Member>, user_id: &Symbol) -> (i: usize)
    ensures
        i <= members@.len(),
        i < members@.len() ==> members@[i as int]@.user_id == user_id@,
        forall|j: int| 0 <= j < i ==> members@[j]@.user_id != user_id@,
{
    let mut i: usize = 0;
    while i < members.len()
        invariant
            i <= members@.len(),
            forall|j: int| 0 <= j < i ==> members@[j]@.user_id != user_id@,
        decreases members@.len() - i,
    {
        if members[i].user_id().same(user_id) {
            return i;
        }
        i += 1;
    }
    i
}

/// The first place in `transactions` that holds the identifier, or the
/// length of `transactions` where none does.
fn transaction_position(transactions: &Vec<Transaction>, tx_id: u64) -> (i: usize)
    ensures
        i <= transactions@.len(),
        i < transactions@.len() ==> transactions@[i as int]@.id == tx_id,
        forall|j: int| 0 <= j < i ==> transactions@[j]@.id != tx_id,
{
    let mut i: usize = 0;
    while i < transactions.len()
        invariant
            i <= transactions@.len(),
            forall|j: int| 0 <= j < i ==> transactions@[j]@.id != tx_id,
        decreases transactions@.len() - i,
    {
        if transactions[i].id() == tx_id {
            return i;
        }
        i += 1;
    }
    i
}

/// A copy of a list of groups, item by item.
fn clone_groups(groups: &Vec<Group>) -> (copy: Vec<Group>)
    ensures
        group_views(copy@) == group_views(groups@),
        copy@.len() == groups@.len(),
        forall|j: int| 0 <= j < groups@.len() ==> copy@[j]@ == groups@[j]@,
{
    let mut copy: Vec<Group> = Vec::new();
    let mut i: usize = 0;
    while i < groups.len()
        invariant
            i <= groups@.len(),
            copy@.len() == i,
            forall|j: int| 0 <= j < i ==> copy@[j]@ == groups@[j]@,
        decreases groups@.len() - i,
    {
        copy.push(groups[i].clone());
        i += 1;
    }
    proof {
        assert(group_views(copy@) =~= group_views(groups@));
    }
    copy
}

/// A copy of a list of members, item by item.
fn clone_members(members: &Vec<Member>) -> (copy: Vec<Member>)
    ensures
        copy@.len() == members@.len(),
        forall|j: int| 0 <= j < members@.len() ==> copy@[j]@ == members@[j]@,
{
    let mut copy: Vec<Member> = Vec::new();
    let mut i: usize = 0;
    while i < members.len()
        invariant
            i <= members@.len(),
            copy@.len() == i,
            forall|j: int| 0 <= j < i ==> copy@[j]@ == members@[j]@,
        decreases members@.len() - i,
    {
        copy.push(members[i].clone());
        i += 1;
    }
    copy
}

/// A copy of a list of transactions, item by item.
fn clone_transactions(transactions: &Vec<Transaction>) -> (copy: Vec<Transaction>)
    ensures
        copy@.len() == transactions@.len(),
        forall|j: int| 0 <= j < transactions@.len() ==> copy@[j]@ == transactions@[j]@,
{
    let mut copy: Vec<Transaction> = Vec::new();
    let mut i: usize = 0;
    while i < transactions.len()
        invariant
            i <= transactions@.len(),
            copy@.len() == i,
            forall|j: int| 0 <= j < i ==> copy@[j]@ == transactions@[j]@,
        decreases transactions@.len() - i,
    {
        copy.push(transactions[i].clone());
        i += 1;
    }
    copy
}

/// The persistent store that the ledger works on: every record under its
/// own identifier, at most one record for each.
#[derive(Debug, PartialEq, Eq)]
pub struct Store {
    groups: Vec<Group>,
    members: Vec<Member>,
    transactions: Vec<Transaction>,
    last_group_id: u64,
    last_transaction_id: u64,
    group_list: Vec<Group>,
}

impl View for Store {
    type V = StoreState;

    closed spec fn view(&self) -> StoreState {
        StoreState {
            groups: as_map(group_pairs(self.groups@)),
            members: as_map(member_pairs(self.members@)),
            transactions: as_map(transaction_pairs(self.transactions@)),
            last_group_id: self.last_group_id,
            last_transaction_id: self.last_transaction_id,
            group_list: group_views(self.group_list@),
        }
    }
}

impl Store {
    #[verifier::type_invariant]
    spec fn one_record_per_key(self) -> bool {
        &&& keys_distinct(group_pairs(self.groups@))
        &&& keys_distinct(member_pairs(self.members@))
        &&& keys_distinct(transaction_pairs(self.transactions@))
    }

    /// A store to which nothing was written.
    pub fn new() -> (store: Store)
        ensures
            store@ == empty_store(),
    {
        let store = Store {
            groups: Vec::new(),
            members: Vec::new(),
            transactions: Vec::new(),
            last_group_id: 0,
            last_transaction_id: 0,
            group_list: Vec::new(),
        };
        proof {
            assert(store@.groups =~= Map::<u64, GroupView>::empty());
            assert(store@.members =~= Map::<Seq<char>, MemberView>::empty());
            assert(store@.transactions =~= Map::<u64, TransactionView>::empty());
            assert(store@.group_list =~= Seq::<GroupView>::empty());
        }
        store
    }

    /// Whether the store holds something under the key.
    pub fn has(&self, key: &DataKey) -> (b: bool)
        ensures
            b == holds(self@, *key),
    {
        proof {
            use_type_invariant(self);
        }
        match key {
            DataKey::Group(group_id) => {
                let i = group_position(&self.groups, *group_id);
                proof {
                    if i < self.groups@.len() {
                        lemma_pair_in_map(group_pairs(self.groups@), i as int);
                    } else {
                        lemma_key_not_in_map(group_pairs(self.groups@), *group_id);
                    }
                }
                i < self.groups.len()
            },
            DataKey::Member(user_id) => {
                let i = member_position(&self.members, user_id);
                proof {
                    if i < self.members@.len() {
                        lemma_pair_in_map(member_pairs(self.members@), i as int);
                    } else {
                        lemma_key_not_in_map(member_pairs(self.members@), user_id@);
                    }
                }
                i < self.members.len()
            },
            DataKey::Transaction(tx_id) => {
                let i = transaction_position(&self.transactions, *tx_id);
                proof {
                    if i < self.transactions@.len() {
                        lemma_pair_in_map(transaction_pairs(self.transactions@), i as int);
                    } else {
                        lemma_key_not_in_map(transaction_pairs(self.transactions@), *tx_id);
                    }
                }
                i < self.transactions.len()
            },
            DataKey::LastGroupId => self.last_group_id > 0,
            DataKey::LastTransactionId => self.last_transaction_id > 0,
            DataKey::GroupList => self.group_list.len() > 0,
        }
    }

    /// The group stored under the identifier, if one is.
    pub fn load_group(&self, group_id: u64) -> (group: Option<Group>)
        ensures
            group.is_some() == self@.groups.contains_key(group_id),
            group.is_some() ==> group.unwrap()@ == self@.groups[group_id],
            group.is_some() ==> group.unwrap()@.group_id == group_id,
    {
        proof {
            use_type_invariant(self);
        }
        let i = group_position(&self.groups, group_id);
        if i < self.groups.len() {
            proof {
                lemma_pair_in_map(group_pairs(self.groups@), i as int);
            }
            Some(self.groups[i].clone())
        } else {
            proof {
                lemma_key_not_in_map(group_pairs(self.groups@), group_id);
            }
            None
        }
    }

    /// Stores the group under its identifier, in place of what was stored
    /// there.
    pub fn save_group(&mut self, group: Group)
        ensures
            final(self)@ == (StoreState {
                groups: old(self)@.groups.insert(group@.group_id, group@),
                ..old(self)@
            }),
    {
        proof {
            use_type_invariant(&*self);
        }
        let mut groups: Vec<Group> = Vec::new();
        std::mem::swap(&mut groups, &mut self.groups);
        let ghost before = group_pairs(groups@);
        let ghost key = group@.group_id;
        let ghost value = group@;
        let i = group_position(&groups, group.group_id());
        if i < groups.len() {
            groups[i] = group;
            proof {
                lemma_update_pair(before, i as int, value);
                assert(group_pairs(groups@) =~= before.update(i as int, (key, value)));
            }
        } else {
            groups.push(group);
            proof {
                lemma_push_pair(before, key, value);
                assert(group_pairs(groups@) =~= before.push((key, value)));
            }
        }
        self.groups = groups;
    }

    /// The member stored under the user identifier, if one is.
    pub fn load_member(&self, user_id: &Symbol) -> (member: Option<Member>)
        ensures
            member.is_some() == self@.members.contains_key(user_id@),
            member.is_some() ==> member.unwrap()@ == self@.members[user_id@],
            member.is_some() ==> member.unwrap()@.user_id == user_id@,
    {
        proof {
            use_type_invariant(self);
        }
        let i = member_position(&self.members, user_id);
        if i < self.members.len() {
            proof {
                lemma_pair_in_map(member_pairs(self.members@), i as int);
            }
            Some(self.members[i].clone())
        } else {
            proof {
                lemma_key_not_in_map(member_pairs(self.members@), user_id@);
            }
            None
        }
    }

    /// Stores the member under its user identifier, in place of what was
    /// stored there.
    pub fn save_member(&mut self, member: Member)
        ensures
            final(self)@ == (StoreState {
                members: old(self)@.members.insert(member@.user_id, member@),
                ..old(self)@
            }),
    {
        proof {
            use_type_invariant(&*self);
        }
        let mut members: Vec<Member> = Vec::new();
        std::mem::swap(&mut members, &mut self.members);
        let ghost before = member_pairs(members@);
        let ghost key = member@.user_id;
        let ghost value = member@;
        let i = member_position(&members, member.user_id());
        if i < members.len() {
            members[i] = member;
            proof {
                lemma_update_pair(before, i as int, value);
                assert(member_pairs(members@) =~= before.update(i as int, (key, value)));
            }
        } else {
            members.push(member);
            proof {
                lemma_push_pair(before, key, value);
                assert(member_pairs(members@) =~= before.push((key, value)));
            }
        }
        self.members = members;
    }

    /// The transaction stored under the identifier, if one is.
    pub fn load_transaction(&self, tx_id: u64) -> (tx: Option<Transaction>)
        ensures
            tx.is_some() == self@.transactions.contains_key(tx_id),
            tx.is_some() ==> tx.unwrap()@ == self@.transactions[tx_id],
            tx.is_some() ==> tx.unwrap()@.id == tx_id,
    {
        proof {
            use_type_invariant(self);
        }
        let i = transaction_position(&self.transactions, tx_id);
        if i < self.transactions.len() {
            proof {
                lemma_pair_in_map(transaction_pairs(self.transactions@), i as int);
            }
            Some(self.transactions[i].clone())
        } else {
            proof {
                lemma_key_not_in_map(transaction_pairs(self.transactions@), tx_id);
            }
            None
        }
    }

    /// Stores the transaction under its identifier, in place of what was
    /// stored there.
    pub fn save_transaction(&mut self, tx: Transaction)
        ensures
            final(self)@ == (StoreState {
                transactions: old(self)@.transactions.insert(tx@.id, tx@),
                ..old(self)@
            }),
    {
        proof {
            use_type_invariant(&*self);
        }
        let mut transactions: Vec<Transaction> = Vec::new();
        std::mem::swap(&mut transactions, &mut self.transactions);
        let ghost before = transaction_pairs(transactions@);
        let ghost key = tx@.id;
        let ghost value = tx@;
        let i = transaction_position(&transactions, tx.id());
        if i < transactions.len() {
            transactions[i] = tx;
            proof {
                lemma_update_pair(before, i as int, value);
                assert(transaction_pairs(transactions@) =~= before.update(i as int, (key, value)));
            }
        } else {
            transactions.push(tx);
            proof {
                lemma_push_pair(before, key, value);
                assert(transaction_pairs(transactions@) =~= before.push((key, value)));
            }
        }
        self.transactions = transactions;
    }

    /// The last group identifier given out, zero before the first.
    pub fn last_group_id(&self) -> (id: u64)
        ensures
            id == self@.last_group_id,
    {
        self.last_group_id
    }

    /// Sets the counter of group identifiers.
    pub fn set_last_group_id(&mut self, id: u64)
        ensures
            final(self)@ == (StoreState { last_group_id: id, ..old(self)@ }),
    {
        proof {
            use_type_invariant(&*self);
        }
        self.last_group_id = id;
    }

    /// The last transaction identifier given out, zero before the first.
    pub fn last_transaction_id(&self) -> (id: u64)
        ensures
            id == self@.last_transaction_id,
    {
        self.last_transaction_id
    }

    /// Sets the counter of transaction identifiers.
    pub fn set_last_transaction_id(&mut self, id: u64)
        ensures
            final(self)@ == (StoreState { last_transaction_id: id, ..old(self)@ }),
    {
        proof {
            use_type_invariant(&*self);
        }
        self.last_transaction_id = id;
    }

    /// The list of all groups, each as it was at its creation.
    pub fn group_list(&self) -> (list: Vec<Group>)
        ensures
            group_views(list@) == self@.group_list,
    {
        clone_groups(&self.group_list)
    }

    /// The identifiers of the groups in the list of all groups, in the
    /// list's order.
    pub fn listed_group_ids(&self) -> (ids: Vec<u64>)
        ensures
            ids@ == group_ids(self@.group_list),
    {
        let mut ids: Vec<u64> = Vec::new();
        let mut i: usize = 0;
        while i < self.group_list.len()
            invariant
                i <= self.group_list@.len(),
                ids@.len() == i,
                forall|j: int| 0 <= j < i ==> ids@[j] == self.group_list@[j]@.group_id,
            decreases self.group_list@.len() - i,
        {
            ids.push(self.group_list[i].group_id());
            i += 1;
        }
        proof {
            assert(ids@ =~= group_ids(self@.group_list));
        }
        ids
    }

    /// Puts the list of all groups in place of the one stored.
    pub fn set_group_list(&mut self, list: Vec<Group>)
        ensures
            final(self)@ == (StoreState { group_list: group_views(list@), ..old(self)@ }),
    {
        proof {
            use_type_invariant(&*self);
        }
        self.group_list = list;
    }

    /// Appends a group to the list of all groups.
    pub fn push_group_list(&mut self, group: Group)
        ensures
            final(self)@ == (StoreState {
                group_list: old(self)@.group_list.push(group@),
                ..old(self)@
            }),
    {
        proof {
            use_type_invariant(&*self);
        }
        let mut list: Vec<Group> = Vec::new();
        std::mem::swap(&mut list, &mut self.group_list);
        let ghost before = group_views(list@);
        let ghost value = group@;
        list.push(group);
        proof {
            assert(group_views(list@) =~= before.push(value));
        }
        self.group_list = list;
    }
}

impl Clone for Store {
    fn clone(&self) -> (copy: Store)
        ensures
            copy@ == self@,
    {
        proof {
            use_type_invariant(self);
        }
        let groups = clone_groups(&self.groups);
        let members = clone_members(&self.members);
        let transactions = clone_transactions(&self.transactions);
        let group_list = clone_groups(&self.group_list);
        proof {
            assert(group_pairs(groups@) =~= group_pairs(self.groups@));
            assert(member_pairs(members@) =~= member_pairs(self.members@));
            assert(transaction_pairs(transactions@) =~= transaction_pairs(self.transactions@));
        }
        Store {
            groups,
            members,
            transactions,
            last_group_id: self.last_group_id,
            last_transaction_id: self.last_transaction_id,
            group_list,
        }
    }
}

} // verus!
