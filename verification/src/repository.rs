use crate::error::Error;
use crate::group::{Group, GroupView};
use crate::identity::Symbol;
use crate::member::Member;
use crate::state::StoreState;
use crate::store::{group_ids, Store};
use crate::transaction::Transaction;
use vstd::prelude::*;

verus! {

/// The store after a group was saved through the repository: the group
/// stands under its identifier, and where the list of all groups did not
/// name that identifier, the group is appended to it.
pub open spec fn with_group(store: StoreState, group: GroupView) -> StoreState {
    StoreState {
        groups: store.groups.insert(group.group_id, group),
        group_list: if group_ids(store.group_list).contains(group.group_id) {
            store.group_list
        } else {
            store.group_list.push(group)
        },
        ..store
    }
}

/// Whether the identifier stands in the list.
fn contains_id(ids: &Vec<u64>, wanted: u64) -> (found: bool)
    ensures
        found == ids@.contains(wanted),
{
    let mut i: usize = 0;
    while i < ids.len()
        invariant
            i <= ids@.len(),
            forall|j: int| 0 <= j < i ==> ids@[j] != wanted,
        decreases ids@.len() - i,
    {
        if ids[i] == wanted {
            return true;
        }
        i += 1;
    }
    false
}

/// Typed reading and writing of whole records. A read of a record that is
/// not stored is an error that names the kind of record; a write replaces
/// the whole record. Nothing here asks who is calling or whether the books
/// still agree afterwards: that is the ledger's part.
pub struct Contract;

impl Contract {
    /// Stores the member under its user identifier, in place of what was
    /// stored there.
    pub fn set_member(store: &mut Store, member: Member)
        ensures
            final(store)@ == (StoreState {
                members: old(store)@.members.insert(member@.user_id, member@),
                ..old(store)@
            }),
    {
        store.save_member(member);
    }

    /// The member stored under the user identifier.
    pub fn get_member(store: &Store, user_id: &Symbol) -> (r: Result<Member, Error>)
        ensures
            match r {
                Ok(member) => store@.members.contains_key(user_id@) && member@
                    == store@.members[user_id@],
                Err(e) => e == Error::MemberNotFound && !store@.members.contains_key(user_id@),
            },
    {
        match store.load_member(user_id) {
            Some(member) => Ok(member),
            None => Err(Error::MemberNotFound),
        }
    }

    /// Stores the group under its identifier, in place of what was stored
    /// there, and appends it to the list of all groups unless the list
    /// names its identifier already.
    pub fn set_group(store: &mut Store, group: Group)
        ensures
            final(store)@ == with_group(old(store)@, group@),
    {
        let listed = contains_id(&store.listed_group_ids(), group.group_id());
        if !listed {
            store.push_group_list(group.clone());
        }
        store.save_group(group);
        proof {
            assert(store@ =~= with_group(old(store)@, group@));
        }
    }

    /// The identifiers of all groups, in the order in which the groups were
    /// first stored. The store is left as it is.
    pub fn get_all_group_ids(store: &Store) -> (ids: Vec<u64>)
        ensures
            ids@ == group_ids(store@.group_list),
    {
        store.listed_group_ids()
    }

    /// The group stored under the identifier.
    pub fn get_group(store: &Store, group_id: u64) -> (r: Result<Group, Error>)
        ensures
            match r {
                Ok(group) => store@.groups.contains_key(group_id) && group@
                    == store@.groups[group_id],
                Err(e) => e == Error::GroupNotFound && !store@.groups.contains_key(group_id),
            },
    {
        match store.load_group(group_id) {
            Some(group) => Ok(group),
            None => Err(Error::GroupNotFound),
        }
    }

    /// Stores the transaction under its identifier, in place of what was
    /// stored there.
    pub fn set_transaction(store: &mut Store, tx: Transaction)
        ensures
            final(store)@ == (StoreState {
                transactions: old(store)@.transactions.insert(tx@.id, tx@),
                ..old(store)@
            }),
    {
        store.save_transaction(tx);
    }

    /// The transaction stored under the identifier.
    pub fn get_transaction(store: &Store, tx_id: u64) -> (r: Result<Transaction, Error>)
        ensures
            match r {
                Ok(tx) => store@.transactions.contains_key(tx_id) && tx@
                    == store@.transactions[tx_id],
                Err(e) => e == Error::TransactionNotFound && !store@.transactions.contains_key(
                    tx_id,
                ),
            },
    {
        match store.load_transaction(tx_id) {
            Some(tx) => Ok(tx),
            None => Err(Error::TransactionNotFound),
        }
    }
}

} // verus!
