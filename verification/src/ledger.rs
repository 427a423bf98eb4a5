use crate::error::Error;
use crate::group::Group;
use crate::identity::{Address, Symbol};
use crate::member::Member;
use crate::state::{Call, StoreState};
use crate::store::{group_views, DataKey, Store};
use crate::transaction::Transaction;
use vstd::prelude::*;

verus! {

/// The error that a result carries, if it carries one.
pub open spec fn error_of<T>(r: Result<T, Error>) -> Option<Error> {
    match r {
        Ok(_) => None,
        Err(e) => Some(e),
    }
}

/// The ledger of shared expenses: groups, their members, the contributions
/// recorded against them and the approvals these gather. Every operation
/// works on the store it is handed, and either takes effect as a whole or
/// is refused and leaves the store as it was.
pub struct MappingContract;

impl MappingContract {
    /// Gives out the next group identifier: one more than the last. Refused
    /// when the last one is the greatest there is.
    pub fn get_next_group_id(store: &mut Store) -> (r: Result<u64, Error>)
        ensures
            match r {
                Ok(id) => old(store)@.last_group_id < u64::MAX && id == old(store)@.last_group_id
                    + 1 && final(store)@ == (StoreState { last_group_id: id, ..old(store)@ }),
                Err(e) => e == Error::IdentifierExhausted && old(store)@.last_group_id
                    == u64::MAX && final(store)@ == old(store)@,
            },
    {
        match store.last_group_id().checked_add(1) {
            Some(id) => {
                store.set_last_group_id(id);
                Ok(id)
            },
            None => Err(Error::IdentifierExhausted),
        }
    }

    /// Gives out the next transaction identifier: one more than the last.
    /// Refused when the last one is the greatest there is.
    pub fn get_next_transaction_id(store: &mut Store) -> (r: Result<u64, Error>)
        ensures
            match r {
                Ok(id) => old(store)@.last_transaction_id < u64::MAX && id == old(
                    store,
                )@.last_transaction_id + 1 && final(store)@ == (StoreState {
                    last_transaction_id: id,
                    ..old(store)@
                }),
                Err(e) => e == Error::IdentifierExhausted && old(store)@.last_transaction_id
                    == u64::MAX && final(store)@ == old(store)@,
            },
    {
        match store.last_transaction_id().checked_add(1) {
            Some(id) => {
                store.set_last_transaction_id(id);
                Ok(id)
            },
            None => Err(Error::IdentifierExhausted),
        }
    }

    /// Creates a group owned by `owner`, without members and with nothing
    /// recorded, and returns its identifier. Refused only when no group
    /// identifier is left.
    pub fn create_group(store: &mut Store, owner: Address) -> (r: Result<u64, Error>)
        ensures
            match r {
                Ok(id) => old(store)@.create_group_error().is_none()
                    && id == old(store)@.last_group_id + 1
                    && final(store)@ == old(store)@.create_group(owner@),
                Err(e) => old(store)@.create_group_error() == Some(e)
                    && final(store)@ == old(store)@,
            },
            error_of(r) == old(store)@.refusal((Call::CreateGroup { owner: owner@ })),
            final(store)@ == old(store)@.after((Call::CreateGroup { owner: owner@ })),
    {
        let id = match Self::get_next_group_id(store) {
            Ok(id) => id,
            Err(e) => {
                return Err(e);
            },
        };
        let group = Group::new(id, owner);
        store.save_group(group.clone());
        store.push_group_list(group);
        proof {
            assert(store@ =~= old(store)@.create_group(owner@));
        }
        Ok(id)
    }

    /// Registers a member under `user_id`. Refused when the user identifier
    /// is taken.
    pub fn create_member(store: &mut Store, user_id: Symbol, address: Address) -> (r: Result<
        (),
        Error,
    >)
        ensures
            match r {
                Ok(_) => old(store)@.create_member_error(user_id@).is_none() && final(store)@
                    == old(store)@.create_member(user_id@, address@),
                Err(e) => old(store)@.create_member_error(user_id@) == Some(e) && final(store)@
                    == old(store)@,
            },
            error_of(r) == old(store)@.refusal(
                (Call::CreateMember { user_id: user_id@, address: address@ }),
            ),
            final(store)@ == old(store)@.after(
                (Call::CreateMember { user_id: user_id@, address: address@ }),
            ),
    {
        if store.has(&DataKey::Member(user_id.clone())) {
            return Err(Error::UserIdAlreadyExists);
        }
        store.save_member(Member::new(user_id, address));
        Ok(())
    }

    /// Lets the user join the group, on the word of the group's owner: the
    /// user is put at the end of the group's members, and the user's balance
    /// in the group is set to zero. Refused when the group does not exist,
    /// when `caller` is not its owner, when the user is in it already, or
    /// when the user is not registered, in this order.
    pub fn add_member_to_group(
        store: &mut Store,
        group_id: u64,
        user_id: Symbol,
        caller: Address,
    ) -> (r: Result<(), Error>)
        ensures
            match r {
                Ok(_) => old(store)@.add_member_error(group_id, user_id@, caller@).is_none()
                    && final(store)@ == old(store)@.add_member_to_group(group_id, user_id@),
                Err(e) => old(store)@.add_member_error(group_id, user_id@, caller@) == Some(e)
                    && final(store)@ == old(store)@,
            },
            error_of(r) == old(store)@.refusal(
                (Call::AddMemberToGroup { group_id, user_id: user_id@, caller: caller@ }),
            ),
            final(store)@ == old(store)@.after(
                (Call::AddMemberToGroup { group_id, user_id: user_id@, caller: caller@ }),
            ),
    {
        let mut group = match store.load_group(group_id) {
            Some(group) => group,
            None => {
                return Err(Error::GroupNotFound);
            },
        };
        if !group.is_owner(&caller) {
            return Err(Error::Unauthorized);
        }
        if group.has_member(&user_id) {
            return Err(Error::MemberAlreadyExists);
        }
        let mut member = match store.load_member(&user_id) {
            Some(member) => member,
            None => {
                return Err(Error::MemberNotFound);
            },
        };
        let joined = group.add_member(user_id);
        member.join_group(group_id);
        store.save_group(group);
        store.save_member(member);
        proof {
            assert(joined.is_ok());
            assert(store@ =~= old(store)@.add_member_to_group(group_id, user_id@));
        }
        Ok(())
    }

    /// Records a contribution of the user to the group and returns the
    /// transaction's identifier. The transaction is stored without
    /// approvals, and the amount is added to the group's total and to the
    /// user's balance in the group, counted from zero where the user has
    /// none there. Refused when the group does not exist, when the user is
    /// not registered, when a running total would leave its range, or when
    /// no transaction identifier is left, in this order.
    pub fn add_transaction(
        store: &mut Store,
        user_id: Symbol,
        group_id: u64,
        amount: u64,
        proof_ref: Symbol,
    ) -> (r: Result<u64, Error>)
        ensures
            match r {
                Ok(id) => old(store)@.add_transaction_error(user_id@, group_id, amount).is_none()
                    && id == old(store)@.last_transaction_id + 1
                    && final(store)@ == old(store)@.add_transaction(
                    user_id@,
                    group_id,
                    amount,
                    proof_ref@,
                ),
                Err(e) => old(store)@.add_transaction_error(user_id@, group_id, amount) == Some(e)
                    && final(store)@ == old(store)@,
            },
            error_of(r) == old(store)@.refusal(
                (Call::AddTransaction {
                    user_id: user_id@,
                    group_id,
                    amount,
                    proof_ref: proof_ref@,
                }),
            ),
            final(store)@ == old(store)@.after(
                (Call::AddTransaction {
                    user_id: user_id@,
                    group_id,
                    amount,
                    proof_ref: proof_ref@,
                }),
            ),
    {
        let mut group = match store.load_group(group_id) {
            Some(group) => group,
            None => {
                return Err(Error::GroupNotFound);
            },
        };
        let mut member = match store.load_member(&user_id) {
            Some(member) => member,
            None => {
                return Err(Error::MemberNotFound);
            },
        };
        match group.add_amount(amount) {
            Ok(_) => {},
            Err(e) => {
                return Err(e);
            },
        }
        match member.contribute(group_id, amount) {
            Ok(_) => {},
            Err(e) => {
                return Err(e);
            },
        }
        let id = match Self::get_next_transaction_id(store) {
            Ok(id) => id,
            Err(e) => {
                return Err(e);
            },
        };
        store.save_transaction(Transaction::new(id, user_id, group_id, amount, proof_ref));
        store.save_group(group);
        store.save_member(member);
        proof {
            assert(store@ =~= old(store)@.add_transaction(user_id@, group_id, amount, proof_ref@));
        }
        Ok(id)
    }

    /// Records that the approver ratifies the transaction. An approver who
    /// has done so before changes nothing, and that is no error. Refused
    /// when the transaction does not exist, when its group does not exist,
    /// or when the approver is not a member of that group, in this order.
    pub fn approve_transaction(store: &mut Store, tx_id: u64, approver_id: Symbol) -> (r: Result<
        (),
        Error,
    >)
        ensures
            match r {
                Ok(_) => old(store)@.approve_error(tx_id, approver_id@).is_none() && final(store)@
                    == old(store)@.approve_transaction(tx_id, approver_id@),
                Err(e) => old(store)@.approve_error(tx_id, approver_id@) == Some(e)
                    && final(store)@ == old(store)@,
            },
            error_of(r) == old(store)@.refusal(
                (Call::ApproveTransaction { tx_id, approver: approver_id@ }),
            ),
            final(store)@ == old(store)@.after(
                (Call::ApproveTransaction { tx_id, approver: approver_id@ }),
            ),
    {
        let mut tx = match store.load_transaction(tx_id) {
            Some(tx) => tx,
            None => {
                return Err(Error::TransactionNotFound);
            },
        };
        let group = match store.load_group(tx.group_id()) {
            Some(group) => group,
            None => {
                return Err(Error::GroupNotFound);
            },
        };
        if !group.has_member(&approver_id) {
            return Err(Error::Unauthorized);
        }
        if tx.approve(approver_id) {
            store.save_transaction(tx);
        }
        proof {
            assert(store@ =~= old(store)@.approve_transaction(tx_id, approver_id@));
        }
        Ok(())
    }

    /// Every group, as it was at its creation, in the order of creation.
    /// The store is left as it is.
    pub fn get_all_groups(store: &Store) -> (groups: Vec<Group>)
        ensures
            group_views(groups@) == store@.group_list,
    {
        store.group_list()
    }
}

} // verus!
