use crate::error::Error;
use crate::group::{fresh_group, GroupView};
use crate::member::{balance_or_zero, fresh_member, MemberView};
use crate::transaction::{approved_by, fresh_transaction, TransactionView};
use vstd::prelude::*;

verus! {

/// What the persistent store holds, as plain mathematics: each kind of
/// record under its identifier, the two identifier counters, and the list
/// of groups as they were created.
#[verifier::ext_equal]
pub struct StoreState {
    /// The groups, each under its identifier.
    pub groups: Map<u64, GroupView>,
    /// The members, each under its user identifier.
    pub members: Map<Seq<char>, MemberView>,
    /// The transactions, each under its identifier.
    pub transactions: Map<u64, TransactionView>,
    /// The last group identifier given out, zero before the first.
    pub last_group_id: u64,
    /// The last transaction identifier given out, zero before the first.
    pub last_transaction_id: u64,
    /// Every group as it was at its creation, in the order of creation.
    pub group_list: Seq<GroupView>,
}

/// The store before anything was written to it.
pub open spec fn empty_store() -> StoreState {
    StoreState {
        groups: Map::empty(),
        members: Map::empty(),
        transactions: Map::empty(),
        last_group_id: 0,
        last_transaction_id: 0,
        group_list: Seq::empty(),
    }
}

impl StoreState {
    /// Why `create_group` is refused, if it is: only for want of an
    /// identifier.
    pub open spec fn create_group_error(self) -> Option<Error> {
        if self.last_group_id == u64::MAX {
            Some(Error::IdentifierExhausted)
        } else {
            None
        }
    }

    /// The store after a group of `owner` was created: the next identifier
    /// is taken, the new group is stored under it and appended to the list
    /// of groups.
    pub open spec fn create_group(self, owner: Seq<char>) -> StoreState {
        let id = (self.last_group_id + 1) as u64;
        StoreState {
            last_group_id: id,
            groups: self.groups.insert(id, fresh_group(id, owner)),
            group_list: self.group_list.push(fresh_group(id, owner)),
            ..self
        }
    }

    /// Why `create_member` is refused, if it is: the user identifier is
    /// taken.
    pub open spec fn create_member_error(self, user_id: Seq<char>) -> Option<Error> {
        if self.members.contains_key(user_id) {
            Some(Error::UserIdAlreadyExists)
        } else {
            None
        }
    }

    /// The store after a member was registered.
    pub open spec fn create_member(self, user_id: Seq<char>, address: Seq<char>) -> StoreState {
        StoreState { members: self.members.insert(user_id, fresh_member(user_id, address)), ..self }
    }

    /// Why `add_member_to_group` is refused, if it is. The group must exist,
    /// the caller must own it, the user must not be in it yet, and the user
    /// must be registered; the first of these that fails decides.
    pub open spec fn add_member_error(
        self,
        group_id: u64,
        user_id: Seq<char>,
        caller: Seq<char>,
    ) -> Option<Error> {
        if !self.groups.contains_key(group_id) {
            Some(Error::GroupNotFound)
        } else if self.groups[group_id].owner != caller {
            Some(Error::Unauthorized)
        } else if self.groups[group_id].members.contains(user_id) {
            Some(Error::MemberAlreadyExists)
        } else if !self.members.contains_key(user_id) {
            Some(Error::MemberNotFound)
        } else {
            None
        }
    }

    /// The store after the user joined the group: the user stands at the
    /// end of the group's members, and the user's balance there is zero.
    pub open spec fn add_member_to_group(self, group_id: u64, user_id: Seq<char>) -> StoreState {
        let group = self.groups[group_id];
        let member = self.members[user_id];
        StoreState {
            groups: self.groups.insert(
                group_id,
                GroupView { members: group.members.push(user_id), ..group },
            ),
            members: self.members.insert(
                user_id,
                MemberView {
                    group_balances: member.group_balances.insert(group_id, 0),
                    ..member
                },
            ),
            ..self
        }
    }

    /// Why `add_transaction` is refused, if it is. The group and the member
    /// must exist, neither running total may leave its range, and an
    /// identifier must be left; the first of these that fails decides.
    pub open spec fn add_transaction_error(
        self,
        user_id: Seq<char>,
        group_id: u64,
        amount: u64,
    ) -> Option<Error> {
        if !self.groups.contains_key(group_id) {
            Some(Error::GroupNotFound)
        } else if !self.members.contains_key(user_id) {
            Some(Error::MemberNotFound)
        } else if self.groups[group_id].total_amount + amount > u64::MAX {
            Some(Error::AmountOverflow)
        } else if balance_or_zero(self.members[user_id].group_balances, group_id) + amount
            > u64::MAX {
            Some(Error::AmountOverflow)
        } else if self.last_transaction_id == u64::MAX {
            Some(Error::IdentifierExhausted)
        } else {
            None
        }
    }

    /// The store after a contribution was recorded: the next identifier is
    /// taken, the transaction is stored under it without approvals, and the
    /// amount is added to the group's total and to the member's balance in
    /// the group.
    pub open spec fn add_transaction(
        self,
        user_id: Seq<char>,
        group_id: u64,
        amount: u64,
        proof_ref: Seq<char>,
    ) -> StoreState {
        let id = (self.last_transaction_id + 1) as u64;
        let group = self.groups[group_id];
        let member = self.members[user_id];
        StoreState {
            last_transaction_id: id,
            transactions: self.transactions.insert(
                id,
                fresh_transaction(id, user_id, group_id, amount, proof_ref),
            ),
            groups: self.groups.insert(
                group_id,
                GroupView { total_amount: (group.total_amount + amount) as u64, ..group },
            ),
            members: self.members.insert(
                user_id,
                MemberView {
                    group_balances: member.group_balances.insert(
                        group_id,
                        (balance_or_zero(member.group_balances, group_id) + amount) as u64,
                    ),
                    ..member
                },
            ),
            ..self
        }
    }

    /// Why `approve_transaction` is refused, if it is. The transaction and
    /// its group must exist and the approver must be a member of that
    /// group; the first of these that fails decides.
    pub open spec fn approve_error(self, tx_id: u64, approver: Seq<char>) -> Option<Error> {
        if !self.transactions.contains_key(tx_id) {
            Some(Error::TransactionNotFound)
        } else if !self.groups.contains_key(self.transactions[tx_id].group_id) {
            Some(Error::GroupNotFound)
        } else if !self.groups[self.transactions[tx_id].group_id].members.contains(approver) {
            Some(Error::Unauthorized)
        } else {
            None
        }
    }

    /// The store after the approver approved the transaction: the approver
    /// stands among its approvals, once.
    pub open spec fn approve_transaction(self, tx_id: u64, approver: Seq<char>) -> StoreState {
        let tx = self.transactions[tx_id];
        StoreState {
            transactions: self.transactions.insert(
                tx_id,
                TransactionView { approvals: approved_by(tx.approvals, approver), ..tx },
            ),
            ..self
        }
    }
}

/// One call of a ledger operation with its arguments, as plain mathematics.
pub enum Call {
    /// `create_group` for this owner.
    CreateGroup { owner: Seq<char> },
    /// `create_member` with this user identifier and address.
    CreateMember { user_id: Seq<char>, address: Seq<char> },
    /// `add_member_to_group` by this caller.
    AddMemberToGroup { group_id: u64, user_id: Seq<char>, caller: Seq<char> },
    /// `add_transaction` by this user.
    AddTransaction { user_id: Seq<char>, group_id: u64, amount: u64, proof_ref: Seq<char> },
    /// `approve_transaction` by this approver.
    ApproveTransaction { tx_id: u64, approver: Seq<char> },
}

impl StoreState {
    /// Why the call is refused in this store, if it is.
    pub open spec fn refusal(self, call: Call) -> Option<Error> {
        match call {
            Call::CreateGroup { owner } => self.create_group_error(),
            Call::CreateMember { user_id, address } => self.create_member_error(user_id),
            Call::AddMemberToGroup { group_id, user_id, caller } => self.add_member_error(
                group_id,
                user_id,
                caller,
            ),
            Call::AddTransaction { user_id, group_id, amount, proof_ref } => {
                self.add_transaction_error(user_id, group_id, amount)
            },
            Call::ApproveTransaction { tx_id, approver } => self.approve_error(tx_id, approver),
        }
    }

    /// The store after the call: changed as the operation says where the
    /// call is accepted, and as it was where the call is refused.
    pub open spec fn after(self, call: Call) -> StoreState {
        if self.refusal(call).is_some() {
            self
        } else {
            match call {
                Call::CreateGroup { owner } => self.create_group(owner),
                Call::CreateMember { user_id, address } => self.create_member(user_id, address),
                Call::AddMemberToGroup { group_id, user_id, caller } => self.add_member_to_group(
                    group_id,
                    user_id,
                ),
                Call::AddTransaction { user_id, group_id, amount, proof_ref } => {
                    self.add_transaction(user_id, group_id, amount, proof_ref)
                },
                Call::ApproveTransaction { tx_id, approver } => self.approve_transaction(
                    tx_id,
                    approver,
                ),
            }
        }
    }

    /// The store after a sequence of calls, made one after the other.
    pub open spec fn after_all(self, calls: Seq<Call>) -> StoreState
        decreases calls.len(),
    {
        if calls.len() == 0 {
            self
        } else {
            self.after_all(calls.drop_last()).after(calls.last())
        }
    }
}

} // verus!
