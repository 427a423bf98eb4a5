use crate::balances::Balances;
use crate::error::Error;
use crate::identity::{Address, Symbol};
use vstd::prelude::*;

verus! {

/// What a member is, as plain mathematics.
#[verifier::ext_equal]
pub struct MemberView {
    /// The user identifier, which no other member has.
    pub user_id: Seq<char>,
    /// The key of the member's address.
    pub address: Seq<char>,
    /// What the member has contributed to each group joined or paid into.
    pub group_balances: Map<u64, u64>,
}

/// A registered participant, with what the participant has contributed to
/// each group.
#[derive(Debug, PartialEq, Eq)]
pub struct Member {
    user_id: Symbol,
    address: Address,
    group_balances: Balances,
}

impl View for Member {
    type V = MemberView;

    closed spec fn view(&self) -> MemberView {
        MemberView {
            user_id: self.user_id@,
            address: self.address@,
            group_balances: self.group_balances@,
        }
    }
}

/// The member as it is right after registration: in no group.
pub open spec fn fresh_member(user_id: Seq<char>, address: Seq<char>) -> MemberView {
    MemberView { user_id, address, group_balances: Map::empty() }
}

/// What a member has contributed to a group: the recorded amount, or zero
/// where none is recorded.
pub open spec fn balance_or_zero(balances: Map<u64, u64>, group_id: u64) -> u64 {
    if balances.contains_key(group_id) {
        balances[group_id]
    } else {
        0
    }
}

impl Member {
    /// A new member, in no group.
    pub fn new(user_id: Symbol, address: Address) -> (member: Member)
        ensures
            member@ == fresh_member(user_id@, address@),
    {
        Member { user_id, address, group_balances: Balances::new() }
    }

    /// The member with the given fields.
    pub fn from_parts(user_id: Symbol, address: Address, group_balances: Balances) -> (member:
        Member)
        ensures
            member@ == (MemberView {
                user_id: user_id@,
                address: address@,
                group_balances: group_balances@,
            }),
    {
        Member { user_id, address, group_balances }
    }

    /// The user identifier.
    pub fn user_id(&self) -> (user_id: &Symbol)
        ensures
            user_id@ == self@.user_id,
    {
        &self.user_id
    }

    /// The member's address.
    pub fn address(&self) -> (address: &Address)
        ensures
            address@ == self@.address,
    {
        &self.address
    }

    /// What the member has contributed, group by group.
    pub fn group_balances(&self) -> (balances: &Balances)
        ensures
            balances@ == self@.group_balances,
    {
        &self.group_balances
    }

    /// What is recorded for the member in a group, if anything is.
    pub fn balance_in(&self, group_id: u64) -> (amount: Option<u64>)
        ensures
            amount == (if self@.group_balances.contains_key(group_id) {
                Some(self@.group_balances[group_id])
            } else {
                None
            }),
    {
        self.group_balances.get(group_id)
    }

    /// Records that the member has joined a group: the balance there is zero.
    pub fn join_group(&mut self, group_id: u64)
        ensures
            final(self)@ == (MemberView {
                group_balances: old(self)@.group_balances.insert(group_id, 0),
                ..old(self)@
            }),
    {
        self.group_balances.set(group_id, 0);
    }

    /// Adds `amount` to what is recorded for the group, counting from zero
    /// where nothing is recorded, unless the sum leaves the range.
    pub fn contribute(&mut self, group_id: u64, amount: u64) -> (r: Result<(), Error>)
        ensures
            balance_or_zero(old(self)@.group_balances, group_id) + amount > u64::MAX ==> r
                == Err::<(), Error>(Error::AmountOverflow) && final(self)@ == old(self)@,
            balance_or_zero(old(self)@.group_balances, group_id) + amount <= u64::MAX ==> r.is_ok()
                && final(self)@ == (MemberView {
                group_balances: old(self)@.group_balances.insert(
                    group_id,
                    (balance_or_zero(old(self)@.group_balances, group_id) + amount) as u64,
                ),
                ..old(self)@
            }),
    {
        let current = match self.group_balances.get(group_id) {
            Some(balance) => balance,
            None => 0,
        };
        match current.checked_add(amount) {
            Some(balance) => {
                self.group_balances.set(group_id, balance);
                Ok(())
            },
            None => Err(Error::AmountOverflow),
        }
    }
}

impl Clone for Member {
    fn clone(&self) -> (copy: Member)
        ensures
            copy@ == self@,
    {
        Member {
            user_id: self.user_id.clone(),
            address: self.address.clone(),
            group_balances: self.group_balances.clone(),
        }
    }
}

} // verus!
