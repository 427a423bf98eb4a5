use crate::error::Error;
use crate::identity::{clone_symbols, contains_symbol, symbol_views, symbols_distinct, Address, Symbol};
use vstd::prelude::*;

verus! {

/// What a group is, as plain mathematics.
#[verifier::ext_equal]
pub struct GroupView {
    /// The identifier given at creation.
    pub group_id: u64,
    /// The key of the creator's address.
    pub owner: Seq<char>,
    /// The sum of the amounts recorded against the group.
    pub total_amount: u64,
    /// The user identifiers of the members, in the order they joined.
    pub members: Seq<Seq<char>>,
}

/// A pool with one owner and a list of members, in which no user
/// identifier stands twice.
#[derive(Debug, PartialEq, Eq)]
pub struct Group {
    group_id: u64,
    owner: Address,
    total_amount: u64,
    members: Vec<Symbol>,
}

impl View for Group {
    type V = GroupView;

    closed spec fn view(&self) -> GroupView {
        GroupView {
            group_id: self.group_id,
            owner: self.owner@,
            total_amount: self.total_amount,
            members: symbol_views(self.members@),
        }
    }
}

/// The group as it is right after creation: nothing recorded, nobody in it.
pub open spec fn fresh_group(group_id: u64, owner: Seq<char>) -> GroupView {
    GroupView { group_id, owner, total_amount: 0, members: Seq::empty() }
}

impl Group {
    #[verifier::type_invariant]
    spec fn members_distinct(self) -> bool {
        symbol_views(self.members@).no_duplicates()
    }

    /// A new group of `owner`, with no member and nothing recorded.
    pub fn new(group_id: u64, owner: Address) -> (group: Group)
        ensures
            group@ == fresh_group(group_id, owner@),
    {
        let group = Group { group_id, owner, total_amount: 0, members: Vec::new() };
        proof {
            assert(group@.members =~= Seq::<Seq<char>>::empty());
        }
        group
    }

    /// The group with the given fields, or nothing where a user identifier
    /// stands twice among `members`.
    pub fn from_parts(group_id: u64, owner: Address, total_amount: u64, members: Vec<Symbol>) -> (group:
        Option<Group>)
        ensures
            group.is_some() == symbol_views(members@).no_duplicates(),
            group.is_some() ==> group.unwrap()@ == (GroupView {
                group_id,
                owner: owner@,
                total_amount,
                members: symbol_views(members@),
            }),
    {
        if symbols_distinct(&members) {
            Some(Group { group_id, owner, total_amount, members })
        } else {
            None
        }
    }

    /// The identifier given at creation.
    pub fn group_id(&self) -> (id: u64)
        ensures
            id == self@.group_id,
    {
        self.group_id
    }

    /// The address of the creator.
    pub fn owner(&self) -> (owner: &Address)
        ensures
            owner@ == self@.owner,
    {
        &self.owner
    }

    /// The sum of the amounts recorded against the group.
    pub fn total_amount(&self) -> (total: u64)
        ensures
            total == self@.total_amount,
    {
        self.total_amount
    }

    /// The user identifiers of the members, in the order they joined.
    pub fn members(&self) -> (members: &Vec<Symbol>)
        ensures
            symbol_views(members@) == self@.members,
            self@.members.no_duplicates(),
    {
        proof {
            use_type_invariant(self);
        }
        &self.members
    }

    /// Whether `address` is the owner's.
    pub fn is_owner(&self, address: &Address) -> (b: bool)
        ensures
            b == (self@.owner == address@),
    {
        self.owner.same(address)
    }

    /// Whether the user is a member.
    pub fn has_member(&self, user_id: &Symbol) -> (b: bool)
        ensures
            b == self@.members.contains(user_id@),
    {
        contains_symbol(&self.members, user_id)
    }

    /// Puts the user at the end of the members, unless the user is one
    /// already.
    pub fn add_member(&mut self, user_id: Symbol) -> (r: Result<(), Error>)
        ensures
            old(self)@.members.contains(user_id@) ==> r == Err::<(), Error>(
                Error::MemberAlreadyExists,
            ) && final(self)@ == old(self)@,
            !old(self)@.members.contains(user_id@) ==> r.is_ok() && final(self)@ == (GroupView {
                members: old(self)@.members.push(user_id@),
                ..old(self)@
            }),
    {
        proof {
            use_type_invariant(&*self);
        }
        if contains_symbol(&self.members, &user_id) {
            return Err(Error::MemberAlreadyExists);
        }
        let mut members: Vec<Symbol> = Vec::new();
        std::mem::swap(&mut members, &mut self.members);
        let ghost before = symbol_views(members@);
        members.push(user_id);
        proof {
            assert(symbol_views(members@) =~= before.push(user_id@));
            assert forall|i: int, j: int|
                0 <= i < before.len() + 1 && 0 <= j < before.len() + 1 && i != j implies before.push(
                user_id@,
            )[i] != before.push(user_id@)[j] by {
                if i < before.len() && j < before.len() {
                    assert(before[i] != before[j]);
                } else if i < before.len() {
                    assert(before.contains(before[i]));
                } else {
                    assert(before.contains(before[j]));
                }
            }
        }
        self.members = members;
        Ok(())
    }

    /// Adds `amount` to the total, unless the sum leaves the range.
    pub fn add_amount(&mut self, amount: u64) -> (r: Result<(), Error>)
        ensures
            old(self)@.total_amount + amount > u64::MAX ==> r == Err::<(), Error>(
                Error::AmountOverflow,
            ) && final(self)@ == old(self)@,
            old(self)@.total_amount + amount <= u64::MAX ==> r.is_ok() && final(self)@ == (
            GroupView {
                total_amount: (old(self)@.total_amount + amount) as u64,
                ..old(self)@
            }),
    {
        proof {
            use_type_invariant(&*self);
        }
        match self.total_amount.checked_add(amount) {
            Some(total) => {
                self.total_amount = total;
                Ok(())
            },
            None => Err(Error::AmountOverflow),
        }
    }
}

impl Clone for Group {
    fn clone(&self) -> (copy: Group)
        ensures
            copy@ == self@,
    {
        proof {
            use_type_invariant(self);
        }
        Group {
            group_id: self.group_id,
            owner: self.owner.clone(),
            total_amount: self.total_amount,
            members: clone_symbols(&self.members),
        }
    }
}

} // verus!
