use vstd::prelude::*;

verus! {

/// Why a ledger operation was refused. A refused operation leaves the store
/// exactly as it found it.
#[derive(Copy, Clone, Debug, PartialEq, Eq, Structural)]
pub enum Error {
    /// A group with this identifier is already stored.
    GroupAlreadyExists,
    /// No group is stored under the identifier.
    GroupNotFound,
    /// The caller is not the group's owner, or the approver is not one of
    /// the group's members.
    Unauthorized,
    /// The user is already a member of the group.
    MemberAlreadyExists,
    /// No member is stored under the user identifier.
    MemberNotFound,
    /// A member with this user identifier is already stored.
    UserIdAlreadyExists,
    /// The identifier counter has reached the end of its range.
    IdentifierExhausted,
    /// No transaction is stored under the identifier.
    TransactionNotFound,
    /// Adding the amount would leave the range of a running total.
    AmountOverflow,
}

impl Error {
    /// The number under which each error is reported to a host.
    pub open spec fn spec_code(self) -> u32 {
        match self {
            Error::GroupAlreadyExists => 1,
            Error::GroupNotFound => 2,
            Error::Unauthorized => 3,
            Error::MemberAlreadyExists => 4,
            Error::MemberNotFound => 5,
            Error::UserIdAlreadyExists => 6,
            Error::IdentifierExhausted => 7,
            Error::TransactionNotFound => 8,
            Error::AmountOverflow => 9,
        }
    }

    /// The number under which this error is reported to a host.
    #[verifier::when_used_as_spec(spec_code)]
    pub fn code(self) -> (c: u32)
        ensures
            c == self.spec_code(),
    {
        match self {
            Error::GroupAlreadyExists => 1,
            Error::GroupNotFound => 2,
            Error::Unauthorized => 3,
            Error::MemberAlreadyExists => 4,
            Error::MemberNotFound => 5,
            Error::UserIdAlreadyExists => 6,
            Error::IdentifierExhausted => 7,
            Error::TransactionNotFound => 8,
            Error::AmountOverflow => 9,
        }
    }

    /// The error that a code stands for, if it stands for one.
    pub fn from_code(code: u32) -> (e: Option<Error>)
        ensures
            1 <= code <= 9 <==> e.is_some(),
            e.is_some() ==> e.unwrap().spec_code() == code,
    {
        if code == 1 {
            Some(Error::GroupAlreadyExists)
        } else if code == 2 {
            Some(Error::GroupNotFound)
        } else if code == 3 {
            Some(Error::Unauthorized)
        } else if code == 4 {
            Some(Error::MemberAlreadyExists)
        } else if code == 5 {
            Some(Error::MemberNotFound)
        } else if code == 6 {
            Some(Error::UserIdAlreadyExists)
        } else if code == 7 {
            Some(Error::IdentifierExhausted)
        } else if code == 8 {
            Some(Error::TransactionNotFound)
        } else if code == 9 {
            Some(Error::AmountOverflow)
        } else {
            None
        }
    }
}

} // verus!
