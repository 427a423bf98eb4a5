use crate::identity::{clone_symbols, contains_symbol, symbol_views, symbols_distinct, Symbol};
use vstd::prelude::*;

verus! {

/// What a transaction is, as plain mathematics.
#[verifier::ext_equal]
pub struct TransactionView {
    /// The identifier given at creation.
    pub id: u64,
    /// The user identifier of the contributing member.
    pub user_id: Seq<char>,
    /// The group that the contribution goes to.
    pub group_id: u64,
    /// The contributed amount.
    pub amount: u64,
    /// The reference to the supporting evidence, as it was handed in.
    pub proof_ref: Seq<char>,
    /// The user identifiers of the members who approved, in the order they
    /// did.
    pub approvals: Seq<Seq<char>>,
}

/// A recorded contribution of a member to a group, with the approvals it
/// has gathered. No user identifier stands twice among the approvals.
#[derive(Debug, PartialEq, Eq)]
pub struct Transaction {
    id: u64,
    user_id: Symbol,
    group_id: u64,
    amount: u64,
    proof_ref: Symbol,
    approvals: Vec<Symbol>,
}

impl View for Transaction {
    type V = TransactionView;

    closed spec fn view(&self) -> TransactionView {
        TransactionView {
            id: self.id,
            user_id: self.user_id@,
            group_id: self.group_id,
            amount: self.amount,
            proof_ref: self.proof_ref@,
            approvals: symbol_views(self.approvals@),
        }
    }
}

/// The transaction as it is right after creation: approved by nobody.
pub open spec fn fresh_transaction(
    id: u64,
    user_id: Seq<char>,
    group_id: u64,
    amount: u64,
    proof_ref: Seq<char>,
) -> TransactionView {
    TransactionView { id, user_id, group_id, amount, proof_ref, approvals: Seq::empty() }
}

/// The approvals after `approver` has approved: the approver stands at the
/// end, unless the approver stood among them already.
pub open spec fn approved_by(approvals: Seq<Seq<char>>, approver: Seq<char>) -> Seq<Seq<char>> {
    if approvals.contains(approver) {
        approvals
    } else {
        approvals.push(approver)
    }
}

impl Transaction {
    #[verifier::type_invariant]
    spec fn approvals_distinct(self) -> bool {
        symbol_views(self.approvals@).no_duplicates()
    }

    /// A new transaction, approved by nobody.
    pub fn new(id: u64, user_id: Symbol, group_id: u64, amount: u64, proof_ref: Symbol) -> (tx:
        Transaction)
        ensures
            tx@ == fresh_transaction(id, user_id@, group_id, amount, proof_ref@),
    {
        let tx = Transaction { id, user_id, group_id, amount, proof_ref, approvals: Vec::new() };
        proof {
            assert(tx@.approvals =~= Seq::<Seq<char>>::empty());
        }
        tx
    }

    /// The transaction with the given fields, or nothing where a user
    /// identifier stands twice among `approvals`.
    pub fn from_parts(
        id: u64,
        user_id: Symbol,
        group_id: u64,
        amount: u64,
        proof_ref: Symbol,
        approvals: Vec<Symbol>,
    ) -> (tx: Option<Transaction>)
        ensures
            tx.is_some() == symbol_views(approvals@).no_duplicates(),
            tx.is_some() ==> tx.unwrap()@ == (TransactionView {
                id,
                user_id: user_id@,
                group_id,
                amount,
                proof_ref: proof_ref@,
                approvals: symbol_views(approvals@),
            }),
    {
        if symbols_distinct(&approvals) {
            Some(Transaction { id, user_id, group_id, amount, proof_ref, approvals })
        } else {
            None
        }
    }

    /// The identifier given at creation.
    pub fn id(&self) -> (id: u64)
        ensures
            id == self@.id,
    {
        self.id
    }

    /// The user identifier of the contributing member.
    pub fn user_id(&self) -> (user_id: &Symbol)
        ensures
            user_id@ == self@.user_id,
    {
        &self.user_id
    }

    /// The group that the contribution goes to.
    pub fn group_id(&self) -> (group_id: u64)
        ensures
            group_id == self@.group_id,
    {
        self.group_id
    }

    /// The contributed amount.
    pub fn amount(&self) -> (amount: u64)
        ensures
            amount == self@.amount,
    {
        self.amount
    }

    /// The reference to the supporting evidence.
    pub fn proof_ref(&self) -> (proof_ref: &Symbol)
        ensures
            proof_ref@ == self@.proof_ref,
    {
        &self.proof_ref
    }

    /// The user identifiers of the members who approved, in the order they
    /// did.
    pub fn approvals(&self) -> (approvals: &Vec<Symbol>)
        ensures
            symbol_views(approvals@) == self@.approvals,
            self@.approvals.no_duplicates(),
    {
        proof {
            use_type_invariant(self);
        }
        &self.approvals
    }

    /// Whether the user has approved.
    pub fn has_approval(&self, user_id: &Symbol) -> (b: bool)
        ensures
            b == self@.approvals.contains(user_id@),
    {
        contains_symbol(&self.approvals, user_id)
    }

    /// Records the approval of `approver`. Says whether the approvals grew:
    /// they do not where the approver has approved before.
    pub fn approve(&mut self, approver: Symbol) -> (grew: bool)
        ensures
            grew == !old(self)@.approvals.contains(approver@),
            final(self)@ == (TransactionView {
                approvals: approved_by(old(self)@.approvals, approver@),
                ..old(self)@
            }),
    {
        proof {
            use_type_invariant(&*self);
        }
        if contains_symbol(&self.approvals, &approver) {
            return false;
        }
        let mut approvals: Vec<Symbol> = Vec::new();
        std::mem::swap(&mut approvals, &mut self.approvals);
        let ghost before = symbol_views(approvals@);
        approvals.push(approver);
        proof {
            assert(symbol_views(approvals@) =~= before.push(approver@));
            assert forall|i: int, j: int|
                0 <= i < before.len() + 1 && 0 <= j < before.len() + 1 && i != j implies before.push(
                approver@,
            )[i] != before.push(approver@)[j] by {
                if i < before.len() && j < before.len() {
                    assert(before[i] != before[j]);
                } else if i < before.len() {
                    assert(before.contains(before[i]));
                } else {
                    assert(before.contains(before[j]));
                }
            }
        }
        self.approvals = approvals;
        true
    }
}

impl Clone for Transaction {
    fn clone(&self) -> (copy: Transaction)
        ensures
            copy@ == self@,
    {
        proof {
            use_type_invariant(self);
        }
        Transaction {
            id: self.id,
            user_id: self.user_id.clone(),
            group_id: self.group_id,
            amount: self.amount,
            proof_ref: self.proof_ref.clone(),
            approvals: clone_symbols(&self.approvals),
        }
    }
}

} // verus!
