use crate::assoc::{as_map, keys_distinct, lemma_key_not_in_map, lemma_pair_in_map, lemma_push_pair, lemma_update_pair};
use vstd::prelude::*;

verus! {

/// What one member has contributed, group by group: at most one amount for
/// each group identifier.
#[derive(Debug, PartialEq, Eq)]
pub struct Balances {
    entries: Vec<(u64, u64)>,
}

impl View for Balances {
    type V = Map<u64, u64>;

    closed spec fn view(&self) -> Map<u64, u64> {
        as_map(self.entries@)
    }
}

/// The first place in `entries` that holds the group, or the length of
/// `entries` where none does.
fn position(entries: &Vec<(u64, u64)>, group_id: u64) -> (i: usize)
    ensures
        i <= entries@.len(),
        i < entries@.len() ==> entries@[i as int].0 == group_id,
        forall|j: int| 0 <= j < i ==> entries@[j].0 != group_id,
{
    let mut i: usize = 0;
    while i < entries.len()
        invariant
            i <= entries@.len(),
            forall|j: int| 0 <= j < i ==> entries@[j].0 != group_id,
        decreases entries@.len() - i,
    {
        if entries[i].0 == group_id {
            return i;
        }
        i += 1;
    }
    i
}

/// A copy of a list of pairs.
fn copy_pairs(entries: &Vec<(u64, u64)>) -> (copy: Vec<(u64, u64)>)
    ensures
        copy@ == entries@,
{
    let mut copy: Vec<(u64, u64)> = Vec::new();
    let mut i: usize = 0;
    while i < entries.len()
        invariant
            i <= entries@.len(),
            copy@ == entries@.take(i as int),
        decreases entries@.len() - i,
    {
        copy.push(entries[i]);
        proof {
            assert(entries@.take(i as int).push(entries@[i as int]) =~= entries@.take(i + 1));
        }
        i += 1;
    }
    proof {
        assert(entries@.take(entries@.len() as int) =~= entries@);
    }
    copy
}

impl Balances {
    #[verifier::type_invariant]
    spec fn distinct_groups(self) -> bool {
        keys_distinct(self.entries@)
    }

    /// The balances of a member who belongs to no group.
    pub fn new() -> (balances: Balances)
        ensures
            balances@ == Map::<u64, u64>::empty(),
    {
        let balances = Balances { entries: Vec::new() };
        proof {
            assert(balances@ =~= Map::<u64, u64>::empty());
        }
        balances
    }

    /// The amount recorded for a group, if one is.
    pub fn get(&self, group_id: u64) -> (amount: Option<u64>)
        ensures
            amount == (if self@.contains_key(group_id) {
                Some(self@[group_id])
            } else {
                None
            }),
    {
        proof {
            use_type_invariant(self);
        }
        let i = position(&self.entries, group_id);
        if i < self.entries.len() {
            proof {
                lemma_pair_in_map(self.entries@, i as int);
            }
            Some(self.entries[i].1)
        } else {
            proof {
                lemma_key_not_in_map(self.entries@, group_id);
            }
            None
        }
    }

    /// Records `amount` for the group, in place of what was recorded for it.
    pub fn set(&mut self, group_id: u64, amount: u64)
        ensures
            final(self)@ == old(self)@.insert(group_id, amount),
    {
        proof {
            use_type_invariant(&*self);
        }
        let mut entries: Vec<(u64, u64)> = Vec::new();
        std::mem::swap(&mut entries, &mut self.entries);
        let ghost before = entries@;
        let i = position(&entries, group_id);
        if i < entries.len() {
            proof {
                lemma_update_pair(before, i as int, amount);
            }
            entries[i] = (group_id, amount);
        } else {
            proof {
                lemma_push_pair(before, group_id, amount);
            }
            entries.push((group_id, amount));
        }
        self.entries = entries;
    }

    /// The recorded amounts as pairs of a group identifier and an amount.
    pub fn to_pairs(&self) -> (pairs: Vec<(u64, u64)>)
        ensures
            keys_distinct(pairs@),
            as_map(pairs@) == self@,
    {
        proof {
            use_type_invariant(self);
        }
        copy_pairs(&self.entries)
    }

    /// The balances that a list of pairs stands for, or nothing where a
    /// group identifier stands twice in it.
    pub fn from_pairs(pairs: Vec<(u64, u64)>) -> (balances: Option<Balances>)
        ensures
            balances.is_some() == keys_distinct(pairs@),
            balances.is_some() ==> balances.unwrap()@ == as_map(pairs@),
    {
        let mut i: usize = 0;
        while i < pairs.len()
            invariant
                i <= pairs.len(),
                forall|a: int, b: int| 0 <= a < b < i ==> pairs@[a].0 != pairs@[b].0,
            decreases pairs.len() - i,
        {
            let mut j: usize = 0;
            while j < i
                invariant
                    j <= i < pairs.len(),
                    forall|a: int| 0 <= a < j ==> pairs@[a].0 != pairs@[i as int].0,
                decreases i - j,
            {
                if pairs[j].0 == pairs[i].0 {
                    return None;
                }
                j += 1;
            }
            i += 1;
        }
        Some(Balances { entries: pairs })
    }
}

impl Clone for Balances {
    fn clone(&self) -> (copy: Balances)
        ensures
            copy@ == self@,
    {
        proof {
            use_type_invariant(self);
        }
        Balances { entries: copy_pairs(&self.entries) }
    }
}

} // verus!
