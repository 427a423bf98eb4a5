use vstd::prelude::*;

verus! {

/// A short human-readable name: a user identifier, or a reference to the
/// evidence for a transaction. Two symbols are the same when their
/// characters are.
#[derive(Debug, PartialEq, Eq)]
pub struct Symbol {
    text: String,
}

impl View for Symbol {
    type V = Seq<char>;

    closed spec fn view(&self) -> Seq<char> {
        self.text@
    }
}

impl Symbol {
    /// The symbol with the characters of `text`.
    pub fn new(text: &str) -> (s: Symbol)
        ensures
            s@ == text@,
    {
        Symbol { text: text.to_owned() }
    }

    /// The characters of the symbol.
    pub fn as_str(&self) -> (text: &str)
        ensures
            text@ == self@,
    {
        self.text.as_str()
    }

    /// Whether both symbols have the same characters.
    pub fn same(&self, other: &Symbol) -> (b: bool)
        ensures
            b == (self@ == other@),
    {
        self.text == other.text
    }
}

impl Clone for Symbol {
    fn clone(&self) -> (c: Symbol)
        ensures
            c@ == self@,
    {
        Symbol { text: self.text.clone() }
    }
}

/// The account that an identity acts through, held as its printed key.
/// Two addresses are the same when their keys are.
#[derive(Debug, PartialEq, Eq)]
pub struct Address {
    key: String,
}

impl View for Address {
    type V = Seq<char>;

    closed spec fn view(&self) -> Seq<char> {
        self.key@
    }
}

impl Address {
    /// The address with the printed key `key`.
    pub fn new(key: &str) -> (a: Address)
        ensures
            a@ == key@,
    {
        Address { key: key.to_owned() }
    }

    /// The printed key of the address.
    pub fn as_str(&self) -> (key: &str)
        ensures
            key@ == self@,
    {
        self.key.as_str()
    }

    /// Whether both addresses have the same key.
    pub fn same(&self, other: &Address) -> (b: bool)
        ensures
            b == (self@ == other@),
    {
        self.key == other.key
    }
}

impl Clone for Address {
    fn clone(&self) -> (c: Address)
        ensures
            c@ == self@,
    {
        Address { key: self.key.clone() }
    }
}

/// The characters of each symbol of a list, in the list's order.
pub open spec fn symbol_views(symbols: Seq<Symbol>) -> Seq<Seq<char>> {
    Seq::new(symbols.len(), |i: int| symbols[i]@)
}

/// Whether a symbol with the characters of `wanted` stands in `symbols`.
pub fn contains_symbol(symbols: &Vec<Symbol>, wanted: &Symbol) -> (found: bool)
    ensures
        found == symbol_views(symbols@).contains(wanted@),
{
    let mut i: usize = 0;
    while i < symbols.len()
        invariant
            i <= symbols.len(),
            forall|j: int| 0 <= j < i ==> symbols@[j]@ != wanted@,
        decreases symbols.len() - i,
    {
        if symbols[i].same(wanted) {
            proof {
                assert(symbol_views(symbols@)[i as int] == wanted@);
            }
            return true;
        }
        i += 1;
    }
    proof {
        assert forall|j: int| 0 <= j < symbol_views(symbols@).len() implies symbol_views(
            symbols@,
        )[j] != wanted@ by {
            assert(symbol_views(symbols@)[j] == symbols@[j]@);
        }
    }
    false
}

/// A copy of a list of symbols, item by item.
pub fn clone_symbols(symbols: &Vec<Symbol>) -> (copy: Vec<Symbol>)
    ensures
        symbol_views(copy@) == symbol_views(symbols@),
{
    let mut copy: Vec<Symbol> = Vec::new();
    let mut i: usize = 0;
    while i < symbols.len()
        invariant
            i <= symbols.len(),
            copy@.len() == i,
            forall|j: int| 0 <= j < i ==> copy@[j]@ == symbols@[j]@,
        decreases symbols.len() - i,
    {
        copy.push(symbols[i].clone());
        i += 1;
    }
    proof {
        assert(symbol_views(copy@) =~= symbol_views(symbols@));
    }
    copy
}

/// Whether no two symbols of the list have the same characters.
pub fn symbols_distinct(symbols: &Vec<Symbol>) -> (distinct: bool)
    ensures
        distinct == symbol_views(symbols@).no_duplicates(),
{
    let ghost views = symbol_views(symbols@);
    let mut i: usize = 0;
    while i < symbols.len()
        invariant
            i <= symbols@.len(),
            views == symbol_views(symbols@),
            forall|a: int, b: int| 0 <= a < b < i ==> views[a] != views[b],
        decreases symbols@.len() - i,
    {
        let mut j: usize = 0;
        while j < i
            invariant
                j <= i < symbols@.len(),
                views == symbol_views(symbols@),
                forall|a: int| 0 <= a < j ==> views[a] != views[i as int],
            decreases i - j,
        {
            if symbols[j].same(&symbols[i]) {
                proof {
                    assert(views[j as int] == views[i as int]);
                }
                return false;
            }
            j += 1;
        }
        i += 1;
    }
    proof {
        assert forall|a: int, b: int|
            0 <= a < views.len() && 0 <= b < views.len() && a != b implies views[a]
            != views[b] by {
            if a < b {
                assert(views[a] != views[b]);
            } else {
                assert(views[b] != views[a]);
            }
        }
    }
    true
}

} // verus!
