//! A map keyed by ticker and kept in ticker order (the order of a
//! `BTreeMap<Symbol, V>`).

use vstd::prelude::*;
use crate::symbol_map::{entries_to_map, keys_unique, lemma_entries_at};
use crate::types::{Symbol, is_symbol_text, symbol_code, lemma_symbol_code_injective};

verus! {

/// Tickers in strictly increasing order, each six digits.
pub open spec fn codes_sorted<V>(s: Seq<(Symbol, V)>) -> bool {
    &&& forall|i: int| 0 <= i < s.len() ==> is_symbol_text(#[trigger] s[i].0@)
    &&& forall|i: int, j: int| 0 <= i < j < s.len() ==> symbol_code(#[trigger] s[i].0@) < symbol_code(#[trigger] s[j].0@)
}

pub proof fn lemma_sorted_unique<V>(s: Seq<(Symbol, V)>)
    requires
        codes_sorted(s),
    ensures
        keys_unique(s),
{
    assert forall|i: int, j: int| 0 <= i < j < s.len() implies #[trigger] s[i].0@ != #[trigger] s[j].0@ by {
        assert(symbol_code(s[i].0@) < symbol_code(s[j].0@));
    }
}

/// Inserting a new ticker at position `idx` adds it to the map.
pub proof fn lemma_entries_insert<V>(s: Seq<(Symbol, V)>, idx: int, e: (Symbol, V))
    requires
        keys_unique(s),
        keys_unique(s.insert(idx, e)),
        0 <= idx <= s.len(),
    ensures
        entries_to_map(s.insert(idx, e)) == entries_to_map(s).insert(e.0@, e.1),
{
    let t = s.insert(idx, e);
    let m = entries_to_map(s).insert(e.0@, e.1);
    assert forall|k: Seq<char>| #[trigger] entries_to_map(t).contains_key(k) == m.contains_key(k) by {
        if k == e.0@ {
            assert(t[idx].0@ == k);
        } else if entries_to_map(s).contains_key(k) {
            let c = choose|x: int| 0 <= x < s.len() && #[trigger] s[x].0@ == k;
            if c < idx {
                assert(t[c].0@ == k);
            } else {
                assert(t[c + 1].0@ == k);
            }
        } else if entries_to_map(t).contains_key(k) {
            let c = choose|x: int| 0 <= x < t.len() && #[trigger] t[x].0@ == k;
            if c < idx {
                assert(s[c].0@ == k);
            } else if c > idx {
                assert(s[c - 1].0@ == k);
            }
        }
    }
    assert forall|k: Seq<char>| #[trigger] entries_to_map(t).contains_key(k) implies entries_to_map(t)[k] == m[k] by {
        let c = choose|x: int| 0 <= x < t.len() && #[trigger] t[x].0@ == k;
        lemma_entries_at(t, c);
        if c != idx {
            assert(t[c].0@ != t[idx].0@);
            let d = if c < idx { c } else { c - 1 };
            assert(t[c] == s[d]);
            lemma_entries_at(s, d);
        }
    }
    assert(entries_to_map(t) =~= m);
}

pub struct SymbolTable<V> {
    entries: Vec<(Symbol, V)>,
}

impl<V> View for SymbolTable<V> {
    type V = Map<Seq<char>, V>;

    closed spec fn view(&self) -> Map<Seq<char>, V> {
        entries_to_map(self.entries@)
    }
}

impl<V> SymbolTable<V> {
    #[verifier::type_invariant]
    spec fn sorted(self) -> bool {
        codes_sorted(self.entries@)
    }

    /// The entries in ticker order.
    pub closed spec fn items(self) -> Seq<(Symbol, V)> {
        self.entries@
    }

    pub fn new() -> (r: SymbolTable<V>)
        ensures
            r@ == Map::<Seq<char>, V>::empty(),
            r.items().len() == 0,
    {
        let r = SymbolTable { entries: Vec::new() };
        assert(r@ =~= Map::<Seq<char>, V>::empty());
        r
    }

    /// Entries are in strictly increasing ticker order and are what the map
    /// holds.
    pub fn check_items(&self)
        ensures
            codes_sorted(self.items()),
            keys_unique(self.items()),
            self@ == entries_to_map(self.items()),
    {
        proof {
            use_type_invariant(self);
            lemma_sorted_unique(self.entries@);
        }
    }

    pub fn len(&self) -> (r: usize)
        ensures
            r == self.items().len(),
    {
        self.entries.len()
    }

    pub fn item(&self, i: usize) -> (r: &(Symbol, V))
        requires
            i < self.items().len(),
        ensures
            *r == self.items()[i as int],
    {
        &self.entries[i]
    }

    /// First position whose ticker is not before `symbol`, and whether it
    /// holds `symbol`.
    fn locate(&self, symbol: &Symbol) -> (r: (usize, bool))
        ensures
            r.0 <= self.entries@.len(),
            forall|i: int| 0 <= i < r.0 ==> symbol_code(#[trigger] self.entries@[i].0@) < symbol_code(symbol@),
            forall|i: int| r.0 <= i < self.entries@.len() ==> symbol_code(symbol@) <= symbol_code(#[trigger] self.entries@[i].0@),
            r.1 == (r.0 < self.entries@.len() && self.entries@[r.0 as int].0@ == symbol@),
            r.1 == self@.contains_key(symbol@),
            r.1 ==> self@[symbol@] == self.entries@[r.0 as int].1,
    {
        proof {
            use_type_invariant(self);
            lemma_sorted_unique(self.entries@);
        }
        symbol.check_text();
        let code = symbol.code();
        let n = self.entries.len();
        let mut i: usize = 0;
        while i < n
            invariant
                n == self.entries@.len(),
                0 <= i <= n,
                code == symbol_code(symbol@),
                codes_sorted(self.entries@),
                forall|j: int| 0 <= j < i ==> symbol_code(#[trigger] self.entries@[j].0@) < code,
            ensures
                0 <= i <= n,
                forall|j: int| 0 <= j < i ==> symbol_code(#[trigger] self.entries@[j].0@) < code,
                i < n ==> code <= symbol_code(self.entries@[i as int].0@),
            decreases n - i,
        {
            if self.entries[i].0.code() >= code {
                break;
            }
            i = i + 1;
        }
        let found = i < n && self.entries[i].0.same(symbol);
        proof {
            let s = self.entries@;
            assert forall|j: int| i <= j < s.len() implies code <= symbol_code(#[trigger] s[j].0@) by {
                if j > i {
                    assert(symbol_code(s[i as int].0@) < symbol_code(s[j].0@));
                }
            }
            if found {
                lemma_entries_at(s, i as int);
            } else if self@.contains_key(symbol@) {
                let c = choose|k: int| 0 <= k < s.len() && #[trigger] s[k].0@ == symbol@;
                if c >= i {
                    assert(code <= symbol_code(s[i as int].0@));
                    if c > i {
                        assert(symbol_code(s[i as int].0@) < symbol_code(s[c].0@));
                    }
                    assert(symbol_code(s[i as int].0@) == code);
                    lemma_symbol_code_injective(s[i as int].0@, symbol@);
                }
            }
        }
        (i, found)
    }

    pub fn get(&self, symbol: &Symbol) -> (r: Option<&V>)
        ensures
            match r {
                Some(v) => self@.contains_key(symbol@) && *v == self@[symbol@],
                None => !self@.contains_key(symbol@),
            },
    {
        let (i, found) = self.locate(symbol);
        if found {
            Some(&self.entries[i].1)
        } else {
            None
        }
    }

    /// Set the value for `symbol`, replacing any earlier one.
    pub fn insert(&mut self, symbol: Symbol, value: V)
        ensures
            final(self)@ == old(self)@.insert(symbol@, value),
    {
        proof {
            use_type_invariant(&*self);
            lemma_sorted_unique(self.entries@);
        }
        symbol.check_text();
        let ghost s = self.entries@;
        let (i, found) = self.locate(&symbol);
        let ghost e = (symbol, value);
        let mut entries: Vec<(Symbol, V)> = Vec::new();
        std::mem::swap(&mut entries, &mut self.entries);
        if found {
            entries.set(i, (symbol, value));
            proof {
                assert(entries@ =~= s.update(i as int, e));
                crate::symbol_map::lemma_entries_update(s, i as int, e);
            }
        } else {
            entries.insert(i, (symbol, value));
            proof {
                let t = entries@;
                assert(t =~= s.insert(i as int, e));
                if i < s.len() {
                    if symbol_code(s[i as int].0@) == symbol_code(e.0@) {
                        lemma_symbol_code_injective(s[i as int].0@, e.0@);
                    }
                }
                assert forall|a: int, b: int| 0 <= a < b < t.len() implies symbol_code(#[trigger] t[a].0@) < symbol_code(#[trigger] t[b].0@) by {
                    if b < i {
                        assert(symbol_code(s[a].0@) < symbol_code(s[b].0@));
                    } else if a < i && b > i {
                        assert(symbol_code(s[a].0@) < symbol_code(s[b - 1].0@));
                    } else if a == i && b > i {
                        if b - 1 > i {
                            assert(symbol_code(s[i as int].0@) < symbol_code(s[b - 1].0@));
                        }
                    } else if a > i {
                        assert(symbol_code(s[a - 1].0@) < symbol_code(s[b - 1].0@));
                    }
                }
                assert forall|a: int| 0 <= a < t.len() implies is_symbol_text(#[trigger] t[a].0@) by {
                    if a < i {
                        assert(t[a] == s[a]);
                    } else if a > i {
                        assert(t[a] == s[a - 1]);
                    }
                }
                lemma_sorted_unique(t);
                lemma_entries_insert(s, i as int, e);
            }
        }
        self.entries = entries;
    }
    /// Drop `symbol`, if present.
    pub fn remove(&mut self, symbol: &Symbol)
        ensures
            final(self)@ == old(self)@.remove(symbol@),
    {
        proof {
            use_type_invariant(&*self);
            lemma_sorted_unique(self.entries@);
        }
        let ghost s = self.entries@;
        let (i, found) = self.locate(symbol);
        if found {
            let mut entries: Vec<(Symbol, V)> = Vec::new();
            std::mem::swap(&mut entries, &mut self.entries);
            entries.remove(i);
            proof {
                let t = entries@;
                assert(t =~= s.remove(i as int));
                crate::symbol_map::lemma_entries_remove(s, i as int);
                assert forall|a: int, b: int| 0 <= a < b < t.len() implies symbol_code(#[trigger] t[a].0@) < symbol_code(#[trigger] t[b].0@) by {
                    let a2 = if a < i { a } else { a + 1 };
                    let b2 = if b < i { b } else { b + 1 };
                    assert(symbol_code(s[a2].0@) < symbol_code(s[b2].0@));
                }
                assert forall|a: int| 0 <= a < t.len() implies is_symbol_text(#[trigger] t[a].0@) by {
                    let a2 = if a < i { a } else { a + 1 };
                    assert(t[a] == s[a2]);
                }
            }
            self.entries = entries;
        } else {
            assert(self@ =~= old(self)@.remove(symbol@));
        }
    }
}

} // verus!
