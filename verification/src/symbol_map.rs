//! A small map keyed by ticker, kept as a list of entries in insertion
//! order with no ticker twice.

use vstd::prelude::*;
use crate::types::Symbol;

verus! {

pub struct SymbolMap<V> {
    entries: Vec<(Symbol, V)>,
}

pub open spec fn keys_unique<V>(s: Seq<(Symbol, V)>) -> bool {
    forall|i: int, j: int| 0 <= i < j < s.len() ==> #[trigger] s[i].0@ != #[trigger] s[j].0@
}

pub open spec fn entries_to_map<V>(s: Seq<(Symbol, V)>) -> Map<Seq<char>, V> {
    Map::new(
        |k: Seq<char>| exists|i: int| 0 <= i < s.len() && #[trigger] s[i].0@ == k,
        |k: Seq<char>| s[choose|i: int| 0 <= i < s.len() && #[trigger] s[i].0@ == k].1,
    )
}

/// Entries with distinct keys hold as many keys as entries.
pub proof fn lemma_unique_keys_count<V>(s: Seq<(Symbol, V)>)
    requires
        keys_unique(s),
    ensures
        entries_to_map(s).dom().finite(),
        entries_to_map(s).dom().len() == s.len(),
    decreases s.len(),
{
    if s.len() == 0 {
        assert(entries_to_map(s).dom() =~= Set::<Seq<char>>::empty());
    } else {
        let t = s.drop_last();
        assert forall|i: int, j: int| 0 <= i < j < t.len() implies #[trigger] t[i].0@ != #[trigger] t[j].0@ by {
            assert(t[i] == s[i] && t[j] == s[j]);
        }
        lemma_unique_keys_count(t);
        let k = s.last().0@;
        assert forall|x: Seq<char>| #[trigger] entries_to_map(s).dom().contains(x) <==> entries_to_map(t).dom().insert(k).contains(x) by {
            if entries_to_map(s).dom().contains(x) {
                let i = choose|i: int| 0 <= i < s.len() && #[trigger] s[i].0@ == x;
                if i < t.len() {
                    assert(t[i] == s[i]);
                }
            }
            if entries_to_map(t).dom().contains(x) {
                let i = choose|i: int| 0 <= i < t.len() && #[trigger] t[i].0@ == x;
                assert(s[i] == t[i]);
            }
            if x == k {
                assert(s[s.len() - 1].0@ == k);
            }
        }
        assert(entries_to_map(s).dom() =~= entries_to_map(t).dom().insert(k));
        if entries_to_map(t).dom().contains(k) {
            let i = choose|i: int| 0 <= i < t.len() && #[trigger] t[i].0@ == k;
            assert(s[i] == t[i]);
            assert(s[i].0@ != s[s.len() - 1].0@);
        }
    }
}

pub proof fn lemma_entries_at<V>(s: Seq<(Symbol, V)>, i: int)
    requires
        keys_unique(s),
        0 <= i < s.len(),
    ensures
        entries_to_map(s).contains_key(s[i].0@),
        entries_to_map(s)[s[i].0@] == s[i].1,
{
    let k = s[i].0@;
    assert(s[i].0@ == k);
    let c = choose|j: int| 0 <= j < s.len() && #[trigger] s[j].0@ == k;
    if c != i {
        if c < i {
            assert(s[c].0@ != s[i].0@);
        } else {
            assert(s[i].0@ != s[c].0@);
        }
    }
}

pub proof fn lemma_entries_update<V>(s: Seq<(Symbol, V)>, idx: int, e: (Symbol, V))
    requires
        keys_unique(s),
        0 <= idx < s.len(),
        e.0@ == s[idx].0@,
    ensures
        keys_unique(s.update(idx, e)),
        entries_to_map(s.update(idx, e)) == entries_to_map(s).insert(e.0@, e.1),
{
    let t = s.update(idx, e);
    assert forall|i: int, j: int| 0 <= i < j < t.len() implies #[trigger] t[i].0@ != #[trigger] t[j].0@ by {
        assert(s[i].0@ != s[j].0@);
    }
    let m = entries_to_map(s).insert(e.0@, e.1);
    assert forall|k: Seq<char>| #[trigger] entries_to_map(t).contains_key(k) == m.contains_key(k) by {
        if entries_to_map(s).contains_key(k) {
            let c = choose|i: int| 0 <= i < s.len() && #[trigger] s[i].0@ == k;
            assert(t[c].0@ == k);
        } else if entries_to_map(t).contains_key(k) {
            let c = choose|i: int| 0 <= i < t.len() && #[trigger] t[i].0@ == k;
            assert(s[c].0@ == k);
        }
    }
    assert forall|k: Seq<char>| #[trigger] entries_to_map(t).contains_key(k) implies entries_to_map(t)[k] == m[k] by {
        let c = choose|i: int| 0 <= i < t.len() && #[trigger] t[i].0@ == k;
        lemma_entries_at(t, c);
        if c != idx {
            lemma_entries_at(s, c);
        }
    }
    assert(entries_to_map(t) =~= m);
}

/// Dropping entry `i` drops its ticker from the map.
pub proof fn lemma_entries_remove<V>(s: Seq<(Symbol, V)>, i: int)
    requires
        keys_unique(s),
        0 <= i < s.len(),
    ensures
        keys_unique(s.remove(i)),
        entries_to_map(s.remove(i)) == entries_to_map(s).remove(s[i].0@),
{
    let t = s.remove(i);
    let key = s[i].0@;
    assert forall|a: int, b: int| 0 <= a < b < t.len() implies #[trigger] t[a].0@ != #[trigger] t[b].0@ by {
        let a2 = if a < i { a } else { a + 1 };
        let b2 = if b < i { b } else { b + 1 };
        assert(s[a2].0@ != s[b2].0@);
    }
    let m = entries_to_map(s).remove(key);
    assert forall|k: Seq<char>| #[trigger] entries_to_map(t).contains_key(k) == m.contains_key(k) by {
        if entries_to_map(t).contains_key(k) {
            let c = choose|x: int| 0 <= x < t.len() && #[trigger] t[x].0@ == k;
            let c2 = if c < i { c } else { c + 1 };
            assert(s[c2].0@ == k);
            if k == key {
                if c2 < i {
                    assert(s[c2].0@ != s[i].0@);
                } else {
                    assert(s[i].0@ != s[c2].0@);
                }
            }
        }
        if m.contains_key(k) {
            let c = choose|x: int| 0 <= x < s.len() && #[trigger] s[x].0@ == k;
            assert(c != i);
            let c2 = if c < i { c } else { c - 1 };
            assert(t[c2].0@ == k);
        }
    }
    assert forall|k: Seq<char>| #[trigger] entries_to_map(t).contains_key(k) implies entries_to_map(t)[k] == m[k] by {
        let c = choose|x: int| 0 <= x < t.len() && #[trigger] t[x].0@ == k;
        lemma_entries_at(t, c);
        let c2 = if c < i { c } else { c + 1 };
        assert(t[c] == s[c2]);
        lemma_entries_at(s, c2);
    }
    assert(entries_to_map(t) =~= m);
}

pub proof fn lemma_entries_push<V>(s: Seq<(Symbol, V)>, e: (Symbol, V))
    requires
        keys_unique(s),
        !entries_to_map(s).contains_key(e.0@),
    ensures
        keys_unique(s.push(e)),
        entries_to_map(s.push(e)) == entries_to_map(s).insert(e.0@, e.1),
{
    let t = s.push(e);
    assert forall|j: int| 0 <= j < s.len() implies #[trigger] s[j].0@ != e.0@ by {
        if s[j].0@ == e.0@ {
            assert(entries_to_map(s).contains_key(e.0@));
        }
    }
    assert forall|i: int, j: int| 0 <= i < j < t.len() implies #[trigger] t[i].0@ != #[trigger] t[j].0@ by {
        if j < s.len() {
            assert(s[i].0@ != s[j].0@);
        } else {
            assert(s[i].0@ != e.0@);
        }
    }
    let m = entries_to_map(s).insert(e.0@, e.1);
    assert forall|k: Seq<char>| #[trigger] entries_to_map(t).contains_key(k) == m.contains_key(k) by {
        if k == e.0@ {
            assert(t[s.len() as int].0@ == k);
        } else if entries_to_map(s).contains_key(k) {
            let c = choose|i: int| 0 <= i < s.len() && #[trigger] s[i].0@ == k;
            assert(t[c].0@ == k);
        } else if entries_to_map(t).contains_key(k) {
            let c = choose|i: int| 0 <= i < t.len() && #[trigger] t[i].0@ == k;
            assert(s[c].0@ == k);
        }
    }
    assert forall|k: Seq<char>| #[trigger] entries_to_map(t).contains_key(k) implies entries_to_map(t)[k] == m[k] by {
        let c = choose|i: int| 0 <= i < t.len() && #[trigger] t[i].0@ == k;
        lemma_entries_at(t, c);
        if c < s.len() {
            lemma_entries_at(s, c);
        }
    }
    assert(entries_to_map(t) =~= m);
}

impl<V> View for SymbolMap<V> {
    type V = Map<Seq<char>, V>;

    closed spec fn view(&self) -> Map<Seq<char>, V> {
        entries_to_map(self.entries@)
    }
}

impl<V> SymbolMap<V> {
    #[verifier::type_invariant]
    spec fn unique(self) -> bool {
        keys_unique(self.entries@)
    }

    /// The entries in insertion order.
    pub closed spec fn items(self) -> Seq<(Symbol, V)> {
        self.entries@
    }

    pub fn new() -> (r: SymbolMap<V>)
        ensures
            r@ == Map::<Seq<char>, V>::empty(),
            r.items().len() == 0,
    {
        let r = SymbolMap { entries: Vec::new() };
        assert(r@ =~= Map::<Seq<char>, V>::empty());
        r
    }

    /// No ticker appears twice, and the map is what the items hold.
    pub fn check_items(&self)
        ensures
            keys_unique(self.items()),
            self@ == entries_to_map(self.items()),
    {
        proof {
            use_type_invariant(self);
        }
    }

    pub fn len(&self) -> (r: usize)
        ensures
            r == self.items().len(),
    {
        self.entries.len()
    }

    fn index_of(&self, symbol: &Symbol) -> (r: Option<usize>)
        ensures
            match r {
                Some(i) => i < self.entries@.len() && self.entries@[i as int].0@ == symbol@
                    && self@.contains_key(symbol@) && self@[symbol@] == self.entries@[i as int].1,
                None => !self@.contains_key(symbol@),
            },
    {
        proof {
            use_type_invariant(self);
        }
        let mut i: usize = 0;
        while i < self.entries.len()
            invariant
                0 <= i <= self.entries@.len(),
                keys_unique(self.entries@),
                forall|j: int| 0 <= j < i ==> #[trigger] self.entries@[j].0@ != symbol@,
            decreases self.entries.len() - i,
        {
            if self.entries[i].0.same(symbol) {
                proof {
                    lemma_entries_at(self.entries@, i as int);
                }
                return Some(i);
            }
            i = i + 1;
        }
        None
    }

    pub fn get(&self, symbol: &Symbol) -> (r: Option<&V>)
        ensures
            match r {
                Some(v) => self@.contains_key(symbol@) && *v == self@[symbol@],
                None => !self@.contains_key(symbol@),
            },
    {
        match self.index_of(symbol) {
            Some(i) => Some(&self.entries[i].1),
            None => None,
        }
    }

    /// The entry at a position of the insertion order.
    pub fn item(&self, i: usize) -> (r: &(Symbol, V))
        requires
            i < self.items().len(),
        ensures
            *r == self.items()[i as int],
    {
        &self.entries[i]
    }

    /// Set the value for `symbol`, replacing any earlier one in place.
    pub fn insert(&mut self, symbol: Symbol, value: V)
        ensures
            final(self)@ == old(self)@.insert(symbol@, value),
            old(self)@.contains_key(symbol@) ==> final(self).items().len() == old(self).items().len(),
            !old(self)@.contains_key(symbol@) ==> final(self).items() == old(self).items().push((symbol, value)),
    {
        proof {
            use_type_invariant(&*self);
        }
        let ghost before = self.entries@;
        let found = self.index_of(&symbol);
        let mut entries: Vec<(Symbol, V)> = Vec::new();
        std::mem::swap(&mut entries, &mut self.entries);
        match found {
            Some(i) => {
                let ghost e = (symbol, value);
                entries.set(i, (symbol, value));
                proof {
                    lemma_entries_update(before, i as int, e);
                }
            },
            None => {
                let ghost e = (symbol, value);
                entries.push((symbol, value));
                proof {
                    lemma_entries_push(before, e);
                }
            },
        }
        self.entries = entries;
    }

    /// Drop the entry for `symbol`, if any.
    pub fn remove(&mut self, symbol: &Symbol)
        ensures
            final(self)@ == old(self)@.remove(symbol@),
    {
        proof {
            use_type_invariant(&*self);
        }
        let ghost before = self.entries@;
        match self.index_of(symbol) {
            Some(i) => {
                let mut entries: Vec<(Symbol, V)> = Vec::new();
                std::mem::swap(&mut entries, &mut self.entries);
                entries.remove(i);
                proof {
                    lemma_entries_remove(before, i as int);
                    assert(entries@ =~= before.remove(i as int));
                }
                self.entries = entries;
            },
            None => {
                assert(self@ =~= old(self)@.remove(symbol@));
            },
        }
    }
}

} // verus!
