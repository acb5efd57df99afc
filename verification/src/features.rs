//! Decision features: a map from feature name to rendered value, kept in
//! name order (the order of a `BTreeMap<String, String>`).

use vstd::prelude::*;
use crate::text::{text_lt, text_less, text_equal, lemma_text_trichotomy, lemma_text_transitive};

verus! {

pub open spec fn names_sorted(s: Seq<(String, String)>) -> bool {
    forall|i: int, j: int| 0 <= i < j < s.len() ==> text_lt(#[trigger] s[i].0@, #[trigger] s[j].0@)
}

/// Position of an entry named `k`.
pub open spec fn name_index(s: Seq<(String, String)>, k: Seq<char>) -> int {
    choose|i: int| 0 <= i < s.len() && #[trigger] s[i].0@ == k
}

pub open spec fn pairs_map(s: Seq<(String, String)>) -> Map<Seq<char>, Seq<char>> {
    Map::new(
        |k: Seq<char>| exists|i: int| 0 <= i < s.len() && #[trigger] s[i].0@ == k,
        |k: Seq<char>| s[name_index(s, k)].1@,
    )
}

proof fn lemma_sorted_distinct(s: Seq<(String, String)>, i: int, j: int)
    requires
        names_sorted(s),
        0 <= i < s.len(),
        0 <= j < s.len(),
        i != j,
    ensures
        s[i].0@ != s[j].0@,
{
    lemma_text_trichotomy(s[i].0@, s[i].0@);
    if i < j {
        assert(text_lt(s[i].0@, s[j].0@));
    } else {
        assert(text_lt(s[j].0@, s[i].0@));
    }
}

proof fn lemma_pairs_at(s: Seq<(String, String)>, i: int)
    requires
        names_sorted(s),
        0 <= i < s.len(),
    ensures
        pairs_map(s).contains_key(s[i].0@),
        pairs_map(s)[s[i].0@] == s[i].1@,
{
    let k = s[i].0@;
    assert(s[i].0@ == k);
    assert(pairs_map(s).contains_key(k));
    let c = name_index(s, k);
    assert(s[c].0@ == k);
    if c != i {
        lemma_sorted_distinct(s, c, i);
    }
    assert(pairs_map(s)[k] == s[c].1@);
}

/// The map of a sorted prefix grows by one entry at a time.
pub proof fn lemma_pairs_extend(s: Seq<(String, String)>, i: int)
    requires
        names_sorted(s),
        0 <= i < s.len(),
    ensures
        pairs_map(s.take(i + 1)) == pairs_map(s.take(i)).insert(s[i].0@, s[i].1@),
{
    let a = s.take(i);
    let b = s.take(i + 1);
    assert(names_sorted(a));
    assert(names_sorted(b));
    let m = pairs_map(a).insert(s[i].0@, s[i].1@);
    assert forall|q: Seq<char>| #[trigger] pairs_map(b).contains_key(q) == m.contains_key(q) by {
        if q == s[i].0@ {
            assert(b[i].0@ == q);
        } else if pairs_map(a).contains_key(q) {
            let c = name_index(a, q);
            assert(b[c].0@ == q);
        } else if pairs_map(b).contains_key(q) {
            let c = name_index(b, q);
            if c < i {
                assert(a[c].0@ == q);
            }
        }
    }
    assert forall|q: Seq<char>| #[trigger] pairs_map(b).contains_key(q) implies pairs_map(b)[q] == m[q] by {
        let c = name_index(b, q);
        lemma_pairs_at(b, c);
        if c < i {
            lemma_sorted_distinct(b, c, i);
            assert(a[c] == b[c]);
            lemma_pairs_at(a, c);
        }
    }
    assert(pairs_map(b) =~= m);
}

/// Feature name -> rendered value, in name order.
#[derive(Debug)]
pub struct Features {
    entries: Vec<(String, String)>,
}

impl View for Features {
    type V = Map<Seq<char>, Seq<char>>;

    closed spec fn view(&self) -> Map<Seq<char>, Seq<char>> {
        pairs_map(self.entries@)
    }
}

impl Features {
    #[verifier::type_invariant]
    spec fn sorted(self) -> bool {
        names_sorted(self.entries@)
    }

    /// The entries in name order.
    pub closed spec fn pairs(self) -> Seq<(String, String)> {
        self.entries@
    }

    pub fn new() -> (r: Features)
        ensures
            r@ == Map::<Seq<char>, Seq<char>>::empty(),
    {
        let r = Features { entries: Vec::new() };
        assert(r@ =~= Map::<Seq<char>, Seq<char>>::empty());
        r
    }

    /// Entries are in strictly increasing name order and are what the map
    /// holds.
    pub fn check_pairs(&self)
        ensures
            names_sorted(self.pairs()),
            self@ == pairs_map(self.pairs()),
    {
        proof {
            use_type_invariant(self);
        }
    }

    pub fn len(&self) -> (r: usize)
        ensures
            r == self.pairs().len(),
    {
        self.entries.len()
    }

    /// The entry at a position of the name order.
    pub fn pair(&self, i: usize) -> (r: (&str, &str))
        requires
            i < self.pairs().len(),
        ensures
            r.0@ == self.pairs()[i as int].0@,
            r.1@ == self.pairs()[i as int].1@,
    {
        (self.entries[i].0.as_str(), self.entries[i].1.as_str())
    }

    pub fn get(&self, name: &str) -> (r: Option<&str>)
        ensures
            match r {
                Some(v) => self@.contains_key(name@) && v@ == self@[name@],
                None => !self@.contains_key(name@),
            },
    {
        proof {
            use_type_invariant(self);
        }
        let mut i: usize = 0;
        while i < self.entries.len()
            invariant
                0 <= i <= self.entries@.len(),
                names_sorted(self.entries@),
                forall|j: int| 0 <= j < i ==> #[trigger] self.entries@[j].0@ != name@,
            decreases self.entries.len() - i,
        {
            if text_equal(self.entries[i].0.as_str(), name) {
                proof {
                    lemma_pairs_at(self.entries@, i as int);
                }
                return Some(self.entries[i].1.as_str());
            }
            i = i + 1;
        }
        None
    }

    /// Set a feature, replacing an earlier value of the same name.
    pub fn insert(&mut self, name: String, value: String)
        ensures
            final(self)@ == old(self)@.insert(name@, value@),
    {
        proof {
            use_type_invariant(&*self);
        }
        let ghost s = self.entries@;
        let mut i: usize = 0;
        while i < self.entries.len()
            invariant
                0 <= i <= self.entries@.len(),
                self.entries@ == s,
                names_sorted(s),
                forall|j: int| 0 <= j < i ==> text_lt(#[trigger] s[j].0@, name@),
            ensures
                0 <= i <= s.len(),
                forall|j: int| 0 <= j < i ==> text_lt(#[trigger] s[j].0@, name@),
                i < s.len() ==> !text_lt(s[i as int].0@, name@),
            decreases self.entries.len() - i,
        {
            if !text_less(self.entries[i].0.as_str(), name.as_str()) {
                break;
            }
            i = i + 1;
        }
        let same = i < self.entries.len() && text_equal(self.entries[i].0.as_str(), name.as_str());
        let ghost k = name@;
        let ghost v = value@;
        let ghost entry = (name, value);
        let mut entries: Vec<(String, String)> = Vec::new();
        std::mem::swap(&mut entries, &mut self.entries);
        if same {
            entries.set(i, (name, value));
        } else {
            entries.insert(i, (name, value));
        }
        proof {
            let t = entries@;
            if same {
                assert(t =~= s.update(i as int, entry));
            } else {
                assert(t =~= s.insert(i as int, entry));
                if i < s.len() {
                    lemma_text_trichotomy(s[i as int].0@, k);
                }
            }
            assert forall|a: int, b: int| 0 <= a < b < t.len() implies text_lt(#[trigger] t[a].0@, #[trigger] t[b].0@) by {
                if same {
                    if a == i {
                        assert(text_lt(s[a].0@, s[b].0@));
                    } else if b == i {
                        assert(text_lt(s[a].0@, s[b].0@));
                    }
                } else {
                    if b < i {
                        assert(text_lt(s[a].0@, s[b].0@));
                    } else if a < i && b == i {
                    } else if a < i && b > i {
                        assert(text_lt(s[a].0@, s[b - 1].0@));
                    } else if a == i {
                        if b - 1 > i {
                            assert(text_lt(s[i as int].0@, s[b - 1].0@));
                            lemma_text_transitive(k, s[i as int].0@, s[b - 1].0@);
                        }
                    } else {
                        assert(text_lt(s[a - 1].0@, s[b - 1].0@));
                    }
                }
            }
            let m = pairs_map(s).insert(k, v);
            assert forall|q: Seq<char>| #[trigger] pairs_map(t).contains_key(q) == m.contains_key(q) by {
                if q == k {
                    assert(t[i as int].0@ == q);
                } else if pairs_map(s).contains_key(q) {
                    let c = choose|x: int| 0 <= x < s.len() && #[trigger] s[x].0@ == q;
                    if same || c < i {
                        assert(t[c].0@ == q);
                    } else {
                        assert(t[c + 1].0@ == q);
                    }
                } else if pairs_map(t).contains_key(q) {
                    let c = choose|x: int| 0 <= x < t.len() && #[trigger] t[x].0@ == q;
                    if same || c < i {
                        assert(s[c].0@ == q);
                    } else if c > i {
                        assert(s[c - 1].0@ == q);
                    }
                }
            }
            assert forall|q: Seq<char>| #[trigger] pairs_map(t).contains_key(q) implies pairs_map(t)[q] == m[q] by {
                let c = choose|x: int| 0 <= x < t.len() && #[trigger] t[x].0@ == q;
                lemma_pairs_at(t, c);
                if c != i {
                    lemma_sorted_distinct(t, c, i as int);
                    let d = if same || c < i { c } else { c - 1 };
                    assert(t[c] == s[d]);
                    lemma_pairs_at(s, d);
                } else {
                    assert(t[c].0@ == k);
                }
            }
            assert(pairs_map(t) =~= m);
        }
        self.entries = entries;
    }
}

} // verus!
