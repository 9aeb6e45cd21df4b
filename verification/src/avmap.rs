//! Attribute maps: an order-irrelevant mapping from attribute name to value,
//! held as an association list with distinct keys and modelled as a `Map`.

use vstd::prelude::*;
use crate::strutil::str_eq;
use crate::value::{AttrValue, SpecValue};

verus! {

/// Whether the keys of an association sequence are pairwise distinct.
pub open spec fn distinct_keys<V>(s: Seq<(Seq<char>, V)>) -> bool {
    forall|i: int, j: int| 0 <= i < j < s.len() ==> s[i].0 != s[j].0
}

/// The map an association sequence denotes; on duplicate keys the later
/// entry wins.
pub open spec fn assoc_map<V>(s: Seq<(Seq<char>, V)>) -> Map<Seq<char>, V>
    decreases s.len(),
{
    if s.len() == 0 {
        Map::empty()
    } else {
        assoc_map(s.drop_last()).insert(s.last().0, s.last().1)
    }
}

/// The denoted map contains a key exactly when some entry carries it.
pub proof fn lemma_assoc_map_domain<V>(s: Seq<(Seq<char>, V)>, k: Seq<char>)
    ensures
        assoc_map(s).contains_key(k) <==> (exists|i: int| 0 <= i < s.len() && s[i].0 == k),
    decreases s.len(),
{
    if s.len() > 0 {
        lemma_assoc_map_domain(s.drop_last(), k);
        if s.last().0 == k {
            assert(s[s.len() - 1].0 == k);
        } else {
            if assoc_map(s).contains_key(k) {
                let i = choose|i: int| 0 <= i < s.drop_last().len() && s.drop_last()[i].0 == k;
                assert(s[i].0 == k);
            }
            if exists|i: int| 0 <= i < s.len() && s[i].0 == k {
                let i = choose|i: int| 0 <= i < s.len() && s[i].0 == k;
                assert(i < s.len() - 1);
                assert(s.drop_last()[i].0 == k);
            }
        }
    }
}

/// With distinct keys, the denoted map sends each entry's key to its value.
pub proof fn lemma_assoc_map_index<V>(s: Seq<(Seq<char>, V)>, i: int)
    requires
        distinct_keys(s),
        0 <= i < s.len(),
    ensures
        assoc_map(s).contains_key(s[i].0),
        assoc_map(s)[s[i].0] == s[i].1,
    decreases s.len(),
{
    if i == s.len() - 1 {
    } else {
        assert(distinct_keys(s.drop_last())) by {
            assert(forall|x: int, y: int|
                0 <= x < y < s.drop_last().len() ==> s.drop_last()[x] == s[x]
                    && s.drop_last()[y] == s[y]);
        }
        lemma_assoc_map_index(s.drop_last(), i);
        assert(s.drop_last()[i] == s[i]);
        assert(s.last().0 != s[i].0);
    }
}

/// Updating the entry that carries a key denotes an insert at that key.
pub proof fn lemma_assoc_map_update<V>(s: Seq<(Seq<char>, V)>, i: int, v: V)
    requires
        distinct_keys(s),
        0 <= i < s.len(),
    ensures
        distinct_keys(s.update(i, (s[i].0, v))),
        assoc_map(s.update(i, (s[i].0, v))) == assoc_map(s).insert(s[i].0, v),
    decreases s.len(),
{
    let t = s.update(i, (s[i].0, v));
    assert(distinct_keys(t)) by {
        assert(forall|x: int| 0 <= x < s.len() ==> t[x].0 == s[x].0);
    }
    if i == s.len() - 1 {
        assert(t.drop_last() =~= s.drop_last());
        assert(t.last() == (s[i].0, v));
        assert(assoc_map(t) =~= assoc_map(s).insert(s[i].0, v));
    } else {
        assert(distinct_keys(s.drop_last())) by {
            assert(forall|x: int, y: int|
                0 <= x < y < s.drop_last().len() ==> s.drop_last()[x] == s[x]
                    && s.drop_last()[y] == s[y]);
        }
        lemma_assoc_map_update(s.drop_last(), i, v);
        assert(t.drop_last() =~= s.drop_last().update(i, (s[i].0, v)));
        assert(s.drop_last()[i] == s[i]);
        assert(t.last() == s.last());
        assert(s.last().0 != s[i].0);
        assert(assoc_map(t) =~= assoc_map(s).insert(s[i].0, v));
    }
}

/// An order-irrelevant mapping from attribute name to `AttrValue`, standing
/// both for an entity's logical fields and for a physical store record.
#[derive(Debug, PartialEq)]
pub struct AttrMap {
    pub entries: Vec<(String, AttrValue)>,
}

impl AttrMap {
    /// The entries with heap strings replaced by their character sequences.
    pub open spec fn entry_seq(&self) -> Seq<(Seq<char>, SpecValue)> {
        self.entries@.map(|i: int, e: (String, AttrValue)| (e.0@, e.1@))
    }

    /// Well-formed: no attribute name occurs twice.
    pub open spec fn wf(&self) -> bool {
        distinct_keys(self.entry_seq())
    }
}

impl View for AttrMap {
    type V = Map<Seq<char>, SpecValue>;

    open spec fn view(&self) -> Map<Seq<char>, SpecValue> {
        assoc_map(self.entry_seq())
    }
}

impl AttrMap {
    /// An empty attribute map.
    pub fn new() -> (r: AttrMap)
        ensures
            r.wf(),
            r@ == Map::<Seq<char>, SpecValue>::empty(),
            r.entries@.len() == 0,
    {
        AttrMap { entries: Vec::new() }
    }

    /// The position of the entry carrying `name`, if any.
    fn position_of(&self, name: &str) -> (r: Option<usize>)
        ensures
            match r {
                Some(i) => i < self.entries@.len() && self.entries@[i as int].0@ == name@,
                None => forall|j: int|
                    0 <= j < self.entries@.len() ==> self.entries@[j].0@ != name@,
            },
    {
        let n = self.entries.len();
        let mut i: usize = 0;
        while i < n
            invariant
                n == self.entries@.len(),
                0 <= i <= n,
                forall|j: int| 0 <= j < i ==> self.entries@[j].0@ != name@,
            decreases n - i,
        {
            if str_eq(self.entries[i].0.as_str(), name) {
                return Some(i);
            }
            i = i + 1;
        }
        None
    }

    /// Whether the map holds an entry for `name`.
    pub fn contains(&self, name: &str) -> (r: bool)
        requires
            self.wf(),
        ensures
            r == self@.contains_key(name@),
    {
        proof {
            lemma_assoc_map_domain(self.entry_seq(), name@);
        }
        match self.position_of(name) {
            Some(i) => {
                proof {
                    assert(self.entry_seq()[i as int].0 == name@);
                }
                true
            },
            None => {
                proof {
                    assert(forall|j: int|
                        0 <= j < self.entry_seq().len() ==> self.entry_seq()[j].0 != name@);
                }
                false
            },
        }
    }

    /// Looks an attribute up by name.
    pub fn get(&self, name: &str) -> (r: Option<&AttrValue>)
        requires
            self.wf(),
        ensures
            match r {
                Some(v) => self@.contains_key(name@) && v@ == self@[name@],
                None => !self@.contains_key(name@),
            },
    {
        match self.position_of(name) {
            Some(i) => {
                proof {
                    lemma_assoc_map_index(self.entry_seq(), i as int);
                    assert(self.entry_seq()[i as int].0 == name@);
                    assert(self.entry_seq()[i as int].1 == self.entries@[i as int].1@);
                }
                Some(&self.entries[i].1)
            },
            None => {
                proof {
                    lemma_assoc_map_domain(self.entry_seq(), name@);
                    assert(forall|j: int|
                        0 <= j < self.entry_seq().len() ==> self.entry_seq()[j].0 != name@);
                }
                None
            },
        }
    }

    /// Inserts or replaces the value held under `name`.
    pub fn insert(&mut self, name: &str, v: AttrValue)
        requires
            old(self).wf(),
        ensures
            final(self).wf(),
            final(self)@ == old(self)@.insert(name@, v@),
    {
        let ghost pre = self.entry_seq();
        match self.position_of(name) {
            Some(i) => {
                proof {
                    lemma_assoc_map_update(pre, i as int, v@);
                }
                self.entries[i] = (String::from_str(name), v);
                proof {
                    assert(self.entry_seq() =~= pre.update(i as int, (name@, v@)));
                    assert(pre[i as int].0 == name@);
                }
            },
            None => {
                self.entries.push((String::from_str(name), v));
                proof {
                    assert(self.entry_seq() =~= pre.push((name@, v@)));
                    assert(self.entry_seq().drop_last() =~= pre);
                    assert(distinct_keys(self.entry_seq())) by {
                        assert(forall|j: int| 0 <= j < pre.len() ==> pre[j].0 != name@);
                        assert(forall|x: int|
                            0 <= x < pre.len() ==> self.entry_seq()[x] == pre[x]);
                    }
                }
            },
        }
    }

    /// A verified copy of the map.
    pub fn dup(&self) -> (r: AttrMap)
        ensures
            r.entries@ == self.entries@,
            r.wf() == self.wf(),
            r@ == self@,
    {
        let n = self.entries.len();
        let mut out: Vec<(String, AttrValue)> = Vec::new();
        let mut i: usize = 0;
        while i < n
            invariant
                n == self.entries@.len(),
                0 <= i <= n,
                out@.len() == i,
                forall|j: int| 0 <= j < i ==> out@[j] == self.entries@[j],
            decreases n - i,
        {
            let name = self.entries[i].0.clone();
            let v = self.entries[i].1.dup();
            out.push((name, v));
            i = i + 1;
        }
        proof {
            assert(out@ =~= self.entries@);
        }
        AttrMap { entries: out }
    }

    /// The number of attributes held.
    pub fn len(&self) -> (r: usize)
        ensures
            r == self.entries@.len(),
    {
        self.entries.len()
    }
}

} // verus!
