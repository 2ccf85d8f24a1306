//! The slot table of a workspace manifest: a map from slot names to CIDs,
//! kept sorted by name so that it is visited in the same order as a sorted
//! map of strings.

use vstd::prelude::*;
use crate::text::{compare_text, lemma_text_lt_order, text_lt, TextOrder};

verus! {

/// Name/value pairs whose names strictly ascend.
pub open spec fn ascending(s: Seq<(Seq<char>, Seq<char>)>) -> bool {
    forall|i: int, j: int| 0 <= i < j < s.len() ==> text_lt(#[trigger] s[i].0, #[trigger] s[j].0)
}

/// The value of the last pair named `k` (the empty text when there is none).
pub open spec fn value_named(s: Seq<(Seq<char>, Seq<char>)>, k: Seq<char>) -> Seq<char>
    decreases s.len(),
{
    if s.len() == 0 {
        Seq::empty()
    } else if s.last().0 == k {
        s.last().1
    } else {
        value_named(s.drop_last(), k)
    }
}

/// The map that a sequence of name/value pairs describes.
pub open spec fn map_of_pairs(s: Seq<(Seq<char>, Seq<char>)>) -> Map<Seq<char>, Seq<char>> {
    Map::new(
        |k: Seq<char>| exists|i: int| 0 <= i < s.len() && #[trigger] s[i].0 == k,
        |k: Seq<char>| value_named(s, k),
    )
}

/// In an ascending sequence, the value named by the `i`-th name is the `i`-th value.
proof fn lemma_value_named_ascending(s: Seq<(Seq<char>, Seq<char>)>, i: int)
    requires
        ascending(s),
        0 <= i < s.len(),
    ensures
        value_named(s, s[i].0) == s[i].1,
    decreases s.len(),
{
    if i != s.len() - 1 {
        assert(text_lt(s[i].0, s[s.len() - 1].0));
        lemma_text_lt_order(s[i].0, s[i].0, s[i].0);
        let t = s.drop_last();
        assert(t[i] == s[i]);
        assert(ascending(t)) by {
            assert forall|a: int, b: int| 0 <= a < b < t.len() implies text_lt(
                #[trigger] t[a].0,
                #[trigger] t[b].0,
            ) by {
                assert(t[a] == s[a] && t[b] == s[b]);
            }
        }
        lemma_value_named_ascending(t, i);
    }
}

/// Changing the value of the `i`-th pair keeps the names ascending and sets that name's value.
pub proof fn lemma_map_of_update(s: Seq<(Seq<char>, Seq<char>)>, i: int, v: Seq<char>)
    requires
        ascending(s),
        0 <= i < s.len(),
    ensures
        ascending(s.update(i, (s[i].0, v))),
        map_of_pairs(s.update(i, (s[i].0, v))) == map_of_pairs(s).insert(s[i].0, v),
{
    let k = s[i].0;
    let t = s.update(i, (k, v));
    assert forall|a: int, b: int| 0 <= a < b < t.len() implies text_lt(
        #[trigger] t[a].0,
        #[trigger] t[b].0,
    ) by {
        assert(t[a].0 == s[a].0 && t[b].0 == s[b].0);
    }
    lemma_map_of_ascending(s);
    lemma_map_of_ascending(t);
    let ms = map_of_pairs(s).insert(k, v);
    let mt = map_of_pairs(t);
    assert forall|key: Seq<char>| mt.contains_key(key) <==> ms.contains_key(key) by {
        if mt.contains_key(key) {
            let j = choose|j: int| 0 <= j < t.len() && #[trigger] t[j].0 == key;
            assert(s[j].0 == key);
            assert(map_of_pairs(s).contains_key(s[j].0));
        }
        if map_of_pairs(s).contains_key(key) {
            let j = choose|j: int| 0 <= j < s.len() && #[trigger] s[j].0 == key;
            assert(t[j].0 == key);
            assert(mt.contains_key(t[j].0));
        }
        assert(mt.contains_key(t[i].0));
    }
    assert forall|key: Seq<char>| #[trigger] mt.contains_key(key) implies mt[key] == ms[key] by {
        let j = choose|j: int| 0 <= j < t.len() && #[trigger] t[j].0 == key;
        assert(mt[t[j].0] == t[j].1);
        if j != i {
            assert(t[j] == s[j]);
            assert(map_of_pairs(s).contains_key(s[j].0));
            assert(map_of_pairs(s)[s[j].0] == s[j].1);
            assert(key != k) by {
                assert(text_lt(s[j].0, s[i].0) || text_lt(s[i].0, s[j].0));
                lemma_text_lt_order(k, k, k);
            }
        }
    }
    assert(mt =~= ms);
}

/// Inserting `(k, v)` at the position that keeps the names ascending adds `k` to the map.
pub proof fn lemma_map_of_insert(s: Seq<(Seq<char>, Seq<char>)>, i: int, k: Seq<char>, v: Seq<char>)
    requires
        ascending(s),
        0 <= i <= s.len(),
        forall|j: int| 0 <= j < i ==> text_lt(#[trigger] s[j].0, k),
        forall|j: int| i <= j < s.len() ==> text_lt(k, #[trigger] s[j].0),
    ensures
        ascending(s.insert(i, (k, v))),
        map_of_pairs(s.insert(i, (k, v))) == map_of_pairs(s).insert(k, v),
        !map_of_pairs(s).contains_key(k),
{
    let t = s.insert(i, (k, v));
    assert forall|a: int, b: int| 0 <= a < b < t.len() implies text_lt(
        #[trigger] t[a].0,
        #[trigger] t[b].0,
    ) by {
        if b < i {
            assert(t[a] == s[a] && t[b] == s[b]);
        } else if b == i {
            assert(t[a] == s[a]);
        } else if a == i {
            assert(t[b] == s[b - 1]);
        } else if a < i {
            assert(t[a] == s[a] && t[b] == s[b - 1]);
            lemma_text_lt_order(s[a].0, k, s[b - 1].0);
        } else {
            assert(t[a] == s[a - 1] && t[b] == s[b - 1]);
        }
    }
    lemma_map_of_ascending(s);
    lemma_map_of_ascending(t);
    if map_of_pairs(s).contains_key(k) {
        let j = choose|j: int| 0 <= j < s.len() && #[trigger] s[j].0 == k;
        lemma_text_lt_order(k, k, k);
        if j < i {
            assert(text_lt(s[j].0, k));
        } else {
            assert(text_lt(k, s[j].0));
        }
    }
    let ms = map_of_pairs(s).insert(k, v);
    let mt = map_of_pairs(t);
    assert forall|key: Seq<char>| mt.contains_key(key) <==> ms.contains_key(key) by {
        if mt.contains_key(key) {
            let j = choose|j: int| 0 <= j < t.len() && #[trigger] t[j].0 == key;
            if j < i {
                assert(t[j] == s[j]);
                assert(map_of_pairs(s).contains_key(s[j].0));
            } else if j > i {
                assert(t[j] == s[j - 1]);
                assert(map_of_pairs(s).contains_key(s[j - 1].0));
            }
        }
        if map_of_pairs(s).contains_key(key) {
            let j = choose|j: int| 0 <= j < s.len() && #[trigger] s[j].0 == key;
            if j < i {
                assert(t[j] == s[j]);
                assert(mt.contains_key(t[j].0));
            } else {
                assert(t[j + 1] == s[j]);
                assert(mt.contains_key(t[j + 1].0));
            }
        }
        assert(t[i].0 == k);
        assert(mt.contains_key(t[i].0));
    }
    assert forall|key: Seq<char>| #[trigger] mt.contains_key(key) implies mt[key] == ms[key] by {
        let j = choose|j: int| 0 <= j < t.len() && #[trigger] t[j].0 == key;
        assert(mt[t[j].0] == t[j].1);
        if j < i {
            assert(t[j] == s[j]);
            assert(map_of_pairs(s)[s[j].0] == s[j].1);
        } else if j > i {
            assert(t[j] == s[j - 1]);
            assert(map_of_pairs(s)[s[j - 1].0] == s[j - 1].1);
        }
    }
    assert(mt =~= ms);
}

/// In an ascending sequence every pair is an entry of the map it describes.
pub proof fn lemma_map_of_ascending(s: Seq<(Seq<char>, Seq<char>)>)
    requires
        ascending(s),
    ensures
        forall|i: int|
            0 <= i < s.len() ==> #[trigger] map_of_pairs(s).contains_key(s[i].0)
                && map_of_pairs(s)[s[i].0] == s[i].1,
        forall|k: Seq<char>|
            #[trigger] map_of_pairs(s).contains_key(k) ==> exists|i: int|
                0 <= i < s.len() && #[trigger] s[i].0 == k,
        map_of_pairs(s).dom().finite(),
        map_of_pairs(s).len() == s.len(),
{
    assert forall|i: int| 0 <= i < s.len() implies #[trigger] map_of_pairs(s).contains_key(s[i].0)
        && map_of_pairs(s)[s[i].0] == s[i].1 by {
        let k = s[i].0;
        assert(exists|j: int| 0 <= j < s.len() && #[trigger] s[j].0 == k);
        lemma_value_named_ascending(s, i);
    }
    lemma_ascending_dom(s);
}

/// The domain of the map of an ascending sequence is its set of names, of the same size.
proof fn lemma_ascending_dom(s: Seq<(Seq<char>, Seq<char>)>)
    requires
        ascending(s),
    ensures
        map_of_pairs(s).dom() == s.map_values(|p: (Seq<char>, Seq<char>)| p.0).to_set(),
        map_of_pairs(s).dom().finite(),
        map_of_pairs(s).len() == s.len(),
{
    let names = s.map_values(|p: (Seq<char>, Seq<char>)| p.0);
    assert forall|k: Seq<char>| map_of_pairs(s).dom().contains(k) <==> names.to_set().contains(k) by {
        if map_of_pairs(s).dom().contains(k) {
            let i = choose|i: int| 0 <= i < s.len() && #[trigger] s[i].0 == k;
            assert(names[i] == k);
        }
        if names.to_set().contains(k) {
            let i = choose|i: int| 0 <= i < names.len() && names[i] == k;
            assert(s[i].0 == k);
        }
    }
    assert(map_of_pairs(s).dom() =~= names.to_set());
    assert(names.no_duplicates()) by {
        assert forall|i: int, j: int| 0 <= i < names.len() && 0 <= j < names.len() && i != j
            implies names[i] != names[j] by {
            if i < j {
                assert(text_lt(s[i].0, s[j].0));
            } else {
                assert(text_lt(s[j].0, s[i].0));
            }
            lemma_text_lt_order(s[i].0, s[j].0, s[j].0);
        }
    }
    names.unique_seq_to_set();
}

/// A table of named slots, each naming a CID.
#[derive(Debug, PartialEq, Eq)]
pub struct EntryMap {
    items: Vec<(String, String)>,
}

impl View for EntryMap {
    type V = Map<Seq<char>, Seq<char>>;

    open spec fn view(&self) -> Map<Seq<char>, Seq<char>> {
        map_of_pairs(self.pairs())
    }
}

impl EntryMap {
    /// The slots in ascending order of name.
    pub closed spec fn pairs(&self) -> Seq<(Seq<char>, Seq<char>)> {
        self.items@.map_values(|p: (String, String)| (p.0@, p.1@))
    }

    #[verifier::type_invariant]
    spec fn names_ascend(&self) -> bool {
        ascending(self.pairs())
    }

    /// An empty table.
    pub fn new() -> (m: Self)
        ensures
            m@ == Map::<Seq<char>, Seq<char>>::empty(),
            m.pairs() == Seq::<(Seq<char>, Seq<char>)>::empty(),
    {
        let m = EntryMap { items: Vec::new() };
        assert(m.pairs() =~= Seq::<(Seq<char>, Seq<char>)>::empty());
        assert(m@ =~= Map::<Seq<char>, Seq<char>>::empty());
        m
    }

    /// Number of slots; also states that the slots ascend by name and describe the map.
    pub fn len(&self) -> (n: usize)
        ensures
            n == self.pairs().len(),
            n == self@.len(),
            ascending(self.pairs()),
            self@.dom().finite(),
    {
        proof {
            use_type_invariant(self);
            lemma_map_of_ascending(self.pairs());
        }
        self.items.len()
    }

    /// The `i`-th slot in ascending order of name.
    pub fn entry(&self, i: usize) -> (r: (&String, &String))
        requires
            i < self.pairs().len(),
        ensures
            (r.0@, r.1@) == self.pairs()[i as int],
            self@.contains_key(r.0@),
            self@[r.0@] == r.1@,
    {
        proof {
            use_type_invariant(self);
            lemma_map_of_ascending(self.pairs());
            assert(self@.contains_key(self.pairs()[i as int].0));
        }
        let p = &self.items[i];
        (&p.0, &p.1)
    }

    /// Position of the first slot whose name does not precede `key`, and whether it is `key`.
    fn locate(&self, key: &str) -> (r: (usize, bool))
        ensures
            r.0 <= self.pairs().len(),
            forall|j: int| 0 <= j < r.0 ==> text_lt(#[trigger] self.pairs()[j].0, key@),
            r.1 ==> r.0 < self.pairs().len() && self.pairs()[r.0 as int].0 == key@,
            !r.1 ==> forall|j: int|
                r.0 <= j < self.pairs().len() ==> text_lt(key@, #[trigger] self.pairs()[j].0),
    {
        proof {
            use_type_invariant(self);
        }
        let n = self.items.len();
        let mut i: usize = 0;
        while i < n
            invariant
                n == self.pairs().len(),
                ascending(self.pairs()),
                i <= n,
                forall|j: int| 0 <= j < i ==> text_lt(#[trigger] self.pairs()[j].0, key@),
            decreases n - i,
        {
            let name = &self.items[i].0;
            assert(name@ == self.pairs()[i as int].0);
            match compare_text(name.as_str(), key) {
                TextOrder::Less => {
                    i = i + 1;
                },
                TextOrder::Equal => {
                    return (i, true);
                },
                TextOrder::Greater => {
                    proof {
                        assert forall|j: int| i <= j < n implies text_lt(
                            key@,
                            #[trigger] self.pairs()[j].0,
                        ) by {
                            if j > i {
                                assert(text_lt(self.pairs()[i as int].0, self.pairs()[j].0));
                                lemma_text_lt_order(key@, self.pairs()[i as int].0, self.pairs()[j].0);
                            }
                        }
                    }
                    return (i, false);
                },
            }
        }
        (i, false)
    }

    /// Whether a slot named `key` exists.
    pub fn contains_key(&self, key: &str) -> (r: bool)
        ensures
            r == self@.contains_key(key@),
    {
        proof {
            use_type_invariant(self);
            lemma_map_of_ascending(self.pairs());
        }
        let (i, found) = self.locate(key);
        proof {
            if !found && self@.contains_key(key@) {
                let j = choose|j: int| 0 <= j < self.pairs().len() && #[trigger] self.pairs()[j].0 == key@;
                if j < i {
                    assert(text_lt(self.pairs()[j].0, key@));
                } else {
                    assert(text_lt(key@, self.pairs()[j].0));
                }
                lemma_text_lt_order(key@, key@, key@);
            }
        }
        found
    }

    /// The CID of the slot named `key`, if there is one.
    pub fn get(&self, key: &str) -> (r: Option<&String>)
        ensures
            match r {
                Some(v) => self@.contains_key(key@) && self@[key@] == v@,
                None => !self@.contains_key(key@),
            },
    {
        proof {
            use_type_invariant(self);
            lemma_map_of_ascending(self.pairs());
        }
        let (i, found) = self.locate(key);
        if found {
            Some(&self.items[i].1)
        } else {
            proof {
                if self@.contains_key(key@) {
                    let j = choose|j: int|
                        0 <= j < self.pairs().len() && #[trigger] self.pairs()[j].0 == key@;
                    if j < i {
                        assert(text_lt(self.pairs()[j].0, key@));
                    } else {
                        assert(text_lt(key@, self.pairs()[j].0));
                    }
                    lemma_text_lt_order(key@, key@, key@);
                }
            }
            None
        }
    }

    /// Sets the slot `key` to `value`; returns the CID the slot held before.
    pub fn insert(&mut self, key: String, value: String) -> (previous: Option<String>)
        ensures
            final(self)@ == old(self)@.insert(key@, value@),
            match previous {
                Some(v) => old(self)@.contains_key(key@) && v@ == old(self)@[key@],
                None => !old(self)@.contains_key(key@),
            },
    {
        proof {
            use_type_invariant(&*self);
            lemma_map_of_ascending(self.pairs());
        }
        let ghost s = self.pairs();
        let (i, found) = self.locate(key.as_str());
        let mut items: Vec<(String, String)> = Vec::new();
        std::mem::swap(&mut items, &mut self.items);
        assert(items@.map_values(|p: (String, String)| (p.0@, p.1@)) == s);
        if found {
            let previous = items[i].1.clone();
            proof {
                lemma_map_of_update(s, i as int, value@);
            }
            items.set(i, (key, value));
            assert(items@.map_values(|p: (String, String)| (p.0@, p.1@)) =~= s.update(
                i as int,
                (s[i as int].0, value@),
            ));
            self.items = items;
            Some(previous)
        } else {
            proof {
                lemma_map_of_insert(s, i as int, key@, value@);
            }
            items.insert(i, (key, value));
            assert(items@.map_values(|p: (String, String)| (p.0@, p.1@)) =~= s.insert(
                i as int,
                (key@, value@),
            ));
            self.items = items;
            None
        }
    }
}


impl Clone for EntryMap {
    /// A slot-by-slot copy.
    fn clone(&self) -> (r: Self)
        ensures
            r.pairs() == self.pairs(),
            r@ == self@,
    {
        proof {
            use_type_invariant(self);
        }
        let n = self.items.len();
        let mut items: Vec<(String, String)> = Vec::new();
        let mut i: usize = 0;
        while i < n
            invariant
                n == self.items@.len(),
                i <= n,
                items@.len() == i,
                forall|j: int|
                    0 <= j < i ==> (#[trigger] items@[j]).0@ == self.items@[j].0@
                        && items@[j].1@ == self.items@[j].1@,
            decreases n - i,
        {
            let p = &self.items[i];
            items.push((p.0.clone(), p.1.clone()));
            i = i + 1;
        }
        assert(items@.map_values(|p: (String, String)| (p.0@, p.1@)) =~= self.pairs());
        let r = EntryMap { items };
        r
    }
}

} // verus!
