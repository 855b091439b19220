//! A string-to-string map for labels, annotations and selectors: its
//! entries in insertion order, each key at most once. Inserting a key that
//! is present replaces its value, as an ordered map does.
use vstd::prelude::*;

verus! {

pub open spec fn entries_map(s: Seq<(Seq<char>, Seq<char>)>) -> Map<Seq<char>, Seq<char>>
    decreases s.len(),
{
    if s.len() == 0 {
        Map::empty()
    } else {
        entries_map(s.drop_last()).insert(s.last().0, s.last().1)
    }
}

pub open spec fn keys_unique(s: Seq<(Seq<char>, Seq<char>)>) -> bool {
    forall|i: int, j: int| 0 <= i < j < s.len() ==> (#[trigger] s[i]).0 != (#[trigger] s[j]).0
}

proof fn lemma_entries_map_lookup(s: Seq<(Seq<char>, Seq<char>)>, k: Seq<char>)
    requires
        keys_unique(s),
    ensures
        entries_map(s).contains_key(k) <==> exists|i: int| 0 <= i < s.len() && (#[trigger] s[i]).0 == k,
        forall|i: int| 0 <= i < s.len() && (#[trigger] s[i]).0 == k ==> entries_map(s)[k] == s[i].1,
    decreases s.len(),
{
    if s.len() > 0 {
        let p = s.drop_last();
        assert(keys_unique(p)) by {
            assert forall|i: int, j: int| 0 <= i < j < p.len() implies (#[trigger] p[i]).0 != (#[trigger] p[j]).0 by {
                assert(p[i] == s[i] && p[j] == s[j]);
            }
        }
        lemma_entries_map_lookup(p, k);
        if exists|i: int| 0 <= i < s.len() && (#[trigger] s[i]).0 == k {
            let i = choose|i: int| 0 <= i < s.len() && (#[trigger] s[i]).0 == k;
            if i < s.len() - 1 {
                assert(p[i] == s[i]);
            }
        }
        assert forall|i: int| 0 <= i < s.len() && (#[trigger] s[i]).0 == k implies entries_map(s)[k] == s[i].1 by {
            if i < s.len() - 1 {
                assert(p[i] == s[i]);
                assert(s[i].0 != s[s.len() - 1].0);
            }
        }
        if exists|i: int| 0 <= i < p.len() && (#[trigger] p[i]).0 == k {
            let i = choose|i: int| 0 <= i < p.len() && (#[trigger] p[i]).0 == k;
            assert(s[i] == p[i]);
        }
    }
}

proof fn lemma_entries_map_len(s: Seq<(Seq<char>, Seq<char>)>)
    requires
        keys_unique(s),
    ensures
        entries_map(s).len() == s.len(),
        entries_map(s).dom().finite(),
    decreases s.len(),
{
    if s.len() > 0 {
        let p = s.drop_last();
        assert(keys_unique(p)) by {
            assert forall|i: int, j: int| 0 <= i < j < p.len() implies (#[trigger] p[i]).0 != (#[trigger] p[j]).0 by {
                assert(p[i] == s[i] && p[j] == s[j]);
            }
        }
        lemma_entries_map_len(p);
        lemma_entries_map_lookup(p, s.last().0);
        if entries_map(p).contains_key(s.last().0) {
            let i = choose|i: int| 0 <= i < p.len() && (#[trigger] p[i]).0 == s.last().0;
            assert(s[i] == p[i]);
            assert(s[i].0 != s[s.len() - 1].0);
        }
    }
}

proof fn lemma_entries_map_update(s: Seq<(Seq<char>, Seq<char>)>, i: int, v: Seq<char>)
    requires
        keys_unique(s),
        0 <= i < s.len(),
    ensures
        entries_map(s.update(i, (s[i].0, v))) == entries_map(s).insert(s[i].0, v),
        keys_unique(s.update(i, (s[i].0, v))),
    decreases s.len(),
{
    let t = s.update(i, (s[i].0, v));
    let p = s.drop_last();
    assert(keys_unique(p)) by {
        assert forall|a: int, b: int| 0 <= a < b < p.len() implies (#[trigger] p[a]).0 != (#[trigger] p[b]).0 by {
            assert(p[a] == s[a] && p[b] == s[b]);
        }
    }
    assert(keys_unique(t)) by {
        assert forall|a: int, b: int| 0 <= a < b < t.len() implies (#[trigger] t[a]).0 != (#[trigger] t[b]).0 by {
            assert(t[a].0 == s[a].0 && t[b].0 == s[b].0);
        }
    }
    if i == s.len() - 1 {
        assert(t.drop_last() =~= p);
        assert(entries_map(t) =~= entries_map(s).insert(s[i].0, v));
    } else {
        lemma_entries_map_update(p, i, v);
        assert(t.drop_last() =~= p.update(i, (p[i].0, v)));
        assert(s.last().0 != s[i].0);
        assert(entries_map(t) =~= entries_map(s).insert(s[i].0, v));
    }
}

/// A map from strings to strings.
#[derive(Debug)]
pub struct Labels {
    entries: Vec<(String, String)>,
}

impl Clone for Labels {
    fn clone(&self) -> (r: Labels)
        ensures
            r.view() == self.view(),
    {
        let mut r = Labels::new();
        r.extend_from(self);
        assert(r.view() =~= self.view());
        r
    }
}

impl Labels {
    pub closed spec fn entries_spec(&self) -> Seq<(Seq<char>, Seq<char>)> {
        self.entries@.map_values(|e: (String, String)| (e.0@, e.1@))
    }

    pub open spec fn view(&self) -> Map<Seq<char>, Seq<char>> {
        entries_map(self.entries_spec())
    }

    #[verifier::type_invariant]
    spec fn keys_are_unique(&self) -> bool {
        keys_unique(self.entries_spec())
    }

    /// The empty map.
    pub fn new() -> (r: Labels)
        ensures
            r.view() == Map::<Seq<char>, Seq<char>>::empty(),
    {
        let r = Labels { entries: Vec::new() };
        assert(r.entries_spec() =~= Seq::<(Seq<char>, Seq<char>)>::empty());
        r
    }

    /// Number of keys.
    pub fn len(&self) -> (r: usize)
        ensures
            r == self.entries_spec().len(),
            r == self.view().len(),
    {
        proof {
            use_type_invariant(self);
            lemma_entries_map_len(self.entries_spec());
        }
        self.entries.len()
    }

    /// Whether the map has no key.
    pub fn is_empty(&self) -> (r: bool)
        ensures
            r == (self.view() == Map::<Seq<char>, Seq<char>>::empty()),
    {
        proof {
            use_type_invariant(self);
            lemma_entries_map_len(self.entries_spec());
            if self.entries_spec().len() > 0 {
                let k = self.entries_spec()[0].0;
                lemma_entries_map_lookup(self.entries_spec(), k);
                assert(self.view().contains_key(k));
            } else {
                assert(self.view() =~= Map::<Seq<char>, Seq<char>>::empty());
            }
        }
        self.entries.len() == 0
    }

    /// The entries in insertion order.
    pub fn entries(&self) -> (r: &Vec<(String, String)>)
        ensures
            r@.map_values(|e: (String, String)| (e.0@, e.1@)) == self.entries_spec(),
    {
        &self.entries
    }

    fn find(&self, key: &String) -> (r: Option<usize>)
        ensures
            r is None <==> !self.view().contains_key(key@),
            r matches Some(i) ==> i < self.entries_spec().len() && self.entries_spec()[i as int].0
                == key@,
    {
        proof {
            use_type_invariant(self);
        }
        let ghost s = self.entries_spec();
        let mut i: usize = 0;
        while i < self.entries.len()
            invariant
                keys_unique(s),
                s == self.entries_spec(),
                s.len() == self.entries@.len(),
                i <= s.len(),
                forall|j: int| 0 <= j < i ==> (#[trigger] s[j]).0 != key@,
            decreases s.len() - i,
        {
            assert(s[i as int].0 == self.entries@[i as int].0@);
            if self.entries[i].0 == *key {
                proof {
                    lemma_entries_map_lookup(s, key@);
                    assert(s[i as int].0 == key@);
                }
                return Some(i);
            }
            i = i + 1;
        }
        proof {
            lemma_entries_map_lookup(s, key@);
        }
        None
    }

    /// The value of `key`, if present.
    pub fn get(&self, key: &String) -> (r: Option<String>)
        ensures
            r is Some <==> self.view().contains_key(key@),
            r matches Some(v) ==> v@ == self.view()[key@],
    {
        match self.find(key) {
            Some(i) => {
                proof {
                    use_type_invariant(self);
                    lemma_entries_map_lookup(self.entries_spec(), key@);
                    assert(self.entries_spec()[i as int].1 == self.entries@[i as int].1@);
                }
                Some(self.entries[i].1.clone())
            },
            None => None,
        }
    }

    /// Sets `key` to `value`, replacing any earlier value of `key`.
    pub fn insert(&mut self, key: String, value: String)
        ensures
            final(self).view() == old(self).view().insert(key@, value@),
    {
        proof {
            use_type_invariant(&*self);
        }
        let found = self.find(&key);
        let ghost s = self.entries_spec();
        let mut entries: Vec<(String, String)> = Vec::new();
        std::mem::swap(&mut entries, &mut self.entries);
        assert(entries@.map_values(|e: (String, String)| (e.0@, e.1@)) == s);
        match found {
            Some(i) => {
                proof {
                    lemma_entries_map_update(s, i as int, value@);
                }
                let k = entries[i].0.clone();
                entries.set(i, (k, value));
                assert(entries@.map_values(|e: (String, String)| (e.0@, e.1@)) =~= s.update(
                    i as int,
                    (s[i as int].0, value@),
                ));
            },
            None => {
                proof {
                    lemma_entries_map_lookup(s, key@);
                }
                entries.push((key, value));
                let ghost t = entries@.map_values(|e: (String, String)| (e.0@, e.1@));
                assert(t.drop_last() =~= s);
                assert(keys_unique(t)) by {
                    assert forall|a: int, b: int| 0 <= a < b < t.len() implies (#[trigger] t[a]).0 != (#[trigger] t[b]).0 by {
                        if b == t.len() - 1 {
                            assert(t[a] == s[a]);
                        } else {
                            assert(t[a] == s[a] && t[b] == s[b]);
                        }
                    }
                }
            },
        }
        self.entries = entries;
    }

    /// Copies every entry of `other` into this map; the values of `other`
    /// win where both hold a key.
    pub fn extend_from(&mut self, other: &Labels)
        ensures
            final(self).view() == old(self).view().union_prefer_right(other.view()),
    {
        let ghost o = other.entries_spec();
        let ghost start = self.view();
        let mut i: usize = 0;
        while i < other.entries.len()
            invariant
                o == other.entries_spec(),
                o.len() == other.entries@.len(),
                i <= o.len(),
                self.view() == start.union_prefer_right(entries_map(o.subrange(0, i as int))),
            decreases o.len() - i,
        {
            let k = other.entries[i].0.clone();
            let v = other.entries[i].1.clone();
            assert(o[i as int] == (k@, v@));
            self.insert(k, v);
            let ghost sub = o.subrange(0, i + 1);
            assert(sub.drop_last() =~= o.subrange(0, i as int));
            assert(self.view() =~= start.union_prefer_right(entries_map(sub)));
            i = i + 1;
        }
        assert(o.subrange(0, o.len() as int) =~= o);
    }

    /// Builds a map from `entries`, a later entry winning over an earlier one
    /// with the same key.
    pub fn from_entries(entries: Vec<(String, String)>) -> (r: Labels)
        ensures
            r.view() == entries_map(entries@.map_values(|e: (String, String)| (e.0@, e.1@))),
    {
        let ghost all = entries@.map_values(|e: (String, String)| (e.0@, e.1@));
        let mut r = Labels::new();
        let mut i: usize = 0;
        while i < entries.len()
            invariant
                all == entries@.map_values(|e: (String, String)| (e.0@, e.1@)),
                all.len() == entries@.len(),
                i <= all.len(),
                r.view() == entries_map(all.subrange(0, i as int)),
            decreases all.len() - i,
        {
            let k = entries[i].0.clone();
            let v = entries[i].1.clone();
            assert(all[i as int] == (k@, v@));
            r.insert(k, v);
            assert(all.subrange(0, i + 1).drop_last() =~= all.subrange(0, i as int));
            i = i + 1;
        }
        assert(all.subrange(0, all.len() as int) =~= all);
        r
    }
}

} // verus!
