//! Small association tables backed by vectors of key/value pairs.
//!
//! Each table keeps at most one entry per key and is abstracted, through
//! its view, as a `Map` from key views to value views.  The ghost
//! machinery here — `map_of`, `unique_keys` and their lemmas — is shared
//! by every table of the crate.

use vstd::prelude::*;

verus! {

/// The map described by a sequence of key/value pairs; later pairs win.
pub open spec fn map_of<KV, VV>(s: Seq<(KV, VV)>) -> Map<KV, VV>
    decreases s.len(),
{
    if s.len() == 0 {
        Map::empty()
    } else {
        map_of(s.drop_last()).insert(s.last().0, s.last().1)
    }
}

/// No two pairs of the sequence share a key.
pub open spec fn unique_keys<KV, VV>(s: Seq<(KV, VV)>) -> bool {
    forall|i: int, j: int| 0 <= i < j < s.len() ==> (#[trigger] s[i]).0 != (#[trigger] s[j]).0
}

/// A key is in the map exactly when some pair of the sequence carries it.
pub proof fn lemma_map_of_contains<KV, VV>(s: Seq<(KV, VV)>, k: KV)
    ensures
        map_of(s).contains_key(k) <==> exists|i: int| 0 <= i < s.len() && (#[trigger] s[i]).0 == k,
    decreases s.len(),
{
    if s.len() > 0 {
        lemma_map_of_contains(s.drop_last(), k);
        if s.last().0 == k {
            assert(s[s.len() - 1].0 == k);
        } else {
            if map_of(s).contains_key(k) {
                let i = choose|i: int| 0 <= i < s.drop_last().len() && (#[trigger] s.drop_last()[i]).0 == k;
                assert(s[i].0 == k);
            }
            if exists|i: int| 0 <= i < s.len() && (#[trigger] s[i]).0 == k {
                let i = choose|i: int| 0 <= i < s.len() && (#[trigger] s[i]).0 == k;
                assert(s.drop_last()[i].0 == k);
            }
        }
    }
}

/// With unique keys, the pair at index `i` is what the map holds for its key.
pub proof fn lemma_map_of_index<KV, VV>(s: Seq<(KV, VV)>, i: int)
    requires
        unique_keys(s),
        0 <= i < s.len(),
    ensures
        map_of(s).contains_key(s[i].0),
        map_of(s)[s[i].0] == s[i].1,
    decreases s.len(),
{
    if i < s.len() - 1 {
        assert(s.drop_last()[i] == s[i]);
        lemma_map_of_index(s.drop_last(), i);
        assert(s.last().0 != s[i].0);
    }
}

/// With unique keys, dropping the pair at index `i` removes its key.
pub proof fn lemma_map_of_remove<KV, VV>(s: Seq<(KV, VV)>, i: int)
    requires
        unique_keys(s),
        0 <= i < s.len(),
    ensures
        map_of(s.remove(i)) == map_of(s).remove(s[i].0),
    decreases s.len(),
{
    let k = s[i].0;
    if i == s.len() - 1 {
        assert(s.remove(i) =~= s.drop_last());
        lemma_map_of_contains(s.drop_last(), k);
        assert(forall|j: int| 0 <= j < s.drop_last().len() ==> (#[trigger] s.drop_last()[j]) == s[j]);
        assert(!map_of(s.drop_last()).contains_key(k));
        assert(map_of(s.drop_last()) =~= map_of(s).remove(k));
    } else {
        let t = s.remove(i);
        assert(t.drop_last() =~= s.drop_last().remove(i));
        assert(t.last() == s.last());
        assert(forall|j: int| 0 <= j < s.drop_last().len() ==> (#[trigger] s.drop_last()[j]) == s[j]);
        lemma_map_of_remove(s.drop_last(), i);
        assert(map_of(t) == map_of(s.drop_last()).remove(k).insert(s.last().0, s.last().1));
        assert(s.last().0 != k);
        assert(map_of(s.drop_last()).remove(k).insert(s.last().0, s.last().1) =~= map_of(
            s.drop_last(),
        ).insert(s.last().0, s.last().1).remove(k));
    }
}

/// With unique keys, the map has exactly one entry per pair.
pub proof fn lemma_map_of_len<KV, VV>(s: Seq<(KV, VV)>)
    requires
        unique_keys(s),
    ensures
        map_of(s).dom().finite(),
        map_of(s).dom().len() == s.len(),
    decreases s.len(),
{
    if s.len() > 0 {
        assert(forall|j: int| 0 <= j < s.drop_last().len() ==> (#[trigger] s.drop_last()[j]) == s[j]);
        lemma_map_of_len(s.drop_last());
        lemma_map_of_contains(s.drop_last(), s.last().0);
        assert(!map_of(s.drop_last()).contains_key(s.last().0));
    }
}

/// The pairs of a pushed sequence describe the map after one insertion.
pub proof fn lemma_map_of_push<KV, VV>(s: Seq<(KV, VV)>, k: KV, v: VV)
    ensures
        map_of(s.push((k, v))) == map_of(s).insert(k, v),
{
    assert(s.push((k, v)).drop_last() =~= s);
    assert(s.push((k, v)).last() == (k, v));
}

/// A property table: string keys bound to string values, one entry per key.
#[derive(Debug)]
pub struct PropertyMap {
    entries: Vec<(String, String)>,
}

/// The views of a sequence of string pairs.
pub open spec fn string_pairs(entries: Seq<(String, String)>) -> Seq<(Seq<char>, Seq<char>)> {
    entries.map(|i: int, p: (String, String)| (p.0@, p.1@))
}

impl View for PropertyMap {
    type V = Map<Seq<char>, Seq<char>>;

    closed spec fn view(&self) -> Map<Seq<char>, Seq<char>> {
        map_of(string_pairs(self.entries@))
    }
}

impl PropertyMap {
    #[verifier::type_invariant]
    spec fn wf(self) -> bool {
        unique_keys(string_pairs(self.entries@))
    }

    /// The key/value views in entry order.
    pub closed spec fn pairs(self) -> Seq<(Seq<char>, Seq<char>)> {
        string_pairs(self.entries@)
    }

    /// An empty table.
    pub fn new() -> (m: Self)
        ensures
            m@ == Map::<Seq<char>, Seq<char>>::empty(),
    {
        let m = PropertyMap { entries: Vec::new() };
        proof {
            assert(string_pairs(m.entries@) =~= Seq::<(Seq<char>, Seq<char>)>::empty());
        }
        m
    }

    /// How many keys are bound.
    pub fn len(&self) -> (n: usize)
        ensures
            n == self@.len(),
    {
        proof {
            use_type_invariant(&*self);
            lemma_map_of_len(string_pairs(self.entries@));
        }
        self.entries.len()
    }

    /// The index of the entry that carries `key`, if any.
    fn find_index(&self, key: &str) -> (r: Option<usize>)
        ensures
            match r {
                Some(i) => i < self.entries@.len() && self.entries@[i as int].0@ == key@,
                None => forall|j: int|
                    0 <= j < self.entries@.len() ==> (#[trigger] self.entries@[j]).0@ != key@,
            },
    {
        let n = self.entries.len();
        let mut i: usize = 0;
        while i < n
            invariant
                i <= n,
                n == self.entries@.len(),
                forall|j: int| 0 <= j < i ==> (#[trigger] self.entries@[j]).0@ != key@,
            decreases n - i,
        {
            if crate::text::str_eq(self.entries[i].0.as_str(), key) {
                return Some(i);
            }
            i = i + 1;
        }
        None
    }

    /// The value bound to `key`, if any.
    pub fn get(&self, key: &str) -> (r: Option<&String>)
        ensures
            match r {
                Some(v) => self@.contains_key(key@) && v@ == self@[key@],
                None => !self@.contains_key(key@),
            },
    {
        proof {
            use_type_invariant(&*self);
        }
        let r = self.find_index(key);
        proof {
            lemma_map_of_contains(string_pairs(self.entries@), key@);
            if let Some(i) = r {
                lemma_map_of_index(string_pairs(self.entries@), i as int);
            }
        }
        match r {
            Some(i) => Some(&self.entries[i].1),
            None => None,
        }
    }

    /// Bind `key` to `value`, replacing any earlier binding.
    pub fn insert(&mut self, key: String, value: String)
        ensures
            final(self)@ == old(self)@.insert(key@, value@),
    {
        proof {
            use_type_invariant(&*self);
        }
        let ghost s0 = string_pairs(self.entries@);
        let idx = self.find_index(key.as_str());
        let mut entries: Vec<(String, String)> = Vec::new();
        std::mem::swap(&mut entries, &mut self.entries);
        if let Some(i) = idx {
            let _replaced = entries.remove(i);
            proof {
                assert(string_pairs(entries@) =~= s0.remove(i as int));
                lemma_map_of_remove(s0, i as int);
                assert(forall|j: int|
                    0 <= j < s0.remove(i as int).len() ==> (#[trigger] s0.remove(i as int)[j]).0
                        != key@);
            }
        }
        let ghost s1 = string_pairs(entries@);
        entries.push((key, value));
        proof {
            assert(string_pairs(entries@) =~= s1.push((key@, value@)));
            lemma_map_of_push(s1, key@, value@);
            assert(map_of(string_pairs(entries@)) =~= map_of(s0).insert(key@, value@));
        }
        self.entries = entries;
    }
}

impl Clone for PropertyMap {
    /// A copy with the same bindings.
    fn clone(&self) -> (r: Self)
        ensures
            r@ == self@,
    {
        proof {
            use_type_invariant(&*self);
        }
        let n = self.entries.len();
        let mut entries: Vec<(String, String)> = Vec::new();
        let mut i: usize = 0;
        while i < n
            invariant
                i <= n,
                n == self.entries@.len(),
                entries@.len() == i,
                forall|j: int| 0 <= j < i ==> (#[trigger] entries@[j]).0@ == self.entries@[j].0@
                    && entries@[j].1@ == self.entries@[j].1@,
            decreases n - i,
        {
            let k = self.entries[i].0.clone();
            let v = self.entries[i].1.clone();
            entries.push((k, v));
            i = i + 1;
        }
        proof {
            assert(string_pairs(entries@) =~= string_pairs(self.entries@));
        }
        PropertyMap { entries }
    }
}

} // verus!
