//! The dependency table of a descriptor: dependencies filed under their
//! group/artifact key, with the operations the merge algorithm needs —
//! normalization against a parent, property interpolation, the child-wins
//! parent merge, the overwriting BOM merge, and collection of imported
//! BOM references.

use vstd::prelude::*;

use crate::maps::{lemma_map_of_contains, lemma_map_of_index, lemma_map_of_len, lemma_map_of_push,
    lemma_map_of_remove, map_of, unique_keys};
use crate::model::{interp_dep, key_of, norm_dep, ArtifactFqn, DepView, Dependency, DependencyKey,
    FqnView, KeyView};
use crate::maps::PropertyMap;

verus! {

/// The views of a sequence of key/dependency pairs.
pub open spec fn dep_pairs(entries: Seq<(DependencyKey, Dependency)>) -> Seq<(KeyView, DepView)> {
    entries.map(|i: int, p: (DependencyKey, Dependency)| (p.0@, p.1@))
}

/// The dependencies of the sequence whose scope is `import`, in order.
pub open spec fn import_list(s: Seq<(KeyView, DepView)>) -> Seq<DepView>
    decreases s.len(),
{
    if s.len() == 0 {
        Seq::empty()
    } else {
        let rest = import_list(s.drop_last());
        if s.last().1.scope == Some("import"@) {
            rest.push(s.last().1)
        } else {
            rest
        }
    }
}

/// The map left by normalizing every dependency of the sequence against
/// `parent` and refiling it under its new key; later entries win.
pub open spec fn norm_fold(
    s: Seq<(KeyView, DepView)>,
    parent: FqnView,
    dp: Seq<char>,
) -> Map<KeyView, DepView>
    decreases s.len(),
{
    if s.len() == 0 {
        Map::empty()
    } else {
        let d = norm_dep(s.last().1, parent, dp);
        norm_fold(s.drop_last(), parent, dp).insert(key_of(d), d)
    }
}

/// `r` holds exactly the normalizations of the entries of `q`, each
/// refiled under its own (possibly changed) group/artifact key.
pub open spec fn normalized_from(
    r: Map<KeyView, DepView>,
    q: Map<KeyView, DepView>,
    parent: FqnView,
    dp: Seq<char>,
) -> bool {
    &&& forall|k: KeyView| #[trigger]
        r.contains_key(k) ==> exists|k0: KeyView|
            #[trigger] q.contains_key(k0) && k == key_of(norm_dep(q[k0], parent, dp)) && r[k]
                == norm_dep(q[k0], parent, dp)
    &&& forall|k0: KeyView| #[trigger]
        q.contains_key(k0) ==> r.contains_key(key_of(norm_dep(q[k0], parent, dp)))
}

/// A dependency table: one dependency per group/artifact key.
#[derive(Debug)]
pub struct DependencyMap {
    entries: Vec<(DependencyKey, Dependency)>,
}

impl View for DependencyMap {
    type V = Map<KeyView, DepView>;

    closed spec fn view(&self) -> Map<KeyView, DepView> {
        map_of(dep_pairs(self.entries@))
    }
}

impl DependencyMap {
    #[verifier::type_invariant]
    spec fn wf(self) -> bool {
        unique_keys(dep_pairs(self.entries@))
    }

    /// The key/dependency views in entry order.
    pub closed spec fn pairs(self) -> Seq<(KeyView, DepView)> {
        dep_pairs(self.entries@)
    }

    /// An empty table.
    pub fn new() -> (m: Self)
        ensures
            m@ == Map::<KeyView, DepView>::empty(),
            m.pairs() == Seq::<(KeyView, DepView)>::empty(),
    {
        let m = DependencyMap { entries: Vec::new() };
        proof {
            assert(dep_pairs(m.entries@) =~= Seq::<(KeyView, DepView)>::empty());
        }
        m
    }

    /// How many dependencies are filed.
    pub fn len(&self) -> (n: usize)
        ensures
            n == self@.len(),
            n == self.pairs().len(),
    {
        proof {
            use_type_invariant(&*self);
            lemma_map_of_len(dep_pairs(self.entries@));
        }
        self.entries.len()
    }

    /// The entry at position `i`, which the view files under its key.
    pub fn entry_at(&self, i: usize) -> (r: &(DependencyKey, Dependency))
        requires
            i < self.pairs().len(),
        ensures
            (r.0@, r.1@) == self.pairs()[i as int],
            self@.contains_key(r.0@),
            self@[r.0@] == r.1@,
    {
        proof {
            use_type_invariant(&*self);
            lemma_map_of_index(dep_pairs(self.entries@), i as int);
        }
        &self.entries[i]
    }

    /// The index of the entry filed under `key`, if any.
    fn find_index(&self, key: &DependencyKey) -> (r: Option<usize>)
        ensures
            match r {
                Some(i) => i < self.entries@.len() && self.entries@[i as int].0@ == key@,
                None => forall|j: int|
                    0 <= j < self.entries@.len() ==> (#[trigger] self.entries@[j]).0@ != key@,
            },
    {
        let n = self.entries.len();
        let mut i: usize = 0;
        while i < n
            invariant
                i <= n,
                n == self.entries@.len(),
                forall|j: int| 0 <= j < i ==> (#[trigger] self.entries@[j]).0@ != key@,
            decreases n - i,
        {
            if self.entries[i].0 == *key {
                return Some(i);
            }
            i = i + 1;
        }
        None
    }

    /// Whether a dependency is filed under `key`.
    pub fn contains_key(&self, key: &DependencyKey) -> (r: bool)
        ensures
            r == self@.contains_key(key@),
    {
        proof {
            use_type_invariant(&*self);
        }
        let r = self.find_index(key);
        proof {
            lemma_map_of_contains(dep_pairs(self.entries@), key@);
            if let Some(i) = r {
                assert(dep_pairs(self.entries@)[i as int].0 == key@);
            } else {
                assert forall|j: int| 0 <= j < dep_pairs(self.entries@).len() implies (#[trigger]
                dep_pairs(self.entries@)[j]).0 != key@ by {
                    assert(self.entries@[j].0@ != key@);
                }
            }
        }
        match r {
            Some(_) => true,
            None => false,
        }
    }

    /// The dependency filed under `key`, if any.
    pub fn get(&self, key: &DependencyKey) -> (r: Option<&Dependency>)
        ensures
            match r {
                Some(d) => self@.contains_key(key@) && d@ == self@[key@],
                None => !self@.contains_key(key@),
            },
    {
        proof {
            use_type_invariant(&*self);
        }
        let r = self.find_index(key);
        proof {
            lemma_map_of_contains(dep_pairs(self.entries@), key@);
            if let Some(i) = r {
                lemma_map_of_index(dep_pairs(self.entries@), i as int);
            }
        }
        match r {
            Some(i) => Some(&self.entries[i].1),
            None => None,
        }
    }

    /// File `value` under `key`, replacing any earlier entry.
    pub fn insert(&mut self, key: DependencyKey, value: Dependency)
        ensures
            final(self)@ == old(self)@.insert(key@, value@),
    {
        proof {
            use_type_invariant(&*self);
        }
        let ghost s0 = dep_pairs(self.entries@);
        let idx = self.find_index(&key);
        let mut entries: Vec<(DependencyKey, Dependency)> = Vec::new();
        std::mem::swap(&mut entries, &mut self.entries);
        if let Some(i) = idx {
            let _replaced = entries.remove(i);
            proof {
                assert(dep_pairs(entries@) =~= s0.remove(i as int));
                lemma_map_of_remove(s0, i as int);
                assert(forall|j: int|
                    0 <= j < s0.remove(i as int).len() ==> (#[trigger] s0.remove(i as int)[j]).0
                        != key@);
            }
        }
        let ghost s1 = dep_pairs(entries@);
        entries.push((key, value));
        proof {
            assert(dep_pairs(entries@) =~= s1.push((key@, value@)));
            lemma_map_of_push(s1, key@, value@);
            assert(map_of(dep_pairs(entries@)) =~= map_of(s0).insert(key@, value@));
        }
        self.entries = entries;
    }

    /// Merge the dependencies of `other` that the table does not already
    /// file: an entry of `other` is taken only where its key is missing
    /// here, so entries already present always win.
    pub fn merge_missing(&mut self, other: &DependencyMap)
        ensures
            final(self)@ == other@.union_prefer_right(old(self)@),
    {
        proof {
            use_type_invariant(&*other);
        }
        let ghost m0 = self@;
        let ghost po = other.pairs();
        let n = other.len();
        let mut i: usize = 0;
        while i < n
            invariant
                i <= n,
                n == po.len(),
                po == other.pairs(),
                other@ == map_of(po),
                unique_keys(po),
                forall|k: KeyView|
                    (#[trigger] self@.contains_key(k)) <==> m0.contains_key(k) || exists|j: int|
                        0 <= j < i && (#[trigger] po[j]).0 == k,
                forall|k: KeyView|
                    m0.contains_key(k) ==> #[trigger] self@[k] == m0[k],
                forall|k: KeyView|
                    self@.contains_key(k) && !m0.contains_key(k) ==> #[trigger] self@[k]
                        == other@[k],
            decreases n - i,
        {
            let entry = other.entry_at(i);
            let present = self.contains_key(&entry.0);
            if !present {
                let k = entry.0.clone();
                let d = entry.1.clone();
                proof {
                    lemma_map_of_index(po, i as int);
                }
                self.insert(k, d);
            }
            i = i + 1;
        }
        proof {
            assert forall|k: KeyView| #[trigger] other@.contains_key(k) implies exists|j: int|
                0 <= j < po.len() && (#[trigger] po[j]).0 == k by {
                lemma_map_of_contains(po, k);
            }
            assert forall|k: KeyView| (exists|j: int| 0 <= j < po.len() && (#[trigger] po[j]).0
                == k) implies other@.contains_key(k) by {
                lemma_map_of_contains(po, k);
            }
            assert(self@ =~= other@.union_prefer_right(m0));
        }
    }

    /// Fold every entry of `other` into the table, overwriting entries
    /// that share a key: the entries of `other` always win.
    pub fn extend_override(&mut self, other: &DependencyMap)
        ensures
            final(self)@ == old(self)@.union_prefer_right(other@),
    {
        proof {
            use_type_invariant(&*other);
        }
        let ghost m0 = self@;
        let ghost po = other.pairs();
        let n = other.len();
        let mut i: usize = 0;
        while i < n
            invariant
                i <= n,
                n == po.len(),
                po == other.pairs(),
                other@ == map_of(po),
                unique_keys(po),
                forall|k: KeyView|
                    (#[trigger] self@.contains_key(k)) <==> m0.contains_key(k) || exists|j: int|
                        0 <= j < i && (#[trigger] po[j]).0 == k,
                forall|k: KeyView|
                    (exists|j: int| 0 <= j < i && (#[trigger] po[j]).0 == k) ==> #[trigger] self@[k]
                        == other@[k],
                forall|k: KeyView|
                    self@.contains_key(k) && !(exists|j: int| 0 <= j < i && (#[trigger] po[j]).0
                        == k) ==> #[trigger] self@[k] == m0[k],
            decreases n - i,
        {
            let entry = other.entry_at(i);
            let k = entry.0.clone();
            let d = entry.1.clone();
            proof {
                lemma_map_of_index(po, i as int);
            }
            self.insert(k, d);
            i = i + 1;
        }
        proof {
            assert forall|k: KeyView| #[trigger] other@.contains_key(k) implies exists|j: int|
                0 <= j < po.len() && (#[trigger] po[j]).0 == k by {
                lemma_map_of_contains(po, k);
            }
            assert forall|k: KeyView| (exists|j: int| 0 <= j < po.len() && (#[trigger] po[j]).0
                == k) implies other@.contains_key(k) by {
                lemma_map_of_contains(po, k);
            }
            assert(self@ =~= m0.union_prefer_right(other@));
        }
    }

    /// Interpolate the coordinate of every filed dependency against the
    /// property table; keys are untouched.
    pub fn interpolate_versions(&mut self, props: &PropertyMap)
        ensures
            forall|k: KeyView|
                (#[trigger] final(self)@.contains_key(k)) <==> old(self)@.contains_key(k),
            forall|k: KeyView|
                old(self)@.contains_key(k) ==> #[trigger] final(self)@[k] == interp_dep(
                    old(self)@[k],
                    props@,
                ),
    {
        proof {
            use_type_invariant(&*self);
        }
        let ghost m0 = self@;
        let ghost p0 = self.pairs();
        let n = self.len();
        let mut out = DependencyMap::new();
        let mut i: usize = 0;
        while i < n
            invariant
                i <= n,
                n == p0.len(),
                p0 == self.pairs(),
                m0 == self@,
                self@ == map_of(p0),
                unique_keys(p0),
                forall|k: KeyView|
                    (#[trigger] out@.contains_key(k)) <==> exists|j: int|
                        0 <= j < i && (#[trigger] p0[j]).0 == k,
                forall|k: KeyView|
                    out@.contains_key(k) ==> #[trigger] out@[k] == interp_dep(m0[k], props@),
            decreases n - i,
        {
            let entry = self.entry_at(i);
            let k = entry.0.clone();
            let d = entry.1.interpolate_fqn(props);
            proof {
                lemma_map_of_index(p0, i as int);
            }
            out.insert(k, d);
            i = i + 1;
        }
        proof {
            assert forall|k: KeyView| #[trigger] m0.contains_key(k) implies exists|j: int|
                0 <= j < p0.len() && (#[trigger] p0[j]).0 == k by {
                lemma_map_of_contains(p0, k);
            }
            assert forall|k: KeyView| (exists|j: int| 0 <= j < p0.len() && (#[trigger] p0[j]).0
                == k) implies m0.contains_key(k) by {
                lemma_map_of_contains(p0, k);
            }
        }
        *self = out;
    }

    /// The filed dependencies whose scope is `import`, in entry order:
    /// the BOM references of a dependency-management block.  The list
    /// holds exactly the import-scoped values of the table.
    #[verifier::rlimit(50)]
    pub fn imports(&self) -> (r: Vec<Dependency>)
        ensures
            r@.map(|i: int, d: Dependency| d@) == import_list(self.pairs()),
            forall|j: int|
                0 <= j < r@.len() ==> (#[trigger] r@[j])@.scope == Some("import"@)
                    && exists|k: KeyView| #[trigger] self@.contains_key(k) && self@[k] == r@[j]@,
            forall|k: KeyView|
                #[trigger] self@.contains_key(k) && self@[k].scope == Some("import"@)
                    ==> exists|j: int| 0 <= j < r@.len() && (#[trigger] r@[j])@ == self@[k],
    {
        proof {
            use_type_invariant(&*self);
        }
        let ghost p0 = self.pairs();
        let n = self.len();
        let mut out: Vec<Dependency> = Vec::new();
        let mut i: usize = 0;
        while i < n
            invariant
                i <= n,
                n == p0.len(),
                p0 == self.pairs(),
                out@.map(|j: int, d: Dependency| d@) == import_list(p0.take(i as int)),
                forall|j: int|
                    0 <= j < out@.len() ==> (#[trigger] out@[j])@.scope == Some("import"@)
                        && exists|jj: int| 0 <= jj < i && (#[trigger] p0[jj]).1 == out@[j]@,
                forall|jj: int|
                    0 <= jj < i && (#[trigger] p0[jj]).1.scope == Some("import"@)
                        ==> exists|j: int| 0 <= j < out@.len() && (#[trigger] out@[j])@ == p0[jj].1,
            decreases n - i,
        {
            let entry = self.entry_at(i);
            let ghost prev = out@;
            let is_import = match &entry.1.scope {
                Some(s) => crate::text::str_eq(s.as_str(), "import"),
                None => false,
            };
            if is_import {
                out.push(entry.1.clone());
            }
            proof {
                assert(p0.take(i + 1 as int).drop_last() =~= p0.take(i as int));
                assert(p0.take(i + 1 as int).last() == p0[i as int]);
                assert(is_import == (p0[i as int].1.scope == Some("import"@)));
                if is_import {
                    assert(out@ =~= prev.push(out@.last()));
                    assert(out@.last()@ == p0[i as int].1);
                    assert(out@.map(|j: int, d: Dependency| d@) =~= prev.map(
                        |j: int, d: Dependency| d@,
                    ).push(p0[i as int].1));
                    assert forall|jj: int|
                        0 <= jj < i + 1 && (#[trigger] p0[jj]).1.scope == Some("import"@) implies exists|j: int|
                        0 <= j < out@.len() && (#[trigger] out@[j])@ == p0[jj].1 by {
                        if jj == i {
                            assert(out@[out@.len() - 1]@ == p0[jj].1);
                        } else {
                            let j0 = choose|j0: int|
                                0 <= j0 < prev.len() && (#[trigger] prev[j0])@ == p0[jj].1;
                            assert(out@[j0]@ == p0[jj].1);
                        }
                    }
                } else {
                    assert(out@.map(|j: int, d: Dependency| d@) =~= prev.map(
                        |j: int, d: Dependency| d@,
                    ));
                }
            }
            i = i + 1;
        }
        proof {
            assert(p0.take(n as int) =~= p0);
            assert forall|j: int| 0 <= j < out@.len() implies (#[trigger] out@[j])@.scope == Some(
                "import"@,
            ) && exists|k: KeyView| #[trigger] self@.contains_key(k) && self@[k] == out@[j]@ by {
                let jj = choose|jj: int| 0 <= jj < n && (#[trigger] p0[jj]).1 == out@[j]@;
                lemma_map_of_index(p0, jj);
                assert(self@.contains_key(p0[jj].0) && self@[p0[jj].0] == out@[j]@);
            }
            assert forall|k: KeyView| #[trigger] self@.contains_key(k) && self@[k].scope == Some(
                "import"@,
            ) implies exists|j: int| 0 <= j < out@.len() && (#[trigger] out@[j])@ == self@[k] by {
                lemma_map_of_contains(p0, k);
                let jj = choose|jj: int| 0 <= jj < p0.len() && (#[trigger] p0[jj]).0 == k;
                lemma_map_of_index(p0, jj);
                assert(p0[jj].1.scope == Some("import"@));
            }
        }
        out
    }
}

impl Clone for DependencyMap {
    /// A copy with the same entries.
    fn clone(&self) -> (r: Self)
        ensures
            r@ == self@,
            r.pairs() == self.pairs(),
    {
        proof {
            use_type_invariant(&*self);
        }
        let n = self.entries.len();
        let mut entries: Vec<(DependencyKey, Dependency)> = Vec::new();
        let mut i: usize = 0;
        while i < n
            invariant
                i <= n,
                n == self.entries@.len(),
                entries@.len() == i,
                forall|j: int| 0 <= j < i ==> (#[trigger] entries@[j]) == self.entries@[j],
            decreases n - i,
        {
            let k = self.entries[i].0.clone();
            let v = self.entries[i].1.clone();
            entries.push((k, v));
            i = i + 1;
        }
        proof {
            assert(entries@ =~= self.entries@);
        }
        DependencyMap { entries }
    }
}

/// Normalize every dependency against `parent_fqn` and refile it under
/// its (possibly changed) key; where two entries collapse onto one key,
/// the later entry wins.
pub fn normalize_gavs(
    dependencies: DependencyMap,
    parent_fqn: &ArtifactFqn,
    default_packaging: &str,
) -> (r: DependencyMap)
    ensures
        r@ == norm_fold(dependencies.pairs(), parent_fqn@, default_packaging@),
        normalized_from(r@, dependencies@, parent_fqn@, default_packaging@),
{
    let ghost p0 = dependencies.pairs();
    let ghost pf = parent_fqn@;
    let ghost dpv = default_packaging@;
    let n = dependencies.len();
    let mut out = DependencyMap::new();
    let mut i: usize = 0;
    while i < n
        invariant
            i <= n,
            n == p0.len(),
            p0 == dependencies.pairs(),
            pf == parent_fqn@,
            dpv == default_packaging@,
            out@ == norm_fold(p0.take(i as int), pf, dpv),
            forall|k: KeyView| #[trigger]
                out@.contains_key(k) ==> exists|j: int|
                    0 <= j < i && k == key_of(norm_dep((#[trigger] p0[j]).1, pf, dpv)) && out@[k]
                        == norm_dep(p0[j].1, pf, dpv),
            forall|j: int|
                0 <= j < i ==> out@.contains_key(key_of(norm_dep((#[trigger] p0[j]).1, pf, dpv))),
        decreases n - i,
    {
        let entry = dependencies.entry_at(i);
        let d = entry.1.clone().normalize(parent_fqn, default_packaging);
        let k = d.get_key();
        out.insert(k, d);
        proof {
            assert(p0.take(i + 1 as int).drop_last() =~= p0.take(i as int));
            assert(p0.take(i + 1 as int).last() == p0[i as int]);
        }
        i = i + 1;
    }
    proof {
        use_type_invariant(&dependencies);
        assert(p0.take(n as int) =~= p0);
        assert forall|k: KeyView| #[trigger] out@.contains_key(k) implies exists|k0: KeyView|
            #[trigger] dependencies@.contains_key(k0) && k == key_of(norm_dep(dependencies@[k0], pf, dpv))
                && out@[k] == norm_dep(dependencies@[k0], pf, dpv) by {
            let j = choose|j: int|
                0 <= j < n && k == key_of(norm_dep((#[trigger] p0[j]).1, pf, dpv)) && out@[k]
                    == norm_dep(p0[j].1, pf, dpv);
            lemma_map_of_index(p0, j);
            assert(dependencies@.contains_key(p0[j].0) && dependencies@[p0[j].0] == p0[j].1);
        }
        assert forall|k0: KeyView| #[trigger] dependencies@.contains_key(k0) implies out@.contains_key(
            key_of(norm_dep(dependencies@[k0], pf, dpv)),
        ) by {
            lemma_map_of_contains(p0, k0);
            let j = choose|j: int| 0 <= j < p0.len() && (#[trigger] p0[j]).0 == k0;
            lemma_map_of_index(p0, j);
            assert(out@.contains_key(key_of(norm_dep(p0[j].1, pf, dpv))));
        }
    }
    out
}

/// In a child-wins merge, a key the child declares keeps the child's
/// entry — the parent's entry for that key never shows through — and a
/// key only the parent declares is inherited unchanged.
pub proof fn lemma_child_precedence(
    child: Map<KeyView, DepView>,
    parent: Map<KeyView, DepView>,
    k: KeyView,
)
    ensures
        child.contains_key(k) ==> parent.union_prefer_right(child)[k] == child[k],
        !child.contains_key(k) && parent.contains_key(k) ==> parent.union_prefer_right(child)[k]
            == parent[k],
        parent.union_prefer_right(child).contains_key(k) <==> child.contains_key(k)
            || parent.contains_key(k),
{
}

} // verus!
