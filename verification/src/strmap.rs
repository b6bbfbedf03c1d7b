//! A string-keyed association map with verified map semantics.
//!
//! The variable pool, request/response scratch data and form fields are
//! all flat name-to-value tables with last-write-wins updates.  They are
//! kept as vectors of pairs whose keys are pairwise distinct, and are
//! specified against `Map<Seq<char>, _>`.

use vstd::prelude::*;

verus! {

#[derive(Debug, Clone)]
pub struct AssocMap<V> {
    entries: Vec<(String, V)>,
}

/// The map described by a sequence of entries; later entries win.
pub open spec fn map_of<V: View>(s: Seq<(String, V)>) -> Map<Seq<char>, V::V>
    decreases s.len(),
{
    if s.len() == 0 {
        Map::empty()
    } else {
        map_of(s.drop_last()).insert(s.last().0@, s.last().1@)
    }
}

/// Keys are pairwise distinct.
pub open spec fn unique_keys<V>(s: Seq<(String, V)>) -> bool {
    forall|i: int, j: int| 0 <= i < j < s.len() ==> (#[trigger] s[i]).0@ != (#[trigger] s[j]).0@
}

pub proof fn lemma_map_of_key<V: View>(s: Seq<(String, V)>, k: Seq<char>)
    ensures
        map_of(s).contains_key(k) == exists|i: int| 0 <= i < s.len() && (#[trigger] s[i]).0@ == k,
    decreases s.len(),
{
    if s.len() > 0 {
        lemma_map_of_key(s.drop_last(), k);
        if map_of(s).contains_key(k) {
            if s.last().0@ != k {
                let i = choose|i: int| 0 <= i < s.len() - 1 && (#[trigger] s.drop_last()[i]).0@
                    == k;
                assert(s[i].0@ == k);
            }
        }
        if exists|i: int| 0 <= i < s.len() && (#[trigger] s[i]).0@ == k {
            let i = choose|i: int| 0 <= i < s.len() && (#[trigger] s[i]).0@ == k;
            if i < s.len() - 1 {
                assert(s.drop_last()[i].0@ == k);
            }
        }
    }
}

pub proof fn lemma_map_of_get<V: View>(s: Seq<(String, V)>, i: int)
    requires
        unique_keys(s),
        0 <= i < s.len(),
    ensures
        map_of(s).contains_key(s[i].0@),
        map_of(s)[s[i].0@] == s[i].1@,
    decreases s.len(),
{
    if i == s.len() - 1 {
    } else {
        assert(unique_keys(s.drop_last()));
        assert(s.drop_last()[i] == s[i]);
        lemma_map_of_get(s.drop_last(), i);
        assert(s[i].0@ != s.last().0@);
    }
}

pub proof fn lemma_map_of_remove<V: View>(s: Seq<(String, V)>, idx: int)
    requires
        unique_keys(s),
        0 <= idx < s.len(),
    ensures
        map_of(s.remove(idx)) =~= map_of(s).remove(s[idx].0@),
    decreases s.len(),
{
    if idx == s.len() - 1 {
        assert(s.remove(idx) =~= s.drop_last());
        lemma_map_of_key(s.drop_last(), s[idx].0@);
        assert(forall|i: int|
            0 <= i < s.drop_last().len() ==> (#[trigger] s.drop_last()[i]).0@ != s[idx].0@);
        assert(!map_of(s.drop_last()).contains_key(s[idx].0@));
        assert(map_of(s.drop_last()) =~= map_of(s.drop_last()).insert(
            s.last().0@,
            s.last().1@,
        ).remove(s[idx].0@));
    } else {
        assert(unique_keys(s.drop_last()));
        lemma_map_of_remove(s.drop_last(), idx);
        assert(s.remove(idx).drop_last() =~= s.drop_last().remove(idx));
        assert(s.remove(idx).last() == s.last());
        assert(map_of(s.remove(idx)) == map_of(s.drop_last().remove(idx)).insert(
            s.last().0@,
            s.last().1@,
        ));
        assert(s[idx].0@ != s.last().0@);
        assert(map_of(s.drop_last()).remove(s[idx].0@).insert(s.last().0@, s.last().1@)
            =~= map_of(s.drop_last()).insert(s.last().0@, s.last().1@).remove(s[idx].0@));
    }
}

pub proof fn lemma_map_of_len<V: View>(s: Seq<(String, V)>)
    requires
        unique_keys(s),
    ensures
        map_of(s).dom().finite(),
        map_of(s).dom().len() == s.len(),
    decreases s.len(),
{
    if s.len() == 0 {
        assert(map_of(s).dom() =~= Set::<Seq<char>>::empty());
    } else {
        assert(unique_keys(s.drop_last()));
        lemma_map_of_len(s.drop_last());
        lemma_map_of_key(s.drop_last(), s.last().0@);
        assert(forall|i: int|
            0 <= i < s.drop_last().len() ==> (#[trigger] s.drop_last()[i]).0@ != s.last().0@);
        assert(!map_of(s.drop_last()).contains_key(s.last().0@));
        assert(map_of(s).dom() =~= map_of(s.drop_last()).dom().insert(s.last().0@));
        vstd::set::axiom_set_insert_finite(map_of(s.drop_last()).dom(), s.last().0@);
        vstd::set::axiom_set_insert_len(map_of(s.drop_last()).dom(), s.last().0@);
    }
}

impl<V: View> View for AssocMap<V> {
    type V = Map<Seq<char>, V::V>;

    closed spec fn view(&self) -> Map<Seq<char>, V::V> {
        map_of(self.entries@)
    }
}

impl<V: View> AssocMap<V> {
    /// The entries in insertion order.
    pub closed spec fn seq(&self) -> Seq<(String, V)> {
        self.entries@
    }

    /// Keys are pairwise distinct.
    pub open spec fn wf(&self) -> bool {
        unique_keys(self.seq())
    }

    pub open spec fn spec_len(&self) -> nat {
        self.seq().len()
    }

    /// Each stored entry is present in the map view under its own key.
    pub proof fn lemma_entry_in_view(&self, i: int)
        requires
            self.wf(),
            0 <= i < self.seq().len(),
        ensures
            self@.contains_key(self.seq()[i].0@),
            self@[self.seq()[i].0@] == self.seq()[i].1@,
    {
        lemma_map_of_get(self.entries@, i);
    }

    /// Every key in the map view is the key of some stored entry.
    pub proof fn lemma_view_key(&self, k: Seq<char>)
        ensures
            self@.contains_key(k) == exists|i: int|
                0 <= i < self.seq().len() && (#[trigger] self.seq()[i]).0@ == k,
    {
        lemma_map_of_key(self.entries@, k);
        if self@.contains_key(k) {
            let i = choose|i: int|
                0 <= i < self.entries@.len() && (#[trigger] self.entries@[i]).0@ == k;
            assert((#[trigger] self.seq()[i]).0@ == k);
        }
        if exists|i: int| 0 <= i < self.seq().len() && (#[trigger] self.seq()[i]).0@ == k {
            let i = choose|i: int|
                0 <= i < self.seq().len() && (#[trigger] self.seq()[i]).0@ == k;
            assert((#[trigger] self.entries@[i]).0@ == k);
        }
    }

    pub fn new() -> (r: Self)
        ensures
            r.wf(),
            r@ =~= Map::<Seq<char>, V::V>::empty(),
            r.seq() == Seq::<(String, V)>::empty(),
    {
        let r = AssocMap { entries: Vec::new() };
        assert(r.entries@ =~= Seq::<(String, V)>::empty());
        r
    }

    fn position(&self, name: &str) -> (r: Option<usize>)
        ensures
            match r {
                Some(i) => i < self.seq().len() && self.seq()[i as int].0@ == name@,
                None => forall|i: int|
                    0 <= i < self.seq().len() ==> (#[trigger] self.seq()[i]).0@ != name@,
            },
    {
        let n = self.entries.len();
        let mut i: usize = 0;
        while i < n
            invariant
                n == self.entries@.len(),
                0 <= i <= n,
                forall|j: int| 0 <= j < i ==> (#[trigger] self.entries@[j]).0@ != name@,
            decreases n - i,
        {
            if crate::text::str_eq(self.entries[i].0.as_str(), name) {
                return Some(i);
            }
            i += 1;
        }
        None
    }

    /// Look a value up by name.
    pub fn get(&self, name: &str) -> (r: Option<&V>)
        requires
            self.wf(),
        ensures
            match r {
                Some(v) => self@.contains_key(name@) && v@ == self@[name@],
                None => !self@.contains_key(name@),
            },
    {
        proof {
            self.lemma_view_key(name@);
        }
        match self.position(name) {
            Some(i) => {
                proof {
                    self.lemma_entry_in_view(i as int);
                }
                Some(&self.entries[i].1)
            },
            None => None,
        }
    }

    /// Whether a name is present.
    pub fn contains_key(&self, name: &str) -> (r: bool)
        requires
            self.wf(),
        ensures
            r == self@.contains_key(name@),
    {
        self.get(name).is_some()
    }

    /// Bind a name to a value; an earlier binding of the same name is
    /// replaced.
    pub fn insert(&mut self, name: String, value: V)
        requires
            old(self).wf(),
        ensures
            final(self).wf(),
            final(self)@ =~= old(self)@.insert(name@, value@),
    {
        match self.position(name.as_str()) {
            Some(i) => {
                proof {
                    lemma_map_of_remove(self.entries@, i as int);
                }
                let ghost pre = self.entries@;
                let _ = self.entries.remove(i);
                assert(unique_keys(self.entries@)) by {
                    assert(forall|a: int, b: int|
                        0 <= a < b < self.entries@.len() ==> (#[trigger] self.entries@[a]).0@ != (
                        #[trigger] self.entries@[b]).0@) by {
                        assert(forall|a: int|
                            0 <= a < self.entries@.len() ==> #[trigger] self.entries@[a] == (if a
                                < i {
                                pre[a]
                            } else {
                                pre[a + 1]
                            }));
                    }
                }
                self.entries.push((name, value));
                proof {
                    assert(self.entries@.drop_last() =~= pre.remove(i as int));
                    assert(self@ =~= old(self)@.insert(name@, value@));
                    assert(forall|a: int|
                        0 <= a < self.entries@.len() - 1 ==> (#[trigger] self.entries@[a]).0@
                            != name@) by {
                        assert(forall|a: int|
                            0 <= a < self.entries@.len() - 1 ==> self.entries@[a]
                                == self.entries@.drop_last()[a]);
                        assert(forall|a: int|
                            0 <= a < pre.remove(i as int).len() ==> (#[trigger] pre.remove(
                                i as int,
                            )[a]) == (if a < i {
                                pre[a]
                            } else {
                                pre[a + 1]
                            }));
                    }
                }
            },
            None => {
                self.entries.push((name, value));
                proof {
                    assert(self.entries@.drop_last() =~= old(self).entries@);
                    assert(forall|a: int|
                        0 <= a < self.entries@.len() - 1 ==> (#[trigger] self.entries@[a]).0@
                            != name@) by {
                        assert(forall|a: int|
                            0 <= a < self.entries@.len() - 1 ==> self.entries@[a] == old(
                                self,
                            ).entries@[a]);
                    }
                }
            },
        }
    }

    /// Remove a binding, returning its value when it was present.
    pub fn remove(&mut self, name: &str) -> (r: Option<V>)
        requires
            old(self).wf(),
        ensures
            final(self).wf(),
            final(self)@ =~= old(self)@.remove(name@),
            r is Some <==> old(self)@.contains_key(name@),
            r is Some ==> r->0@ == old(self)@[name@],
    {
        proof {
            self.lemma_view_key(name@);
        }
        match self.position(name) {
            Some(i) => {
                proof {
                    self.lemma_entry_in_view(i as int);
                    lemma_map_of_remove(self.entries@, i as int);
                }
                let ghost pre = self.entries@;
                let v = self.entries.remove(i);
                proof {
                    assert(forall|a: int|
                        0 <= a < self.entries@.len() ==> #[trigger] self.entries@[a] == (if a < i {
                            pre[a]
                        } else {
                            pre[a + 1]
                        }));
                }
                Some(v.1)
            },
            None => {
                proof {
                    assert(self@ =~= old(self)@.remove(name@));
                }
                None
            },
        }
    }

    /// Number of bindings.
    pub fn len(&self) -> (r: usize)
        requires
            self.wf(),
        ensures
            r == self@.dom().len(),
            r == self.spec_len(),
    {
        proof {
            lemma_map_of_len(self.entries@);
        }
        self.entries.len()
    }

    /// The underlying entries, in insertion order.
    pub fn entries(&self) -> (r: &Vec<(String, V)>)
        ensures
            r@ == self.seq(),
    {
        &self.entries
    }
}

} // verus!
