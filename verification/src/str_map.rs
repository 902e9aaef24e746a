//! A string-keyed association map with pairwise-distinct keys, viewed as a
//! mathematical map from character sequences to the values' views.  It backs
//! both the profile map of a credentials parse and the section maps of a
//! config parse.

use vstd::prelude::*;
use crate::line::str_eq;

verus! {

broadcast use vstd::set::group_set_axioms, vstd::map::group_map_axioms;

/// Whether the entries carry pairwise-distinct keys.
pub open spec fn keys_distinct<V: View>(s: Seq<(String, V)>) -> bool {
    forall|i: int, j: int| 0 <= i < j < s.len() ==> s[i].0@ != s[j].0@
}

/// The mapping an entry sequence stands for, later entries overriding
/// earlier ones with the same name.
pub open spec fn entries_map<V: View>(s: Seq<(String, V)>) -> Map<Seq<char>, V::V>
    decreases s.len(),
{
    if s.len() == 0 {
        Map::empty()
    } else {
        entries_map(s.drop_last()).insert(s.last().0@, s.last().1@)
    }
}

proof fn lemma_entries_map_dom<V: View>(s: Seq<(String, V)>)
    ensures
        forall|k: Seq<char>|
            #[trigger] entries_map(s).dom().contains(k) <==> (exists|i: int|
                0 <= i < s.len() && s[i].0@ == k),
    decreases s.len(),
{
    if s.len() > 0 {
        lemma_entries_map_dom(s.drop_last());
        assert forall|k: Seq<char>| #[trigger]
            entries_map(s).dom().contains(k) implies (exists|i: int|
            0 <= i < s.len() && s[i].0@ == k) by {
            if k == s.last().0@ {
                assert(s[s.len() - 1].0@ == k);
            } else {
                assert(entries_map(s.drop_last()).dom().contains(k));
                let i = choose|i: int| 0 <= i < s.drop_last().len() && s.drop_last()[i].0@ == k;
                assert(s.drop_last()[i] == s[i]);
                assert(s[i].0@ == k);
            }
        }
        assert forall|k: Seq<char>| (exists|i: int|
            0 <= i < s.len() && s[i].0@ == k) implies #[trigger]
            entries_map(s).dom().contains(k) by {
            let i = choose|i: int| 0 <= i < s.len() && s[i].0@ == k;
            if i < s.len() - 1 {
                assert(s.drop_last()[i] == s[i]);
                assert(s.drop_last()[i].0@ == k);
                assert(entries_map(s.drop_last()).dom().contains(k));
            }
        }
    }
}

proof fn lemma_entries_map_get<V: View>(s: Seq<(String, V)>, i: int)
    requires
        keys_distinct(s),
        0 <= i < s.len(),
    ensures
        entries_map(s).dom().contains(s[i].0@),
        entries_map(s)[s[i].0@] == s[i].1@,
    decreases s.len(),
{
    if i == s.len() - 1 {
    } else {
        assert(keys_distinct(s.drop_last()));
        lemma_entries_map_get(s.drop_last(), i);
        assert(s.drop_last()[i] == s[i]);
        assert(s[i].0@ != s.last().0@);
    }
}

proof fn lemma_entries_map_len<V: View>(s: Seq<(String, V)>)
    requires
        keys_distinct(s),
    ensures
        entries_map(s).dom().finite(),
        entries_map(s).len() == s.len(),
    decreases s.len(),
{
    if s.len() > 0 {
        assert(keys_distinct(s.drop_last()));
        lemma_entries_map_len(s.drop_last());
        lemma_entries_map_dom(s.drop_last());
        assert(!entries_map(s.drop_last()).dom().contains(s.last().0@));
    }
}

proof fn lemma_entries_map_remove<V: View>(s: Seq<(String, V)>, i: int)
    requires
        keys_distinct(s),
        0 <= i < s.len(),
    ensures
        entries_map(s.remove(i)) == entries_map(s).remove(s[i].0@),
    decreases s.len(),
{
    lemma_entries_map_dom(s.drop_last());
    if i == s.len() - 1 {
        assert(s.remove(i) =~= s.drop_last());
        assert(!entries_map(s.drop_last()).dom().contains(s.last().0@));
        assert(entries_map(s.drop_last()) =~= entries_map(s).remove(s[i].0@));
    } else {
        assert(keys_distinct(s.drop_last()));
        lemma_entries_map_remove(s.drop_last(), i);
        assert(s.remove(i).drop_last() =~= s.drop_last().remove(i));
        assert(s.remove(i).last() == s.last());
        assert(s.drop_last()[i] == s[i]);
        assert(s[i].0@ != s.last().0@);
        assert(entries_map(s.remove(i)) == entries_map(s.drop_last().remove(i)).insert(
            s.last().0@,
            s.last().1@,
        ));
        assert(entries_map(s.drop_last()).remove(s[i].0@).insert(s.last().0@, s.last().1@)
            =~= entries_map(s.drop_last()).insert(s.last().0@, s.last().1@).remove(s[i].0@));
    }
}

/// A map from string keys to values, keyed case-sensitively, with no key
/// held twice.
pub struct StrKeyMap<V: View> {
    entries: Vec<(String, V)>,
}

impl<V: View> View for StrKeyMap<V> {
    type V = Map<Seq<char>, V::V>;

    closed spec fn view(&self) -> Map<Seq<char>, V::V> {
        entries_map(self.entries@)
    }
}

impl<V: View> StrKeyMap<V> {
    /// The representation invariant: no key occurs twice.
    #[verifier::type_invariant]
    closed spec fn wf(&self) -> bool {
        keys_distinct(self.entries@)
    }

    /// An empty map.
    pub fn new() -> (r: StrKeyMap<V>)
        ensures
            r@ == Map::<Seq<char>, V::V>::empty(),
            r@.len() == 0,
    {
        StrKeyMap { entries: Vec::new() }
    }

    /// The number of entries held.
    pub fn len(&self) -> (r: usize)
        ensures
            r == self@.len(),
            self@.dom().finite(),
    {
        proof {
            use_type_invariant(self);
            lemma_entries_map_len(self.entries@);
        }
        self.entries.len()
    }

    /// Whether the map holds no entry at all.
    pub fn is_empty(&self) -> (r: bool)
        ensures
            r == (self@.len() == 0),
            self@.dom().finite(),
    {
        proof {
            use_type_invariant(self);
            lemma_entries_map_len(self.entries@);
        }
        self.entries.len() == 0
    }

    /// Looks a value up by its key.
    pub fn get(&self, name: &str) -> (r: Option<&V>)
        ensures
            match r {
                Some(c) => self@.dom().contains(name@) && c@ == self@[name@],
                None => !self@.dom().contains(name@),
            },
    {
        proof {
            use_type_invariant(self);
        }
        let n = self.entries.len();
        let mut i: usize = 0;
        while i < n
            invariant
                0 <= i <= n,
                n == self.entries@.len(),
                keys_distinct(self.entries@),
                self@ == entries_map(self.entries@),
                forall|j: int| 0 <= j < i ==> self.entries@[j].0@ != name@,
            decreases n - i,
        {
            let e = &self.entries[i];
            if str_eq(e.0.as_str(), name) {
                proof {
                    lemma_entries_map_get(self.entries@, i as int);
                }
                return Some(&e.1);
            }
            i = i + 1;
        }
        proof {
            lemma_entries_map_dom(self.entries@);
        }
        None
    }

    /// Puts a value under a key, replacing any value already held under
    /// that key.
    pub fn insert(self, name: String, record: V) -> (r: StrKeyMap<V>)
        ensures
            r@ == self@.insert(name@, record@),
    {
        proof {
            use_type_invariant(&self);
        }
        let ghost s0 = self.entries@;
        let StrKeyMap { mut entries } = self;
        proof {
            assert(entries@ == s0);
            assert(self@ == entries_map(s0));
        }
        let n = entries.len();
        let mut i: usize = 0;
        while i < n
            invariant
                0 <= i <= n,
                n == entries@.len(),
                entries@ == s0,
                self@ == entries_map(s0),
                keys_distinct(s0),
                forall|j: int| 0 <= j < i ==> s0[j].0@ != name@,
            decreases n - i,
        {
            let hit = {
                let e = &entries[i];
                str_eq(e.0.as_str(), name.as_str())
            };
            if hit {
                proof {
                    lemma_entries_map_remove(s0, i as int);
                    assert forall|a: int, b: int|
                        0 <= a < b < s0.remove(i as int).len() implies s0.remove(i as int)[a].0@
                        != s0.remove(i as int)[b].0@ by {
                        let a0 = if a < i { a } else { a + 1 };
                        let b0 = if b < i { b } else { b + 1 };
                        assert(s0.remove(i as int)[a] == s0[a0]);
                        assert(s0.remove(i as int)[b] == s0[b0]);
                    }
                    assert forall|j: int| 0 <= j < s0.remove(i as int).len() implies s0.remove(
                        i as int,
                    )[j].0@ != name@ by {
                        let j0 = if j < i { j } else { j + 1 };
                        assert(s0.remove(i as int)[j] == s0[j0]);
                        assert(s0[j0].0@ != name@);
                    }
                }
                proof {
                    assert(s0[i as int].0@ == name@);
                }
                entries.remove(i);
                entries.push((name, record));
                proof {
                    let s1 = s0.remove(i as int);
                    assert(entries@.drop_last() =~= s1);
                    assert(entries@.last() == (name, record));
                    assert(entries_map(entries@) == entries_map(s1).insert(name@, record@));
                    assert(entries_map(s1) == entries_map(s0).remove(name@));
                    assert(entries_map(s0).remove(name@).insert(name@, record@) =~= entries_map(
                        s0,
                    ).insert(name@, record@));
                    assert(entries_map(entries@) == entries_map(s0).insert(name@, record@));
                    assert forall|a: int, b: int| 0 <= a < b < entries@.len() implies entries@[a].0@
                        != entries@[b].0@ by {
                        if b < entries@.len() - 1 {
                            assert(entries@[a] == s1[a]);
                            assert(entries@[b] == s1[b]);
                        } else {
                            assert(entries@[a] == s1[a]);
                            assert(s1[a].0@ != name@);
                        }
                    }
                }
                return StrKeyMap { entries };
            }
            i = i + 1;
        }
        entries.push((name, record));
        proof {
            assert(entries@.drop_last() =~= s0);
            assert forall|a: int, b: int| 0 <= a < b < entries@.len() implies entries@[a].0@
                != entries@[b].0@ by {
                if b == entries@.len() - 1 {
                    assert(entries@[a] == s0[a]);
                } else {
                    assert(entries@[a] == s0[a]);
                    assert(entries@[b] == s0[b]);
                }
            }
        }
        StrKeyMap { entries }
    }

    /// Hands the entries out as a vector: one pair per key, keys pairwise
    /// distinct, each pair present in the map's view.
    pub fn into_entries(self) -> (r: Vec<(String, V)>)
        ensures
            keys_distinct(r@),
            r@.len() == self@.len(),
            forall|i: int|
                0 <= i < r@.len() ==> #[trigger] self@.dom().contains(r@[i].0@) && self@[r@[i].0@]
                    == r@[i].1@,
    {
        proof {
            use_type_invariant(&self);
            lemma_entries_map_len(self.entries@);
            assert forall|i: int| 0 <= i < self.entries@.len() implies #[trigger]
                entries_map(self.entries@).dom().contains(self.entries@[i].0@) && entries_map(
                self.entries@,
            )[self.entries@[i].0@] == self.entries@[i].1@ by {
                lemma_entries_map_get(self.entries@, i);
            }
        }
        self.entries
    }
}

} // verus!
