use vstd::prelude::*;
use vstd::string::*;

verus! {

/// Compares two string slices by their character sequences.
pub fn str_eq(a: &str, b: &str) -> (r: bool)
    ensures
        r == (a@ == b@),
{
    let sa: String = a.to_owned();
    let sb: String = b.to_owned();
    sa.eq(&sb)
}

/// First-match lookup in an association sequence of (key, value) pairs.
pub open spec fn assoc_lookup<T>(s: Seq<(Seq<char>, T)>, key: Seq<char>) -> Option<T>
    decreases s.len(),
{
    if s.len() == 0 {
        None
    } else if s[0].0 == key {
        Some(s[0].1)
    } else {
        assoc_lookup(s.drop_first(), key)
    }
}

/// Whether `key` is bound in the association sequence.
pub open spec fn assoc_has<T>(s: Seq<(Seq<char>, T)>, key: Seq<char>) -> bool {
    assoc_lookup(s, key) is Some
}

/// All keys of the association sequence are distinct.
pub open spec fn assoc_distinct<T>(s: Seq<(Seq<char>, T)>) -> bool {
    forall|i: int, j: int|
        0 <= i < j < s.len() ==> (#[trigger] s[i]).0 != (#[trigger] s[j]).0
}

/// Appending an entry only binds its key where that key was free before.
pub proof fn lemma_assoc_lookup_push<T>(s: Seq<(Seq<char>, T)>, e: (Seq<char>, T), q: Seq<char>)
    ensures
        assoc_lookup(s.push(e), q) == (if assoc_lookup(s, q) is Some {
            assoc_lookup(s, q)
        } else if e.0 == q {
            Some(e.1)
        } else {
            None::<T>
        }),
    decreases s.len(),
{
    if s.len() == 0 {
        assert(s.push(e)[0] == e);
        assert(s.push(e).drop_first() =~= Seq::<(Seq<char>, T)>::empty());
    } else {
        assert(s.push(e)[0] == s[0]);
        assert(s.push(e).drop_first() =~= s.drop_first().push(e));
        lemma_assoc_lookup_push(s.drop_first(), e, q);
    }
}

/// A key is bound exactly when some entry carries it.
pub proof fn lemma_assoc_lookup_index<T>(s: Seq<(Seq<char>, T)>, q: Seq<char>)
    ensures
        assoc_has(s, q) <==> exists|i: int| 0 <= i < s.len() && (#[trigger] s[i]).0 == q,
    decreases s.len(),
{
    if s.len() > 0 {
        lemma_assoc_lookup_index(s.drop_first(), q);
        if s[0].0 == q {
        } else if assoc_has(s.drop_first(), q) {
            let i = choose|i: int| 0 <= i < s.drop_first().len() && (#[trigger] s.drop_first()[i]).0 == q;
            assert(s[i + 1].0 == q);
        } else {
            assert forall|i: int| 0 <= i < s.len() implies (#[trigger] s[i]).0 != q by {
                if i > 0 {
                    assert(s.drop_first()[i - 1] == s[i]);
                }
            }
        }
    }
}

/// Removing the entry at index `i` unbinds its key (under distinctness)
/// and leaves every other key bound as before.
pub proof fn lemma_assoc_lookup_remove<T>(s: Seq<(Seq<char>, T)>, i: int, q: Seq<char>)
    requires
        assoc_distinct(s),
        0 <= i < s.len(),
    ensures
        assoc_lookup(s.remove(i), q) == (if q == s[i].0 {
            None::<T>
        } else {
            assoc_lookup(s, q)
        }),
    decreases s.len(),
{
    if i == 0 {
        assert(s.remove(0) =~= s.drop_first());
        if q == s[0].0 {
            lemma_assoc_lookup_index(s.drop_first(), q);
            if assoc_has(s.drop_first(), q) {
                let j: int = choose|j: int|
                    0 <= j < s.drop_first().len() && (#[trigger] s.drop_first()[j]).0 == q;
                assert(s[j + 1].0 == q);
                assert(s[0].0 == s[j + 1].0);
            }
        }
    } else {
        assert(s.remove(i)[0] == s[0]);
        assert(s.remove(i).drop_first() =~= s.drop_first().remove(i - 1));
        assert(assoc_distinct(s.drop_first())) by {
            assert forall|a: int, b: int|
                0 <= a < b < s.drop_first().len() implies (#[trigger] s.drop_first()[a]).0
                != (#[trigger] s.drop_first()[b]).0 by {
                assert(s.drop_first()[a] == s[a + 1]);
                assert(s.drop_first()[b] == s[b + 1]);
            }
        }
        assert(s.drop_first()[i - 1] == s[i]);
        lemma_assoc_lookup_remove(s.drop_first(), i - 1, q);
        if s[0].0 == q {
            assert(q != s[i].0);
        }
    }
}

/// An association map from strings to values, keys unique.
pub struct AssocVec<V> {
    pub entries: Vec<(String, V)>,
}

impl<V: View> AssocVec<V> {
    /// The entries as a sequence of (key, value) views.
    pub open spec fn kv(self) -> Seq<(Seq<char>, V::V)> {
        self.entries@.map_values(|p: (String, V)| (p.0@, p.1@))
    }

    /// Well-formed: no key occurs twice.
    pub open spec fn wf(self) -> bool {
        assoc_distinct(self.kv())
    }

    /// What `key` is bound to, if anything.
    pub open spec fn spec_get(self, key: Seq<char>) -> Option<V::V> {
        assoc_lookup(self.kv(), key)
    }

    /// An empty map.
    pub fn new() -> (r: Self)
        ensures
            r.wf(),
            r.kv() =~= Seq::<(Seq<char>, V::V)>::empty(),
    {
        AssocVec { entries: Vec::new() }
    }

    /// Number of entries.
    pub fn len(&self) -> (r: usize)
        ensures
            r == self.kv().len(),
    {
        self.entries.len()
    }

    /// Whether the map holds no entry.
    pub fn is_empty(&self) -> (r: bool)
        ensures
            r == (self.kv().len() == 0),
    {
        self.entries.len() == 0
    }

    /// Index of the entry bound to `key`, if any.
    fn find_index(&self, key: &str) -> (r: Option<usize>)
        ensures
            match r {
                Some(i) => i < self.kv().len() && self.kv()[i as int].0 == key@
                    && self.spec_get(key@) == Some(self.kv()[i as int].1),
                None => self.spec_get(key@) is None,
            },
    {
        let ghost s = self.kv();
        proof {
            assert(s.skip(0) =~= s);
        }
        let n: usize = self.entries.len();
        let mut i: usize = 0;
        while i < n
            invariant
                n == s.len(),
                0 <= i <= n,
                s == self.kv(),
                assoc_lookup(s, key@) == assoc_lookup(s.skip(i as int), key@),
            decreases n - i,
        {
            let hit = str_eq(self.entries[i].0.as_str(), key);
            proof {
                assert(s.skip(i as int)[0] == s[i as int]);
            }
            if hit {
                proof {
                    assert(assoc_lookup(s.skip(i as int), key@) == Some(s[i as int].1));
                }
                return Some(i);
            }
            proof {
                assert(s.skip(i as int).drop_first() =~= s.skip(i as int + 1));
            }
            i = i + 1;
        }
        proof {
            assert(s.skip(n as int) =~= Seq::<(Seq<char>, V::V)>::empty());
        }
        None
    }

    /// Whether `key` is bound.
    pub fn contains_key(&self, key: &str) -> (r: bool)
        ensures
            r == (self.spec_get(key@) is Some),
    {
        matches!(self.find_index(key), Some(_))
    }

    /// A reference to the value bound to `key`, if any.
    pub fn get<'a>(&'a self, key: &str) -> (r: Option<&'a V>)
        ensures
            match r {
                Some(v) => self.spec_get(key@) == Some(v@),
                None => self.spec_get(key@) is None,
            },
    {
        match self.find_index(key) {
            Some(i) => Some(&self.entries[i].1),
            None => None,
        }
    }

    /// Binds `key` to `value`, replacing any earlier binding.
    pub fn set(&mut self, key: &str, value: V)
        requires
            old(self).wf(),
        ensures
            final(self).wf(),
            forall|q: Seq<char>|
                #![trigger final(self).spec_get(q)]
                #![trigger assoc_lookup(final(self).kv(), q)]
                final(self).spec_get(q) == (if q == key@ {
                    Some(value@)
                } else {
                    old(self).spec_get(q)
                }),
    {
        let ghost s0 = self.kv();
        match self.find_index(key) {
            Some(i) => {
                self.entries.remove(i);
                proof {
                    assert(self.kv() =~= s0.remove(i as int));
                    assert forall|q: Seq<char>|
                        #[trigger] assoc_lookup(self.kv(), q) == (if q == key@ {
                            None::<V::V>
                        } else {
                            assoc_lookup(s0, q)
                        }) by {
                        lemma_assoc_lookup_remove(s0, i as int, q);
                    }
                }
            },
            None => {},
        }
        let ghost s1 = self.kv();
        self.entries.push((key.to_owned(), value));
        proof {
            assert(self.kv() =~= s1.push((key@, value@)));
            assert forall|q: Seq<char>|
                #[trigger] assoc_lookup(self.kv(), q) == (if q == key@ {
                    Some(value@)
                } else {
                    assoc_lookup(s0, q)
                }) by {
                lemma_assoc_lookup_push(s1, (key@, value@), q);
                lemma_assoc_lookup_index(s1, key@);
            }
            assert forall|a: int, b: int|
                0 <= a < b < self.kv().len() implies (#[trigger] self.kv()[a]).0
                != (#[trigger] self.kv()[b]).0 by {
                if b < s1.len() {
                    assert(self.kv()[a] == s1[a]);
                    assert(self.kv()[b] == s1[b]);
                } else {
                    assert(self.kv()[a] == s1[a]);
                    assert(self.kv()[b].0 == key@);
                    lemma_assoc_lookup_index(s1, key@);
                }
            }
        }
    }

    /// Unbinds `key`; a no-op where it was not bound.
    pub fn remove_key(&mut self, key: &str)
        requires
            old(self).wf(),
        ensures
            final(self).wf(),
            forall|q: Seq<char>|
                #![trigger final(self).spec_get(q)]
                #![trigger assoc_lookup(final(self).kv(), q)]
                final(self).spec_get(q) == (if q == key@ {
                    None::<V::V>
                } else {
                    old(self).spec_get(q)
                }),
    {
        let ghost s0 = self.kv();
        match self.find_index(key) {
            Some(i) => {
                self.entries.remove(i);
                proof {
                    assert(self.kv() =~= s0.remove(i as int));
                    assert forall|q: Seq<char>|
                        #[trigger] assoc_lookup(self.kv(), q) == (if q == key@ {
                            None::<V::V>
                        } else {
                            assoc_lookup(s0, q)
                        }) by {
                        lemma_assoc_lookup_remove(s0, i as int, q);
                    }
                    assert forall|a: int, b: int|
                        0 <= a < b < self.kv().len() implies (#[trigger] self.kv()[a]).0
                        != (#[trigger] self.kv()[b]).0 by {
                        let sa: int = if a < i as int { a } else { a + 1 };
                        let sb: int = if b < i as int { b } else { b + 1 };
                        assert(self.kv()[a] == s0[sa]);
                        assert(self.kv()[b] == s0[sb]);
                    }
                }
            },
            None => {},
        }
    }
}

/// Property-name to replacement-value mapping.
pub type PropertyMap = AssocVec<String>;

} // verus!
