use vstd::prelude::*;

verus! {

use crate::strings::str_eq;

/// One binding of a table: a string key and its value.
pub struct Entry<V> {
    pub key: String,
    pub val: V,
}

/// A flat string-keyed table with last-write-wins insertion, kept in first
/// insertion order; the replacement for a hash map, so that lookups and
/// listing order are deterministic.
pub struct Dict<V> {
    pub entries: Vec<Entry<V>>,
}

/// The value bound to `k` from position `i` on, if any.
pub open spec fn find_from<V>(es: Seq<Entry<V>>, i: int, k: Seq<char>) -> Option<V>
    decreases es.len() - i,
{
    if i < 0 || i >= es.len() {
        None
    } else if es[i].key@ == k {
        Some(es[i].val)
    } else {
        find_from(es, i + 1, k)
    }
}

/// The value the table binds to `k`, if any.
pub open spec fn spec_get<V>(d: Dict<V>, k: Seq<char>) -> Option<V> {
    find_from(d.entries@, 0, k)
}

/// The keys of the table, in insertion order.
pub open spec fn spec_keys<V>(d: Dict<V>) -> Seq<Seq<char>> {
    d.entries@.map_values(|e: Entry<V>| e.key@)
}

/// No key occurs twice.
pub open spec fn dict_wf<V>(d: Dict<V>) -> bool {
    forall|i: int, j: int|
        0 <= i < j < d.entries@.len() ==> d.entries@[i].key@ != d.entries@[j].key@
}

proof fn lemma_find_skip_mismatch<V>(es: Seq<Entry<V>>, i: int, k: Seq<char>)
    requires
        0 <= i <= es.len(),
        forall|j: int| 0 <= j < i ==> es[j].key@ != k,
    ensures
        find_from(es, 0, k) == find_from(es, i, k),
    decreases i,
{
    if i > 0 {
        lemma_find_skip_mismatch(es, i - 1, k);
        lemma_find_tail(es, i - 1, k);
    }
}

proof fn lemma_find_tail<V>(es: Seq<Entry<V>>, i: int, k: Seq<char>)
    requires
        0 <= i < es.len(),
        es[i].key@ != k,
    ensures
        find_from(es, i, k) == find_from(es, i + 1, k),
{
}

proof fn lemma_find_update<V>(es: Seq<Entry<V>>, j: int, e: Entry<V>, i: int, k: Seq<char>)
    requires
        0 <= j < es.len(),
        es[j].key@ == e.key@,
        forall|a: int| 0 <= a < es.len() && a != j ==> es[a].key@ != es[j].key@,
        0 <= i <= es.len(),
    ensures
        find_from(es.update(j, e), i, k) == if j >= i && k == e.key@ && find_from(es, i, k)
            is Some {
            Some(e.val)
        } else {
            find_from(es, i, k)
        },
    decreases es.len() - i,
{
    let es2 = es.update(j, e);
    assert(es2.len() == es.len());
    if i >= es.len() {
        assert(find_from(es2, i, k) is None);
        assert(find_from(es, i, k) is None);
    } else {
        lemma_find_update(es, j, e, i + 1, k);
        if i == j {
            assert(es2[i] == e);
            if k == e.key@ {
                assert(find_from(es2, i, k) == Some(e.val));
                assert(find_from(es, i, k) == Some(es[i].val));
            } else {
                assert(find_from(es2, i, k) == find_from(es2, i + 1, k));
                assert(find_from(es, i, k) == find_from(es, i + 1, k));
            }
        } else {
            assert(es2[i] == es[i]);
            if es[i].key@ == k {
                assert(k != e.key@);
                assert(find_from(es2, i, k) == Some(es[i].val));
                assert(find_from(es, i, k) == Some(es[i].val));
            } else {
                assert(find_from(es2, i, k) == find_from(es2, i + 1, k));
                assert(find_from(es, i, k) == find_from(es, i + 1, k));
            }
        }
    }
}

proof fn lemma_find_push<V>(es: Seq<Entry<V>>, e: Entry<V>, i: int, k: Seq<char>)
    requires
        0 <= i <= es.len(),
    ensures
        find_from(es.push(e), i, k) == if find_from(es, i, k) is Some {
            find_from(es, i, k)
        } else if k == e.key@ {
            Some(e.val)
        } else {
            None
        },
    decreases es.len() - i,
{
    let es2 = es.push(e);
    if i < es.len() {
        lemma_find_push(es, e, i + 1, k);
        assert(es2[i] == es[i]);
        if es[i].key@ == k {
            assert(find_from(es2, i, k) == Some(es[i].val));
        } else {
            assert(find_from(es2, i, k) == find_from(es2, i + 1, k));
            assert(find_from(es, i, k) == find_from(es, i + 1, k));
        }
    } else {
        assert(find_from(es, i, k) is None);
        assert(es2.len() == es.len() + 1);
        assert(es2[es.len() as int] == e);
        if k == e.key@ {
            assert(find_from(es2, i, k) == Some(e.val));
        } else {
            assert(find_from(es2, i, k) == find_from(es2, i + 1, k));
            assert(find_from(es2, i + 1, k) is None);
        }
    }
}

impl<V> Dict<V> {
    /// The empty table.
    pub fn new() -> (r: Dict<V>)
        ensures
            r.entries@.len() == 0,
            dict_wf(r),
            forall|k: Seq<char>| spec_get(r, k) is None,
    {
        Dict { entries: Vec::new() }
    }

    /// How many keys the table holds.
    pub fn len(&self) -> (r: usize)
        ensures
            r == self.entries@.len(),
    {
        self.entries.len()
    }

    /// The value bound to `key`, if any.
    pub fn get(&self, key: &str) -> (r: Option<&V>)
        ensures
            match r {
                Some(v) => spec_get(*self, key@) == Some(*v),
                None => spec_get(*self, key@) is None,
            },
    {
        let mut i: usize = 0;
        while i < self.entries.len()
            invariant
                i <= self.entries@.len(),
                find_from(self.entries@, 0, key@) == find_from(self.entries@, i as int, key@),
            decreases self.entries@.len() - i,
        {
            if str_eq(self.entries[i].key.as_str(), key) {
                return Some(&self.entries[i].val);
            }
            i = i + 1;
        }
        None
    }

    /// Whether the table binds `key`.
    pub fn contains_key(&self, key: &str) -> (r: bool)
        ensures
            r == (spec_get(*self, key@) is Some),
    {
        match self.get(key) {
            Some(_) => true,
            None => false,
        }
    }

    /// Binds `key` to `val`; a key bound before keeps its place, every other
    /// binding stays as it was.
    pub fn insert(&mut self, key: String, val: V)
        requires
            dict_wf(*old(self)),
        ensures
            dict_wf(*final(self)),
            forall|k: Seq<char>|
                spec_get(*final(self), k) == if k == key@ {
                    Some(val)
                } else {
                    spec_get(*old(self), k)
                },
            spec_keys(*final(self)) == if spec_get(*old(self), key@) is Some {
                spec_keys(*old(self))
            } else {
                spec_keys(*old(self)).push(key@)
            },
    {
        let ghost es0 = self.entries@;
        let mut i: usize = 0;
        while i < self.entries.len()
            invariant
                self.entries@ == es0,
                es0 == old(self).entries@,
                dict_wf(*old(self)),
                i <= es0.len(),
                forall|j: int| 0 <= j < i ==> es0[j].key@ != key@,
            decreases es0.len() - i,
        {
            if str_eq(self.entries[i].key.as_str(), key.as_str()) {
                let e = Entry { key, val };
                self.entries.remove(i);
                self.entries.insert(i, e);
                proof {
                    assert(self.entries@ =~= es0.update(i as int, e));
                    assert(e.key@ == es0[i as int].key@);
                    assert forall|a: int|
                        0 <= a < es0.len() && a != i as int implies es0[a].key@ != es0[i as int].key@ by {
                        if a < i as int {
                            assert(old(self).entries@[a].key@ != old(self).entries@[i as int].key@);
                        } else {
                            assert(old(self).entries@[i as int].key@ != old(self).entries@[a].key@);
                        }
                    }
                    lemma_find_skip_mismatch(es0, i as int, e.key@);
                    assert(find_from(es0, i as int, e.key@) is Some);
                    assert forall|k: Seq<char>|
                        spec_get(*self, k) == (if k == e.key@ {
                            Some(e.val)
                        } else {
                            spec_get(*old(self), k)
                        }) by {
                        lemma_find_update(es0, i as int, e, 0, k);
                        if k == e.key@ {
                            lemma_find_skip_mismatch(es0, i as int, k);
                        }
                    }
                    assert(spec_keys(*self) =~= spec_keys(*old(self)));
                    assert forall|a: int, b: int|
                        0 <= a < b < self.entries@.len() implies self.entries@[a].key@
                        != self.entries@[b].key@ by {
                        assert(self.entries@[a].key@ == es0[a].key@);
                        assert(self.entries@[b].key@ == es0[b].key@);
                    }
                }
                return ;
            }
            i = i + 1;
        }
        proof {
            lemma_find_skip_mismatch(es0, es0.len() as int, key@);
            assert(spec_get(*old(self), key@) is None);
        }
        let e = Entry { key, val };
        self.entries.push(e);
        proof {
            assert(self.entries@ =~= es0.push(e));
            assert forall|k: Seq<char>|
                spec_get(*self, k) == (if k == e.key@ {
                    Some(e.val)
                } else {
                    spec_get(*old(self), k)
                }) by {
                lemma_find_push(es0, e, 0, k);
                if k == e.key@ {
                } else {
                    if find_from(es0, 0, k) is None {
                    }
                }
            }
            assert(spec_keys(*self) =~= spec_keys(*old(self)).push(e.key@));
            assert forall|a: int, b: int|
                0 <= a < b < self.entries@.len() implies self.entries@[a].key@
                != self.entries@[b].key@ by {
                if b < es0.len() {
                } else {
                    assert(self.entries@[b] == e);
                    assert(es0[a].key@ != key@);
                }
            }
        }
    }

    /// The keys of the table, in order, as fresh strings.
    pub fn keys(&self) -> (r: Vec<String>)
        ensures
            r@.map_values(|s: String| s@) == spec_keys(*self),
    {
        let mut r: Vec<String> = Vec::new();
        let mut i: usize = 0;
        proof {
            assert(r@.map_values(|s: String| s@) =~= spec_keys(*self).subrange(0, 0));
        }
        while i < self.entries.len()
            invariant
                i <= self.entries@.len(),
                r@.map_values(|s: String| s@) == spec_keys(*self).subrange(0, i as int),
            decreases self.entries@.len() - i,
        {
            let ghost prev = r@.map_values(|s: String| s@);
            r.push(self.entries[i].key.clone());
            i = i + 1;
            proof {
                assert(r@.map_values(|s: String| s@) =~= prev.push(self.entries@[i - 1].key@));
                assert(prev.push(self.entries@[i - 1].key@) =~= spec_keys(*self).subrange(
                    0,
                    i as int,
                ));
            }
        }
        proof {
            assert(spec_keys(*self).subrange(0, self.entries@.len() as int) =~= spec_keys(*self));
        }
        r
    }
}


impl Dict<String> {
    /// A fresh table holding the same bindings.
    pub fn duplicate(&self) -> (r: Dict<String>)
        ensures
            r.entries@ == self.entries@,
    {
        let mut out: Vec<Entry<String>> = Vec::new();
        let mut i: usize = 0;
        while i < self.entries.len()
            invariant
                i <= self.entries@.len(),
                out@ == self.entries@.subrange(0, i as int),
            decreases self.entries@.len() - i,
        {
            out.push(
                Entry { key: self.entries[i].key.clone(), val: self.entries[i].val.clone() },
            );
            i = i + 1;
            proof {
                assert(out@ =~= self.entries@.subrange(0, i as int));
            }
        }
        proof {
            assert(self.entries@.subrange(0, self.entries@.len() as int) =~= self.entries@);
        }
        Dict { entries: out }
    }
}


/// A table with unique keys binds each entry's key to that entry's value.
pub proof fn lemma_get_entry<V>(d: Dict<V>, i: int)
    requires
        dict_wf(d),
        0 <= i < d.entries@.len(),
    ensures
        spec_get(d, d.entries@[i].key@) == Some(d.entries@[i].val),
{
    lemma_find_skip_mismatch(d.entries@, i, d.entries@[i].key@);
}

} // verus!
