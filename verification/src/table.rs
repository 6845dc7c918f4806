//! A small table from a text key to a value, with at most one value for a
//! key. It serves the ephemeral tables of the engine: handshakes in flight,
//! session keys that await their key-distribution message, removals under
//! debounce, and the files offered to the cluster.

use crate::text::same_text;
use vstd::prelude::*;

verus! {

/// One row of a table.
pub struct Entry<V> {
    pub key: String,
    pub value: V,
}

/// Whether some row of `s` has the key `k`.
pub open spec fn has_key<V>(s: Seq<(Seq<char>, V)>, k: Seq<char>) -> bool {
    exists|i: int| 0 <= i < s.len() && (#[trigger] s[i]).0 == k
}

/// The place of the row with key `k`, where there is one.
pub open spec fn key_slot<V>(s: Seq<(Seq<char>, V)>, k: Seq<char>) -> int {
    choose|i: int| 0 <= i < s.len() && (#[trigger] s[i]).0 == k
}

/// No key occurs twice in `s`.
pub open spec fn keys_distinct<V>(s: Seq<(Seq<char>, V)>) -> bool {
    forall|i: int, j: int| 0 <= i < j < s.len() ==> (#[trigger] s[i]).0 != (#[trigger] s[j]).0
}

/// The rows of `s` as a map.
pub open spec fn as_map<V>(s: Seq<(Seq<char>, V)>) -> Map<Seq<char>, V> {
    Map::new(|k: Seq<char>| has_key(s, k), |k: Seq<char>| s[key_slot(s, k)].1)
}

/// In a sequence without repeated keys, a row is found at its own place.
pub proof fn lemma_key_slot<V>(s: Seq<(Seq<char>, V)>, i: int)
    requires
        keys_distinct(s),
        0 <= i < s.len(),
    ensures
        has_key(s, s[i].0),
        key_slot(s, s[i].0) == i,
        as_map(s)[s[i].0] == s[i].1,
{
    let k = key_slot(s, s[i].0);
    if k < i {
        assert(s[k].0 != s[i].0);
    } else if i < k {
        assert(s[i].0 != s[k].0);
    }
}

/// Replacing the value of a row is an insert under its key.
pub proof fn lemma_update_row<V>(s: Seq<(Seq<char>, V)>, i: int, v: V)
    requires
        keys_distinct(s),
        0 <= i < s.len(),
    ensures
        keys_distinct(s.update(i, (s[i].0, v))),
        as_map(s.update(i, (s[i].0, v))) == as_map(s).insert(s[i].0, v),
{
    let t = s.update(i, (s[i].0, v));
    assert forall|a: int, b: int| 0 <= a < b < t.len() implies (#[trigger] t[a]).0 != (
    #[trigger] t[b]).0 by {
        assert(t[a].0 == s[a].0);
        assert(t[b].0 == s[b].0);
    }
    assert forall|k: Seq<char>| has_key(t, k) <==> has_key(s, k) by {
        if has_key(t, k) {
            let a = key_slot(t, k);
            assert(s[a].0 == k);
        }
        if has_key(s, k) {
            let a = key_slot(s, k);
            assert(t[a].0 == k);
        }
    }
    lemma_key_slot(s, i);
    assert forall|k: Seq<char>| has_key(t, k) implies #[trigger] as_map(t)[k] == as_map(s).insert(
        s[i].0,
        v,
    )[k] by {
        let a = key_slot(t, k);
        lemma_key_slot(t, a);
        assert(s[a].0 == k);
        lemma_key_slot(s, a);
    }
    assert(as_map(t) =~= as_map(s).insert(s[i].0, v));
}

/// Adding a row under a new key is an insert.
pub proof fn lemma_push_row<V>(s: Seq<(Seq<char>, V)>, k: Seq<char>, v: V)
    requires
        keys_distinct(s),
        !has_key(s, k),
    ensures
        keys_distinct(s.push((k, v))),
        as_map(s.push((k, v))) == as_map(s).insert(k, v),
{
    let t = s.push((k, v));
    assert forall|a: int, b: int| 0 <= a < b < t.len() implies (#[trigger] t[a]).0 != (
    #[trigger] t[b]).0 by {
        if b == s.len() {
            assert(s[a].0 != k);
        } else {
            assert(t[a] == s[a] && t[b] == s[b]);
        }
    }
    assert forall|x: Seq<char>| has_key(t, x) <==> (has_key(s, x) || x == k) by {
        if has_key(t, x) {
            let a = key_slot(t, x);
            if a < s.len() {
                assert(s[a].0 == x);
            }
        }
        if has_key(s, x) {
            let a = key_slot(s, x);
            assert(t[a].0 == x);
        }
        if x == k {
            assert(t[s.len() as int].0 == x);
        }
    }
    assert forall|x: Seq<char>| has_key(t, x) implies #[trigger] as_map(t)[x] == as_map(s).insert(
        k,
        v,
    )[x] by {
        let a = key_slot(t, x);
        lemma_key_slot(t, a);
        if a < s.len() {
            assert(s[a].0 == x);
            lemma_key_slot(s, a);
        }
    }
    assert(as_map(t) =~= as_map(s).insert(k, v));
}

/// Taking a row out is a remove under its key.
pub proof fn lemma_remove_row<V>(s: Seq<(Seq<char>, V)>, i: int)
    requires
        keys_distinct(s),
        0 <= i < s.len(),
    ensures
        keys_distinct(s.remove(i)),
        as_map(s.remove(i)) == as_map(s).remove(s[i].0),
{
    let t = s.remove(i);
    let id = s[i].0;
    assert forall|a: int| 0 <= a < t.len() implies #[trigger] t[a] == s[if a < i {
        a
    } else {
        a + 1
    }] by {}
    assert forall|a: int, b: int| 0 <= a < b < t.len() implies (#[trigger] t[a]).0 != (
    #[trigger] t[b]).0 by {
        let a2 = if a < i { a } else { a + 1 };
        let b2 = if b < i { b } else { b + 1 };
        assert(s[a2].0 != s[b2].0);
    }
    lemma_key_slot(s, i);
    assert forall|x: Seq<char>| has_key(t, x) <==> (has_key(s, x) && x != id) by {
        if has_key(t, x) {
            let a = key_slot(t, x);
            let a2 = if a < i { a } else { a + 1 };
            assert(s[a2].0 == x);
            if x == id {
                lemma_key_slot(s, a2);
            }
        }
        if has_key(s, x) && x != id {
            let a2 = key_slot(s, x);
            let a = if a2 < i { a2 } else { a2 - 1 };
            assert(t[a].0 == x);
        }
    }
    assert forall|x: Seq<char>| has_key(t, x) implies #[trigger] as_map(t)[x] == as_map(s).remove(
        id,
    )[x] by {
        let a = key_slot(t, x);
        lemma_key_slot(t, a);
        let a2 = if a < i { a } else { a + 1 };
        assert(s[a2].0 == x);
        lemma_key_slot(s, a2);
    }
    assert(as_map(t) =~= as_map(s).remove(id));
}

/// A table from text keys to values of type `V`.
pub struct Table<V> {
    rows: Vec<Entry<V>>,
}

impl<V> Table<V> {
    /// The rows in the order in which their keys first came.
    pub closed spec fn rows(&self) -> Seq<(Seq<char>, V)> {
        self.rows@.map_values(|e: Entry<V>| (e.key@, e.value))
    }

    /// The invariant of every table: no key occurs twice.
    #[verifier::type_invariant]
    pub open spec fn wf(&self) -> bool {
        keys_distinct(self.rows())
    }

    /// The table as a map.
    pub open spec fn map(&self) -> Map<Seq<char>, V> {
        as_map(self.rows())
    }

    /// An empty table.
    pub fn new() -> (r: Self)
        ensures
            r.map() == Map::<Seq<char>, V>::empty(),
            r.rows().len() == 0,
    {
        let r = Table { rows: Vec::new() };
        proof {
            assert(r.map() =~= Map::<Seq<char>, V>::empty());
        }
        r
    }

    /// The number of rows.
    pub fn len(&self) -> (r: usize)
        ensures
            r == self.rows().len(),
    {
        self.rows.len()
    }

    fn position(&self, key: &str) -> (r: Option<usize>)
        ensures
            r is Some <==> has_key(self.rows(), key@),
            r matches Some(i) ==> i < self.rows().len() && self.rows()[i as int].0 == key@
                && key_slot(self.rows(), key@) == i,
    {
        proof {
            use_type_invariant(self);
        }
        let n: usize = self.rows.len();
        let mut i: usize = 0;
        while i < n
            invariant
                self.wf(),
                n == self.rows@.len(),
                i <= n,
                forall|j: int| 0 <= j < i ==> (#[trigger] self.rows()[j]).0 != key@,
            decreases n - i,
        {
            if same_text(self.rows[i].key.as_str(), key) {
                proof {
                    assert(self.rows()[i as int].0 == key@);
                    lemma_key_slot(self.rows(), i as int);
                }
                return Some(i);
            }
            i = i + 1;
        }
        None
    }

    /// Whether there is a value under `key`.
    pub fn contains_key(&self, key: &str) -> (r: bool)
        ensures
            r == self.map().dom().contains(key@),
    {
        self.position(key).is_some()
    }

    /// The value under `key`.
    pub fn get(&self, key: &str) -> (r: Option<&V>)
        ensures
            r is Some <==> self.map().dom().contains(key@),
            r matches Some(v) ==> *v == self.map()[key@],
    {
        match self.position(key) {
            Some(i) => {
                proof {
                    use_type_invariant(self);
                    lemma_key_slot(self.rows(), i as int);
                }
                Some(&self.rows[i].value)
            },
            None => None,
        }
    }

    /// Puts `value` under `key` and returns the value that was there.
    pub fn insert(&mut self, key: String, value: V) -> (r: Option<V>)
        ensures
            final(self).map() == old(self).map().insert(key@, value),
            r is Some <==> old(self).map().dom().contains(key@),
            r matches Some(v) ==> v == old(self).map()[key@],
    {
        proof {
            use_type_invariant(&*self);
        }
        let ghost before = self.rows();
        let found = self.position(key.as_str());
        let mut all: Vec<Entry<V>> = Vec::new();
        core::mem::swap(&mut all, &mut self.rows);
        let r = match found {
            Some(i) => {
                proof {
                    lemma_key_slot(before, i as int);
                    lemma_update_row(before, i as int, value);
                }
                let mut e = Entry { key, value };
                core::mem::swap(&mut e, &mut all[i]);
                proof {
                    assert(all@.map_values(|e: Entry<V>| (e.key@, e.value)) =~= before.update(
                        i as int,
                        (before[i as int].0, value),
                    ));
                }
                Some(e.value)
            },
            None => {
                proof {
                    lemma_push_row(before, key@, value);
                }
                all.push(Entry { key, value });
                proof {
                    assert(all@.map_values(|e: Entry<V>| (e.key@, e.value)) =~= before.push(
                        (key@, value),
                    ));
                }
                None
            },
        };
        core::mem::swap(&mut all, &mut self.rows);
        r
    }

    /// Takes the value under `key` out of the table.
    pub fn remove(&mut self, key: &str) -> (r: Option<V>)
        ensures
            final(self).map() == old(self).map().remove(key@),
            r is Some <==> old(self).map().dom().contains(key@),
            r matches Some(v) ==> v == old(self).map()[key@],
    {
        proof {
            use_type_invariant(&*self);
        }
        let ghost before = self.rows();
        match self.position(key) {
            Some(i) => {
                let mut all: Vec<Entry<V>> = Vec::new();
                core::mem::swap(&mut all, &mut self.rows);
                let e = all.remove(i);
                proof {
                    lemma_key_slot(before, i as int);
                    lemma_remove_row(before, i as int);
                    assert(all@.map_values(|e: Entry<V>| (e.key@, e.value)) =~= before.remove(
                        i as int,
                    ));
                }
                core::mem::swap(&mut all, &mut self.rows);
                Some(e.value)
            },
            None => {
                proof {
                    assert(self.map() =~= self.map().remove(key@));
                }
                None
            },
        }
    }

    /// Empties the table.
    pub fn clear(&mut self)
        ensures
            final(self).map() == Map::<Seq<char>, V>::empty(),
            final(self).rows().len() == 0,
    {
        self.rows = Vec::new();
        proof {
            assert(self.map() =~= Map::<Seq<char>, V>::empty());
        }
    }
}

} // verus!
