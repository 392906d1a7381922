//! A map keyed by text, kept as a list of entries whose keys are distinct.

use vstd::prelude::*;

use crate::text::same_text;

verus! {

/// A map from text keys to values. No key occurs twice among the entries,
/// so the entries describe exactly one map.
#[derive(Debug)]
pub struct TextMap<V> {
    pub(crate) entries: Vec<(String, V)>,
}

/// The position of an entry whose key reads `k`, if there is one.
pub open spec fn key_position<V>(entries: Seq<(String, V)>, k: Seq<char>) -> int {
    choose|i: int| 0 <= i < entries.len() && (#[trigger] entries[i]).0@ == k
}

/// Some entry has a key that reads `k`.
pub open spec fn has_key<V>(entries: Seq<(String, V)>, k: Seq<char>) -> bool {
    exists|i: int| 0 <= i < entries.len() && (#[trigger] entries[i]).0@ == k
}

/// The map that a list of entries with distinct keys describes.
pub open spec fn entries_map<V>(entries: Seq<(String, V)>) -> Map<Seq<char>, V> {
    Map::new(|k: Seq<char>| has_key(entries, k), |k: Seq<char>| entries[key_position(entries, k)].1)
}

/// No two entries have keys that read the same.
pub open spec fn keys_distinct<V>(entries: Seq<(String, V)>) -> bool {
    forall|i: int, j: int|
        0 <= i < entries.len() && 0 <= j < entries.len() && i != j ==> (#[trigger] entries[i]).0@
            != (#[trigger] entries[j]).0@
}

impl<V> View for TextMap<V> {
    type V = Map<Seq<char>, V>;

    closed spec fn view(&self) -> Map<Seq<char>, V> {
        entries_map(self.entries@)
    }
}

/// In a list with distinct keys, the entry at `i` is the one that its key finds.
proof fn lemma_position_unique<V>(entries: Seq<(String, V)>, i: int)
    requires
        keys_distinct(entries),
        0 <= i < entries.len(),
    ensures
        has_key(entries, entries[i].0@),
        key_position(entries, entries[i].0@) == i,
        entries_map(entries).contains_key(entries[i].0@),
        entries_map(entries)[entries[i].0@] == entries[i].1,
{
    let k = entries[i].0@;
    assert(has_key(entries, k));
    let j = key_position(entries, k);
    assert(entries[j].0@ == k);
}

impl<V> TextMap<V> {
    #[verifier::type_invariant]
    closed spec fn keys_are_distinct(self) -> bool {
        keys_distinct(self.entries@)
    }

    /// An empty map.
    pub fn new() -> (res: TextMap<V>)
        ensures
            res@ == Map::<Seq<char>, V>::empty(),
    {
        let res = TextMap { entries: Vec::new() };
        assert(res@ =~= Map::<Seq<char>, V>::empty());
        res
    }

    /// The number of keys in the map.
    pub fn len(&self) -> (res: usize)
        ensures
            res as nat == self@.dom().len(),
    {
        proof {
            use_type_invariant(self);
            self.lemma_len();
        }
        self.entries.len()
    }

    proof fn lemma_len(&self)
        requires
            keys_distinct(self.entries@),
        ensures
            self@.dom().len() == self.entries@.len(),
            self@.dom().finite(),
        decreases self.entries@.len(),
    {
        let es = self.entries@;
        let keys = es.map_values(|e: (String, V)| e.0@);
        assert forall|i: int, j: int| 0 <= i < keys.len() && 0 <= j < keys.len() && i != j implies
            keys[i] != keys[j] by {
            assert(es[i].0@ != es[j].0@);
        }
        assert(keys.no_duplicates());
        assert(self@.dom() =~= keys.to_set()) by {
            assert forall|k: Seq<char>| self@.dom().contains(k) implies keys.to_set().contains(k) by {
                let i = key_position(es, k);
                assert(keys[i] == k);
            }
            assert forall|k: Seq<char>| keys.to_set().contains(k) implies self@.dom().contains(k) by {
                let i = choose|i: int| 0 <= i < keys.len() && keys[i] == k;
                assert(es[i].0@ == k);
            }
        }
        keys.unique_seq_to_set();
    }

    /// The value stored under `key`, if any.
    pub fn get(&self, key: &str) -> (res: Option<&V>)
        ensures
            match res {
                Some(v) => self@.contains_key(key@) && *v == self@[key@],
                None => !self@.contains_key(key@),
            },
    {
        proof {
            use_type_invariant(self);
        }
        let n = self.entries.len();
        let mut i: usize = 0;
        while i < n
            invariant
                n == self.entries@.len(),
                keys_distinct(self.entries@),
                i <= n,
                forall|j: int| 0 <= j < i ==> (#[trigger] self.entries@[j]).0@ != key@,
            decreases n - i,
        {
            if same_text(self.entries[i].0.as_str(), key) {
                proof {
                    lemma_position_unique(self.entries@, i as int);
                }
                return Some(&self.entries[i].1);
            }
            i = i + 1;
        }
        None
    }

    /// Stores `val` under `key` and gives back the value that was stored
    /// there before, if any.
    pub fn insert(&mut self, key: String, val: V) -> (res: Option<V>)
        ensures
            final(self)@ == old(self)@.insert(key@, val),
            match res {
                Some(v) => old(self)@.contains_key(key@) && v == old(self)@[key@],
                None => !old(self)@.contains_key(key@),
            },
    {
        proof {
            use_type_invariant(&*self);
        }
        let n = self.entries.len();
        let mut i: usize = 0;
        while i < n
            invariant
                n == self.entries@.len(),
                keys_distinct(self.entries@),
                i <= n,
                forall|j: int| 0 <= j < i ==> (#[trigger] self.entries@[j]).0@ != key@,
            ensures
                i <= n,
                i < n ==> self.entries@[i as int].0@ == key@,
                forall|j: int| 0 <= j < i ==> (#[trigger] self.entries@[j]).0@ != key@,
            decreases n - i,
        {
            if same_text(self.entries[i].0.as_str(), key.as_str()) {
                break;
            }
            i = i + 1;
        }
        let ghost before = self.entries@;
        if i < n {
            proof {
                lemma_position_unique(before, i as int);
            }
            let mut entries: Vec<(String, V)> = Vec::new();
            std::mem::swap(&mut entries, &mut self.entries);
            let old_entry = entries.remove(i);
            entries.push((key, val));
            proof {
                assert(entries@.drop_last() =~= before.remove(i as int));
                lemma_replaced(before, entries@, i as int);
            }
            self.entries = entries;
            Some(old_entry.1)
        } else {
            proof {
                assert(!has_key(before, key@));
            }
            let mut entries: Vec<(String, V)> = Vec::new();
            std::mem::swap(&mut entries, &mut self.entries);
            entries.push((key, val));
            proof {
                assert(entries@.drop_last() =~= before);
                lemma_appended(before, entries@);
            }
            self.entries = entries;
            None
        }
    }
}

impl<V: Clone> Clone for TextMap<V> {
    /// A copy with the same keys, each value a clone of the original's.
    fn clone(&self) -> (res: Self)
        ensures
            res@.dom() == self@.dom(),
            forall|k: Seq<char>| #[trigger] res@.contains_key(k) ==> cloned::<V>(self@[k], res@[k]),
    {
        proof {
            use_type_invariant(self);
        }
        let n = self.entries.len();
        let mut copied: Vec<(String, V)> = Vec::new();
        let mut i: usize = 0;
        while i < n
            invariant
                n == self.entries@.len(),
                keys_distinct(self.entries@),
                i <= n,
                copied@.len() == i,
                forall|j: int| 0 <= j < i ==> (#[trigger] copied@[j]).0 == self.entries@[j].0,
                forall|j: int| 0 <= j < i ==> cloned::<V>(self.entries@[j].1, (#[trigger] copied@[j]).1),
            decreases n - i,
        {
            let k: String = self.entries[i].0.clone();
            let v: V = self.entries[i].1.clone();
            copied.push((k, v));
            i = i + 1;
        }
        proof {
            let es = self.entries@;
            let cs = copied@;
            assert forall|a: int, b: int| 0 <= a < n && 0 <= b < n && a != b implies (
            #[trigger] cs[a]).0@ != (#[trigger] cs[b]).0@ by {
                assert(es[a].0@ != es[b].0@);
            }
            assert forall|k: Seq<char>| #[trigger] has_key(cs, k) <==> has_key(es, k) by {
                if has_key(cs, k) {
                    let a = key_position(cs, k);
                    assert(es[a].0@ == k);
                }
                if has_key(es, k) {
                    let a = key_position(es, k);
                    assert(cs[a].0@ == k);
                }
            }
            assert(entries_map(cs).dom() =~= entries_map(es).dom());
            assert forall|k: Seq<char>| #[trigger] entries_map(cs).contains_key(k) implies cloned::<V>(
                entries_map(es)[k],
                entries_map(cs)[k],
            ) by {
                let a = key_position(cs, k);
                lemma_position_unique(cs, a);
                assert(es[a].0@ == k);
                lemma_position_unique(es, a);
            }
        }
        TextMap { entries: copied }
    }
}

proof fn lemma_replaced<V>(before: Seq<(String, V)>, es: Seq<(String, V)>, i: int)
    requires
        keys_distinct(before),
        0 <= i < before.len(),
        es.len() == before.len(),
        es.drop_last() == before.remove(i),
        es.last().0@ == before[i].0@,
    ensures
        keys_distinct(es),
        entries_map(es) == entries_map(before).insert(before[i].0@, es.last().1),
{
    let k = before[i].0@;
    let n = es.len();
    assert forall|a: int| 0 <= a < n - 1 implies #[trigger] es[a] == (if a < i {
        before[a]
    } else {
        before[a + 1]
    }) by {
        assert(es[a] == es.drop_last()[a]);
    }
    assert forall|a: int, b: int| 0 <= a < n && 0 <= b < n && a != b implies (
    #[trigger] es[a]).0@ != (#[trigger] es[b]).0@ by {
        if a < n - 1 && b < n - 1 {
            let a2 = if a < i { a } else { a + 1 };
            let b2 = if b < i { b } else { b + 1 };
            assert(before[a2].0@ != before[b2].0@);
        } else if a == n - 1 {
            let b2 = if b < i { b } else { b + 1 };
            assert(before[b2].0@ != before[i].0@);
        } else {
            let a2 = if a < i { a } else { a + 1 };
            assert(before[a2].0@ != before[i].0@);
        }
    }
    lemma_position_unique(es, n - 1);
    let target = entries_map(before).insert(k, es.last().1);
    assert forall|kk: Seq<char>| #[trigger] entries_map(es).contains_key(kk) <==> target.contains_key(kk) by {
        if entries_map(es).contains_key(kk) {
            let a = key_position(es, kk);
            if a < n - 1 {
                let a2 = if a < i { a } else { a + 1 };
                assert(before[a2].0@ == kk);
            }
        }
        if target.contains_key(kk) && kk != k {
            let a2 = key_position(before, kk);
            assert(a2 != i);
            let a = if a2 < i { a2 } else { a2 - 1 };
            assert(es[a].0@ == kk);
        }
    }
    assert forall|kk: Seq<char>| #[trigger] entries_map(es).contains_key(kk) implies entries_map(es)[kk]
        == target[kk] by {
        if kk != k {
            let a2 = key_position(before, kk);
            lemma_position_unique(before, a2);
            let a = if a2 < i { a2 } else { a2 - 1 };
            assert(es[a].0@ == kk);
            lemma_position_unique(es, a);
        }
    }
    assert(entries_map(es) =~= target);
}

proof fn lemma_appended<V>(before: Seq<(String, V)>, es: Seq<(String, V)>)
    requires
        keys_distinct(before),
        es.len() == before.len() + 1,
        es.drop_last() == before,
        !has_key(before, es.last().0@),
    ensures
        keys_distinct(es),
        entries_map(es) == entries_map(before).insert(es.last().0@, es.last().1),
{
    let n = es.len();
    let k = es.last().0@;
    assert forall|a: int| 0 <= a < n - 1 implies #[trigger] es[a] == before[a] by {
        assert(es[a] == es.drop_last()[a]);
    }
    assert forall|a: int, b: int| 0 <= a < n && 0 <= b < n && a != b implies (
    #[trigger] es[a]).0@ != (#[trigger] es[b]).0@ by {
        if a == n - 1 {
            assert(before[b] == es[b]);
        } else if b == n - 1 {
            assert(before[a] == es[a]);
        }
    }
    lemma_position_unique(es, n - 1);
    let target = entries_map(before).insert(k, es.last().1);
    assert forall|kk: Seq<char>| #[trigger] entries_map(es).contains_key(kk) <==> target.contains_key(kk) by {
        if entries_map(es).contains_key(kk) && kk != k {
            let a = key_position(es, kk);
            assert(before[a].0@ == kk);
        }
        if target.contains_key(kk) && kk != k {
            let a = key_position(before, kk);
            assert(es[a].0@ == kk);
        }
    }
    assert forall|kk: Seq<char>| #[trigger] entries_map(es).contains_key(kk) implies entries_map(es)[kk]
        == target[kk] by {
        if kk != k {
            let a = key_position(before, kk);
            lemma_position_unique(before, a);
            assert(es[a] == before[a]);
            lemma_position_unique(es, a);
        }
    }
    assert(entries_map(es) =~= target);
}

} // verus!
