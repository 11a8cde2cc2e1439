//! A table of values keyed by strings, each key at most once, remembering
//! the order in which keys came in. It holds the installed plugins, the
//! cancellation handles of running downloads and the callers waiting on the
//! JVM bridge.

use vstd::prelude::*;
use crate::text::str_eq;

verus! {

/// The map that a list of entries stands for, later entries first.
pub open spec fn map_of<T>(s: Seq<(String, T)>) -> Map<Seq<char>, T>
    decreases s.len(),
{
    if s.len() == 0 {
        Map::empty()
    } else {
        map_of(s.drop_last()).insert(s.last().0@, s.last().1)
    }
}

/// No key occurs twice among the entries.
pub open spec fn unique_keys<T>(s: Seq<(String, T)>) -> bool {
    forall|i: int, j: int| 0 <= i < j < s.len() ==> s[i].0@ != s[j].0@
}

/// The keys of the entries, in order.
pub open spec fn keys_of<T>(s: Seq<(String, T)>) -> Seq<Seq<char>> {
    s.map_values(|e: (String, T)| e.0@)
}

proof fn lemma_map_of_dom<T>(s: Seq<(String, T)>)
    ensures
        forall|k: Seq<char>|
            map_of(s).contains_key(k) <==> exists|i: int| 0 <= i < s.len() && #[trigger] s[i].0@ == k,
    decreases s.len(),
{
    if s.len() > 0 {
        let t = s.drop_last();
        lemma_map_of_dom(t);
        assert forall|k: Seq<char>| map_of(s).contains_key(k) implies exists|i: int|
            0 <= i < s.len() && #[trigger] s[i].0@ == k by {
            if k == s.last().0@ {
                assert(s[s.len() - 1].0@ == k);
            } else {
                assert(map_of(t).contains_key(k));
                let i = choose|i: int| 0 <= i < t.len() && #[trigger] t[i].0@ == k;
                assert(s[i].0@ == k);
            }
        }
        assert forall|k: Seq<char>| (exists|i: int| 0 <= i < s.len() && #[trigger] s[i].0@ == k)
            implies map_of(s).contains_key(k) by {
            let i = choose|i: int| 0 <= i < s.len() && #[trigger] s[i].0@ == k;
            assert(0 <= i < s.len());
            assert(t.len() == s.len() - 1);
            if i < s.len() - 1 {
                assert(t[i] == s[i]);
                assert(t[i].0@ == k);
                assert(map_of(t).contains_key(k));
            } else {
                assert(s.last().0@ == k);
            }
            assert(map_of(s) == map_of(t).insert(s.last().0@, s.last().1));
        }
    }
}

proof fn lemma_map_of_len<T>(s: Seq<(String, T)>)
    requires
        unique_keys(s),
    ensures
        map_of(s).dom().finite(),
        map_of(s).len() == s.len(),
    decreases s.len(),
{
    if s.len() > 0 {
        lemma_map_of_len(s.drop_last());
        lemma_map_of_absent_last(s);
    }
}

proof fn lemma_map_of_at<T>(s: Seq<(String, T)>, i: int)
    requires
        unique_keys(s),
        0 <= i < s.len(),
    ensures
        map_of(s).contains_key(s[i].0@),
        map_of(s)[s[i].0@] == s[i].1,
    decreases s.len(),
{
    if i < s.len() - 1 {
        lemma_map_of_at(s.drop_last(), i);
    }
}

proof fn lemma_map_of_update<T>(s: Seq<(String, T)>, i: int, v: T)
    requires
        unique_keys(s),
        0 <= i < s.len(),
    ensures
        map_of(s.update(i, (s[i].0, v))) =~= map_of(s).insert(s[i].0@, v),
    decreases s.len(),
{
    let t = s.update(i, (s[i].0, v));
    if i == s.len() - 1 {
        assert(t.drop_last() =~= s.drop_last());
        lemma_map_of_dom(s.drop_last());
        lemma_map_of_dom(s);
        lemma_map_of_absent_last(s);
    } else {
        lemma_map_of_update(s.drop_last(), i, v);
        assert(t.drop_last() =~= s.drop_last().update(i, (s[i].0, v)));
    }
}

proof fn lemma_map_of_absent_last<T>(s: Seq<(String, T)>)
    requires
        unique_keys(s),
        s.len() > 0,
    ensures
        !map_of(s.drop_last()).contains_key(s.last().0@),
{
    lemma_map_of_dom(s.drop_last());
    if map_of(s.drop_last()).contains_key(s.last().0@) {
        let i = choose|i: int| 0 <= i < s.drop_last().len() && s.drop_last()[i].0@ == s.last().0@;
        assert(s[i].0@ == s[s.len() - 1].0@);
    }
}

proof fn lemma_map_of_remove<T>(s: Seq<(String, T)>, i: int)
    requires
        unique_keys(s),
        0 <= i < s.len(),
    ensures
        map_of(s.remove(i)) =~= map_of(s).remove(s[i].0@),
    decreases s.len(),
{
    let t = s.remove(i);
    if i == s.len() - 1 {
        assert(t =~= s.drop_last());
        lemma_map_of_absent_last(s);
    } else {
        lemma_map_of_remove(s.drop_last(), i);
        assert(t.drop_last() =~= s.drop_last().remove(i));
        assert(t.last() == s.last());
        assert(s[i].0@ != s.last().0@);
    }
}

/// A table of values of type `T` under string keys.
pub struct KeyedTable<T> {
    entries: Vec<(String, T)>,
}

impl<T> KeyedTable<T> {
    /// Well-formed: no key occurs twice.
    pub closed spec fn wf(self) -> bool {
        unique_keys(self.entries@)
    }

    /// The entries, in the order in which their keys came in.
    pub closed spec fn pairs(self) -> Seq<(String, T)> {
        self.entries@
    }

    /// The table as a map from keys to values.
    pub open spec fn view(self) -> Map<Seq<char>, T> {
        map_of(self.pairs())
    }

    /// The keys in a table are distinct, and the map is what the entries give.
    pub proof fn lemma_pairs(&self)
        requires
            self.wf(),
        ensures
            unique_keys(self.pairs()),
            forall|i: int| #![trigger self.pairs()[i]]
                0 <= i < self.pairs().len() ==> self@.contains_key(self.pairs()[i].0@)
                    && self@[self.pairs()[i].0@] == self.pairs()[i].1,
            forall|k: Seq<char>|
                self@.contains_key(k) <==> exists|i: int|
                    0 <= i < self.pairs().len() && #[trigger] self.pairs()[i].0@ == k,
    {
        lemma_map_of_dom(self.entries@);
        assert forall|i: int| #![trigger self.pairs()[i]]
            0 <= i < self.pairs().len() implies self@.contains_key(self.pairs()[i].0@)
                && self@[self.pairs()[i].0@] == self.pairs()[i].1 by {
            lemma_map_of_at(self.entries@, i);
        }
    }

    /// A table holds as many keys as entries.
    pub proof fn lemma_len(&self)
        requires
            self.wf(),
        ensures
            self@.dom().finite(),
            self@.len() == self.pairs().len(),
    {
        lemma_map_of_len(self.entries@);
    }

    /// An empty table.
    pub fn new() -> (res: Self)
        ensures
            res.wf(),
            res@ == Map::<Seq<char>, T>::empty(),
            res.pairs().len() == 0,
    {
        KeyedTable { entries: Vec::new() }
    }

    /// Number of keys in the table.
    pub fn len(&self) -> (res: usize)
        ensures
            res == self.pairs().len(),
    {
        self.entries.len()
    }

    /// Position of `key` among the entries.
    fn position(&self, key: &str) -> (res: Option<usize>)
        ensures
            match res {
                Some(i) => i < self.pairs().len() && self.pairs()[i as int].0@ == key@,
                None => forall|i: int| 0 <= i < self.pairs().len() ==> self.pairs()[i].0@ != key@,
            },
    {
        let mut i: usize = 0;
        while i < self.entries.len()
            invariant
                i <= self.entries.len(),
                forall|j: int| 0 <= j < i ==> self.entries@[j].0@ != key@,
            decreases self.entries.len() - i,
        {
            if str_eq(self.entries[i].0.as_str(), key) {
                return Some(i);
            }
            i = i + 1;
        }
        None
    }

    /// The value under `key`, if any.
    pub fn get(&self, key: &str) -> (res: Option<&T>)
        requires
            self.wf(),
        ensures
            match res {
                Some(v) => self@.contains_key(key@) && self@[key@] == *v,
                None => !self@.contains_key(key@),
            },
    {
        proof {
            self.lemma_pairs();
        }
        match self.position(key) {
            Some(i) => Some(&self.entries[i].1),
            None => None,
        }
    }

    /// The entry at position `i`, in the order in which keys came in.
    pub fn entry_at(&self, i: usize) -> (res: (&String, &T))
        requires
            i < self.pairs().len(),
        ensures
            res.0 == self.pairs()[i as int].0,
            *res.1 == self.pairs()[i as int].1,
    {
        let e = &self.entries[i];
        (&e.0, &e.1)
    }

    /// Puts `value` under `key`, replacing what was there; returns the value
    /// it replaced. A new key goes after all others; a known key keeps its place.
    pub fn insert(&mut self, key: String, value: T) -> (res: Option<T>)
        requires
            old(self).wf(),
        ensures
            final(self).wf(),
            final(self)@ == old(self)@.insert(key@, value),
            res is Some <==> old(self)@.contains_key(key@),
            res matches Some(v) ==> v == old(self)@[key@],
            old(self)@.contains_key(key@) ==> keys_of(final(self).pairs()) == keys_of(old(self).pairs()),
            !old(self)@.contains_key(key@) ==> keys_of(final(self).pairs()) == keys_of(old(self).pairs()).push(key@),
    {
        proof {
            self.lemma_pairs();
        }
        let mut entries: Vec<(String, T)> = Vec::new();
        std::mem::swap(&mut entries, &mut self.entries);
        let ghost old_entries = entries@;
        let mut i: usize = 0;
        while i < entries.len()
            invariant
                entries@ == old_entries,
                i <= entries.len(),
                forall|j: int| 0 <= j < i ==> entries@[j].0@ != key@,
            ensures
                entries@ == old_entries,
                i <= entries.len(),
                forall|j: int| 0 <= j < i ==> entries@[j].0@ != key@,
                i < entries.len() ==> entries@[i as int].0@ == key@,
            decreases entries.len() - i,
        {
            if str_eq(entries[i].0.as_str(), key.as_str()) {
                break;
            }
            i = i + 1;
        }
        if i < entries.len() {
            let k = entries[i].0.clone();
            proof {
                lemma_map_of_update(old_entries, i as int, value);
                lemma_map_of_at(old_entries, i as int);
            }
            let mut old_value = (k, value);
            entries.set_and_swap(i, &mut old_value);
            proof {
                assert(entries@ =~= old_entries.update(i as int, (old_entries[i as int].0, value)));
                assert(keys_of(entries@) =~= keys_of(old_entries));
            }
            self.entries = entries;
            Some(old_value.1)
        } else {
            proof {
                lemma_map_of_dom(old_entries);
            }
            entries.push((key, value));
            proof {
                assert(entries@.drop_last() =~= old_entries);
                assert(keys_of(entries@) =~= keys_of(old_entries).push(key@));
            }
            self.entries = entries;
            None
        }
    }

    /// Takes the value under `key` out of the table, if any; the other keys
    /// keep their order.
    pub fn remove(&mut self, key: &str) -> (res: Option<T>)
        requires
            old(self).wf(),
        ensures
            final(self).wf(),
            final(self)@ == old(self)@.remove(key@),
            res is Some <==> old(self)@.contains_key(key@),
            res matches Some(v) ==> v == old(self)@[key@],
            old(self)@.contains_key(key@) ==> exists|i: int|
                0 <= i < old(self).pairs().len() && #[trigger] keys_of(old(self).pairs())[i] == key@
                    && keys_of(final(self).pairs()) == keys_of(old(self).pairs()).remove(i),
            !old(self)@.contains_key(key@) ==> keys_of(final(self).pairs()) == keys_of(old(self).pairs()),
    {
        proof {
            self.lemma_pairs();
        }
        match self.position(key) {
            Some(i) => {
                let mut entries: Vec<(String, T)> = Vec::new();
                std::mem::swap(&mut entries, &mut self.entries);
                let ghost old_entries = entries@;
                proof {
                    lemma_map_of_remove(old_entries, i as int);
                    lemma_map_of_at(old_entries, i as int);
                }
                let e = entries.remove(i);
                proof {
                    assert(keys_of(entries@) =~= keys_of(old_entries).remove(i as int));
                    assert(keys_of(old_entries)[i as int] == key@);
                }
                self.entries = entries;
                Some(e.1)
            },
            None => {
                proof {
                    assert(old(self)@.remove(key@) =~= old(self)@);
                }
                None
            },
        }
    }

    /// Takes every entry out, in order, leaving the table empty.
    pub fn drain(&mut self) -> (res: Vec<(String, T)>)
        ensures
            final(self).wf(),
            final(self)@ == Map::<Seq<char>, T>::empty(),
            res@ == old(self).pairs(),
    {
        let mut entries: Vec<(String, T)> = Vec::new();
        std::mem::swap(&mut entries, &mut self.entries);
        entries
    }
}

/// What a table gives back for a key is what was last put under it; the
/// other keys keep their values.
pub proof fn law_read_after_write<T>(before: KeyedTable<T>, after: KeyedTable<T>, k: Seq<char>, v: T)
    requires
        after@ == before@.insert(k, v),
    ensures
        after@.contains_key(k),
        after@[k] == v,
        forall|o: Seq<char>| o != k ==> (after@.contains_key(o) == before@.contains_key(o)),
        forall|o: Seq<char>| o != k && before@.contains_key(o) ==> after@[o] == before@[o],
{
}

} // verus!
