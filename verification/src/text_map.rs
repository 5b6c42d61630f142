use vstd::prelude::*;
use crate::text::{chars_eq, str_chars};

verus! {

// ---------------------------------------------------------------------------
// A small map keyed by text (a language code, a voice-pack id): entries in a
// vector, each key once.
// ---------------------------------------------------------------------------

/// The map the entries stand for: a later entry overrides an earlier one
/// with the same key (which a well-formed map never holds).
pub open spec fn pairs_map<V>(s: Seq<(String, V)>) -> Map<Seq<char>, V>
    decreases s.len(),
{
    if s.len() == 0 {
        Map::empty()
    } else {
        pairs_map(s.drop_last()).insert(s.last().0@, s.last().1)
    }
}

/// No key occurs twice.
pub open spec fn distinct_keys<V>(s: Seq<(String, V)>) -> bool {
    forall|i: int, j: int| 0 <= i < s.len() && 0 <= j < s.len() && i != j ==> s[i].0@ != s[j].0@
}

proof fn lemma_absent<V>(s: Seq<(String, V)>, k: Seq<char>)
    requires
        forall|i: int| 0 <= i < s.len() ==> s[i].0@ != k,
    ensures
        !pairs_map(s).contains_key(k),
    decreases s.len(),
{
    if s.len() > 0 {
        assert(s.last().0@ != k);
        assert forall|i: int| 0 <= i < s.drop_last().len() implies s.drop_last()[i].0@ != k by {
            assert(s.drop_last()[i] == s[i]);
        }
        lemma_absent(s.drop_last(), k);
    }
}

proof fn lemma_lookup<V>(s: Seq<(String, V)>, i: int)
    requires
        distinct_keys(s),
        0 <= i < s.len(),
    ensures
        pairs_map(s).contains_key(s[i].0@),
        pairs_map(s)[s[i].0@] == s[i].1,
    decreases s.len(),
{
    let init = s.drop_last();
    if i < s.len() - 1 {
        assert(distinct_keys(init)) by {
            assert forall|a: int, b: int|
                0 <= a < init.len() && 0 <= b < init.len() && a != b implies init[a].0@
                != init[b].0@ by {
                assert(init[a] == s[a] && init[b] == s[b]);
            }
        }
        assert(init[i] == s[i]);
        lemma_lookup(init, i);
        assert(s.last().0@ != s[i].0@);
    }
}

proof fn lemma_distinct_init<V>(s: Seq<(String, V)>)
    requires
        distinct_keys(s),
        s.len() > 0,
    ensures
        distinct_keys(s.drop_last()),
        forall|i: int| 0 <= i < s.len() - 1 ==> s.drop_last()[i].0@ != s.last().0@,
{
    let init = s.drop_last();
    assert forall|a: int, b: int|
        0 <= a < init.len() && 0 <= b < init.len() && a != b implies init[a].0@ != init[b].0@ by {
        assert(init[a] == s[a] && init[b] == s[b]);
    }
    assert forall|i: int| 0 <= i < s.len() - 1 implies init[i].0@ != s.last().0@ by {
        assert(init[i] == s[i]);
    }
}

proof fn lemma_update<V>(s: Seq<(String, V)>, i: int, p: (String, V))
    requires
        distinct_keys(s),
        0 <= i < s.len(),
        p.0@ == s[i].0@,
    ensures
        pairs_map(s.update(i, p)) == pairs_map(s).insert(p.0@, p.1),
        distinct_keys(s.update(i, p)),
    decreases s.len(),
{
    let t = s.update(i, p);
    lemma_distinct_init(s);
    if i == s.len() - 1 {
        assert(t.drop_last() =~= s.drop_last());
        assert(pairs_map(t) =~= pairs_map(s).insert(p.0@, p.1));
    } else {
        assert(t.drop_last() =~= s.drop_last().update(i, p));
        lemma_update(s.drop_last(), i, p);
        assert(s.last().0@ != p.0@);
        assert(pairs_map(t) =~= pairs_map(s).insert(p.0@, p.1));
    }
    assert forall|a: int, b: int|
        0 <= a < t.len() && 0 <= b < t.len() && a != b implies t[a].0@ != t[b].0@ by {
        if a != i && b != i {
            assert(t[a] == s[a] && t[b] == s[b]);
        } else if a == i {
            assert(t[b] == s[b]);
        } else {
            assert(t[a] == s[a]);
        }
    }
}

proof fn lemma_remove<V>(s: Seq<(String, V)>, i: int)
    requires
        distinct_keys(s),
        0 <= i < s.len(),
    ensures
        pairs_map(s.remove(i)) == pairs_map(s).remove(s[i].0@),
        distinct_keys(s.remove(i)),
    decreases s.len(),
{
    let t = s.remove(i);
    let k = s[i].0@;
    lemma_distinct_init(s);
    if i == s.len() - 1 {
        assert(t =~= s.drop_last());
        lemma_absent(s.drop_last(), k);
        assert(pairs_map(t) =~= pairs_map(s).remove(k));
    } else {
        assert(t.drop_last() =~= s.drop_last().remove(i));
        assert(t.last() == s.last());
        assert(s.drop_last()[i] == s[i]);
        lemma_remove(s.drop_last(), i);
        assert(s.last().0@ != k);
        assert(pairs_map(t) =~= pairs_map(s).remove(k));
    }
    assert forall|a: int, b: int|
        0 <= a < t.len() && 0 <= b < t.len() && a != b implies t[a].0@ != t[b].0@ by {
        let a2 = if a < i {
            a
        } else {
            a + 1
        };
        let b2 = if b < i {
            b
        } else {
            b + 1
        };
        assert(t[a] == s[a2] && t[b] == s[b2]);
    }
}

/// Entries keyed by text, each key once.
#[derive(Clone, Debug)]
pub struct TextMap<V> {
    entries: Vec<(String, V)>,
}

impl<V> Default for TextMap<V> {
    fn default() -> (r: Self)
        ensures
            r.wf(),
            r.spec_map() == Map::<Seq<char>, V>::empty(),
    {
        TextMap::new()
    }
}

impl<V> TextMap<V> {
    pub closed spec fn wf(&self) -> bool {
        distinct_keys(self.entries@)
    }

    pub closed spec fn spec_map(&self) -> Map<Seq<char>, V> {
        pairs_map(self.entries@)
    }

    /// The entries, each key once; their map is the map's.
    pub closed spec fn spec_entries(&self) -> Seq<(String, V)> {
        self.entries@
    }

    pub proof fn lemma_entries(&self)
        requires
            self.wf(),
        ensures
            distinct_keys(self.spec_entries()),
            pairs_map(self.spec_entries()) == self.spec_map(),
    {
    }

    pub fn new() -> (r: Self)
        ensures
            r.wf(),
            r.spec_map() == Map::<Seq<char>, V>::empty(),
    {
        TextMap { entries: Vec::new() }
    }

    pub fn entries(&self) -> (r: &[(String, V)])
        ensures
            r@ == self.spec_entries(),
            self.wf() ==> distinct_keys(r@),
    {
        self.entries.as_slice()
    }

    fn position(&self, key: &str) -> (r: Option<usize>)
        ensures
            r matches Some(i) ==> i < self.entries@.len() && self.entries@[i as int].0@ == key@,
            r is None ==> forall|i: int| 0 <= i < self.entries@.len() ==> self.entries@[i].0@ != key@,
    {
        let wanted = str_chars(key);
        let mut i: usize = 0;
        while i < self.entries.len()
            invariant
                i <= self.entries@.len(),
                wanted@ == key@,
                forall|j: int| 0 <= j < i ==> self.entries@[j].0@ != key@,
            decreases self.entries.len() - i,
        {
            if chars_eq(str_chars(self.entries[i].0.as_str()).as_slice(), wanted.as_slice()) {
                return Some(i);
            }
            i = i + 1;
        }
        None
    }

    /// The value under `key`.
    pub fn get(&self, key: &str) -> (r: Option<&V>)
        requires
            self.wf(),
        ensures
            r matches Some(v) ==> self.spec_map().contains_key(key@) && *v == self.spec_map()[key@],
            r is None ==> !self.spec_map().contains_key(key@),
    {
        match self.position(key) {
            Some(i) => {
                proof {
                    lemma_lookup(self.entries@, i as int);
                }
                Some(&self.entries[i].1)
            },
            None => {
                proof {
                    lemma_absent(self.entries@, key@);
                }
                None
            },
        }
    }

    /// Puts `value` under `key`, replacing what was there.
    pub fn insert(&mut self, key: String, value: V)
        requires
            old(self).wf(),
        ensures
            final(self).wf(),
            final(self).spec_map() == old(self).spec_map().insert(key@, value),
    {
        match self.position(key.as_str()) {
            Some(i) => {
                proof {
                    lemma_update(self.entries@, i as int, (key, value));
                }
                self.entries.set(i, (key, value));
            },
            None => {
                let ghost before = self.entries@;
                self.entries.push((key, value));
                proof {
                    assert(self.entries@.drop_last() =~= before);
                    assert forall|a: int, b: int|
                        0 <= a < self.entries@.len() && 0 <= b < self.entries@.len() && a != b
                            implies self.entries@[a].0@ != self.entries@[b].0@ by {
                        if a < before.len() && b < before.len() {
                            assert(self.entries@[a] == before[a] && self.entries@[b] == before[b]);
                        } else if a < before.len() {
                            assert(self.entries@[a] == before[a]);
                        } else {
                            assert(self.entries@[b] == before[b]);
                        }
                    }
                }
            },
        }
    }

    /// Removes what is under `key`; returns whether there was anything.
    pub fn remove(&mut self, key: &str) -> (removed: bool)
        requires
            old(self).wf(),
        ensures
            final(self).wf(),
            removed == old(self).spec_map().contains_key(key@),
            final(self).spec_map() == old(self).spec_map().remove(key@),
    {
        match self.position(key) {
            Some(i) => {
                proof {
                    lemma_lookup(self.entries@, i as int);
                    lemma_remove(self.entries@, i as int);
                }
                self.entries.remove(i);
                true
            },
            None => {
                proof {
                    lemma_absent(self.entries@, key@);
                    assert(self.spec_map().remove(key@) =~= self.spec_map());
                }
                false
            },
        }
    }
}

/// What a read gives back of a write: the value just put under a key, and
/// for every other key what was there before.
pub proof fn lemma_read_after_write<V>(before: Map<Seq<char>, V>, key: Seq<char>, value: V, other: Seq<char>)
    ensures
        before.insert(key, value).contains_key(key),
        before.insert(key, value)[key] == value,
        other != key ==> before.insert(key, value).contains_key(other) == before.contains_key(other),
        other != key && before.contains_key(other) ==> before.insert(key, value)[other] == before[other],
        !before.remove(key).contains_key(key),
{
}

} // verus!
