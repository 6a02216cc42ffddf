//! A map keyed by text that remembers the order of insertion.
use vstd::prelude::*;

verus! {

/// The value that the first entry with key `k` holds.
pub open spec fn lookup<V>(s: Seq<(String, V)>, k: Seq<char>) -> Option<V>
    decreases s.len(),
{
    if s.len() == 0 {
        None
    } else if s[0].0@ == k {
        Some(s[0].1)
    } else {
        lookup(s.skip(1), k)
    }
}

/// Entries as a map.
pub open spec fn entries_map<V>(s: Seq<(String, V)>) -> Map<Seq<char>, V> {
    Map::new(|k: Seq<char>| lookup(s, k) is Some, |k: Seq<char>| lookup(s, k)->0)
}

/// Whether no two entries have the same key.
pub open spec fn keys_distinct<V>(s: Seq<(String, V)>) -> bool {
    forall|i: int, j: int| 0 <= i < j < s.len() ==> (#[trigger] s[i]).0@ != (#[trigger] s[j]).0@
}

pub proof fn lemma_lookup_none<V>(s: Seq<(String, V)>, k: Seq<char>)
    ensures
        lookup(s, k) is None <==> forall|i: int| 0 <= i < s.len() ==> (#[trigger] s[i]).0@ != k,
    decreases s.len(),
{
    if s.len() > 0 && s[0].0@ != k {
        lemma_lookup_none(s.skip(1), k);
        if forall|i: int| 0 <= i < s.len() ==> (#[trigger] s[i]).0@ != k {
            assert forall|i: int| 0 <= i < s.skip(1).len() implies (#[trigger] s.skip(1)[i]).0@
                != k by {
                assert(s.skip(1)[i] == s[i + 1]);
            }
        } else {
            let i = choose|i: int| 0 <= i < s.len() && (#[trigger] s[i]).0@ == k;
            assert(s.skip(1)[i - 1] == s[i]);
        }
    }
}

proof fn lemma_lookup_at<V>(s: Seq<(String, V)>, k: Seq<char>, i: int)
    requires
        0 <= i < s.len(),
        s[i].0@ == k,
        forall|j: int| 0 <= j < i ==> (#[trigger] s[j]).0@ != k,
    ensures
        lookup(s, k) == Some(s[i].1),
    decreases s.len(),
{
    if i > 0 {
        assert(s[0].0@ != k);
        assert forall|j: int| 0 <= j < i - 1 implies (#[trigger] s.skip(1)[j]).0@ != k by {
            assert(s.skip(1)[j] == s[j + 1]);
        }
        lemma_lookup_at(s.skip(1), k, i - 1);
    }
}

pub proof fn lemma_lookup_push<V>(s: Seq<(String, V)>, e: (String, V), k: Seq<char>)
    ensures
        lookup(s.push(e), k) == if lookup(s, k) is Some {
            lookup(s, k)
        } else if e.0@ == k {
            Some(e.1)
        } else {
            None
        },
    decreases s.len(),
{
    if s.len() > 0 {
        assert(s.push(e)[0] == s[0]);
        assert(s.push(e).skip(1) =~= s.skip(1).push(e));
        lemma_lookup_push(s.skip(1), e, k);
    } else {
        assert(s.push(e).skip(1) =~= s);
        assert(s.push(e)[0] == e);
    }
}

proof fn lemma_lookup_update<V>(s: Seq<(String, V)>, i: int, e: (String, V), k: Seq<char>)
    requires
        0 <= i < s.len(),
        e.0@ == s[i].0@,
        forall|j: int| 0 <= j < i ==> (#[trigger] s[j]).0@ != e.0@,
    ensures
        lookup(s.update(i, e), k) == if k == e.0@ {
            Some(e.1)
        } else {
            lookup(s, k)
        },
    decreases s.len(),
{
    if i > 0 {
        assert(s.update(i, e).skip(1) =~= s.skip(1).update(i - 1, e));
        assert forall|j: int| 0 <= j < i - 1 implies (#[trigger] s.skip(1)[j]).0@ != e.0@ by {
            assert(s.skip(1)[j] == s[j + 1]);
        }
        lemma_lookup_update(s.skip(1), i - 1, e, k);
    } else {
        assert(s.update(i, e).skip(1) =~= s.skip(1));
    }
}

proof fn lemma_lookup_removed<V>(s: Seq<(String, V)>, i: int, k: Seq<char>)
    requires
        0 <= i < s.len(),
        s[i].0@ != k,
    ensures
        lookup(s.remove(i), k) == lookup(s, k),
    decreases s.len(),
{
    if i > 0 {
        assert(s.remove(i).skip(1) =~= s.skip(1).remove(i - 1));
        lemma_lookup_removed(s.skip(1), i - 1, k);
    } else {
        assert(s.remove(i) =~= s.skip(1));
    }
}

/// A map from text to `V`. Iteration follows the order of insertion.
pub struct StrMap<V> {
    pub entries: Vec<(String, V)>,
}

impl<V> View for StrMap<V> {
    type V = Map<Seq<char>, V>;

    open spec fn view(&self) -> Map<Seq<char>, V> {
        entries_map(self.entries@)
    }
}

impl<V> StrMap<V> {
    /// Whether every key occurs once. Every map built by the methods is so.
    pub open spec fn wf(&self) -> bool {
        keys_distinct(self.entries@)
    }

    /// An empty map.
    pub fn new() -> (r: Self)
        ensures
            r.wf(),
            r.entries@.len() == 0,
            r@ == Map::<Seq<char>, V>::empty(),
    {
        let r = StrMap { entries: Vec::new() };
        assert(r@ =~= Map::<Seq<char>, V>::empty());
        r
    }

    fn index_of(&self, key: &str) -> (r: Option<usize>)
        ensures
            r is Some == self@.contains_key(key@),
            r matches Some(i) ==> i < self.entries@.len() && self.entries@[i as int].0@ == key@
                && self@[key@] == self.entries@[i as int].1 && forall|j: int|
                0 <= j < i ==> (#[trigger] self.entries@[j]).0@ != key@,
    {
        let mut i: usize = 0;
        while i < self.entries.len()
            invariant
                i <= self.entries@.len(),
                forall|j: int| 0 <= j < i ==> (#[trigger] self.entries@[j]).0@ != key@,
            decreases self.entries@.len() - i,
        {
            if *self.entries[i].0.as_str() == *key {
                proof {
                    lemma_lookup_at(self.entries@, key@, i as int);
                }
                return Some(i);
            }
            i = i + 1;
        }
        proof {
            lemma_lookup_none(self.entries@, key@);
        }
        None
    }

    /// Whether `key` is in the map.
    pub fn contains(&self, key: &str) -> (r: bool)
        ensures
            r == self@.contains_key(key@),
    {
        self.index_of(key).is_some()
    }

    /// The value of `key`.
    pub fn get(&self, key: &str) -> (r: Option<&V>)
        ensures
            r is Some == self@.contains_key(key@),
            r matches Some(v) ==> *v == self@[key@],
    {
        match self.index_of(key) {
            Some(i) => Some(&self.entries[i].1),
            None => None,
        }
    }

    /// Sets the value of `key`; a new key comes last.
    pub fn insert(&mut self, key: String, value: V)
        ensures
            final(self)@ == old(self)@.insert(key@, value),
            old(self).wf() ==> final(self).wf(),
            !old(self)@.contains_key(key@) ==> final(self).entries@ == old(self).entries@.push(
                (key, value),
            ),
            old(self)@.contains_key(key@) ==> final(self).entries@.len() == old(self).entries@.len(),
    {
        match self.index_of(key.as_str()) {
            Some(i) => {
                let ghost s = self.entries@;
                proof {
                    assert forall|k: Seq<char>| #[trigger]
                        lookup(s.update(i as int, (key, value)), k) == if k == key@ {
                            Some(value)
                        } else {
                            lookup(s, k)
                        } by {
                        lemma_lookup_update(s, i as int, (key, value), k);
                    }
                }
                self.entries.set(i, (key, value));
                assert(self@ =~= old(self)@.insert(key@, value));
            },
            None => {
                let ghost s = self.entries@;
                proof {
                    lemma_lookup_none(s, key@);
                    assert forall|k: Seq<char>| #[trigger]
                        lookup(s.push((key, value)), k) == if k == key@ {
                            Some(value)
                        } else {
                            lookup(s, k)
                        } by {
                        lemma_lookup_push(s, (key, value), k);
                    }
                }
                self.entries.push((key, value));
                assert(self@ =~= old(self)@.insert(key@, value));
            },
        }
    }

    /// Takes `key` out of the map and returns its value.
    pub fn remove(&mut self, key: &str) -> (r: Option<V>)
        requires
            old(self).wf(),
        ensures
            final(self).wf(),
            final(self)@ == old(self)@.remove(key@),
            r is Some == old(self)@.contains_key(key@),
            r matches Some(v) ==> v == old(self)@[key@],
    {
        match self.index_of(key) {
            Some(i) => {
                let ghost s = self.entries@;
                let (_, v) = self.entries.remove(i);
                proof {
                    assert(self.entries@ == s.remove(i as int));
                    assert forall|k: Seq<char>| k != key@ implies #[trigger] lookup(
                        s.remove(i as int),
                        k,
                    ) == lookup(s, k) by {
                        lemma_lookup_removed(s, i as int, k);
                    }
                    lemma_lookup_none(s.remove(i as int), key@);
                    assert(self@ =~= old(self)@.remove(key@));
                }
                Some(v)
            },
            None => {
                assert(self@ =~= old(self)@.remove(key@));
                None
            },
        }
    }

    /// Empties the map.
    pub fn clear(&mut self)
        ensures
            final(self).wf(),
            final(self).entries@.len() == 0,
            final(self)@ == Map::<Seq<char>, V>::empty(),
    {
        self.entries.clear();
        assert(self@ =~= Map::<Seq<char>, V>::empty());
    }

    /// The place of the value of `key`.
    pub fn get_mut(&mut self, key: &str) -> (r: Option<&mut V>)
        ensures
            r is Some == old(self)@.contains_key(key@),
            r matches Some(v) ==> *v == old(self)@[key@] && final(self)@ == old(self)@.insert(
                key@,
                *final(v),
            ) && (old(self).wf() ==> final(self).wf()),
            r is None ==> *final(self) == *old(self),
    {
        match self.index_of(key) {
            Some(i) => {
                let ghost s = self.entries@;
                proof {
                    assert forall|e: (String, V), k: Seq<char>|
                        e.0 == s[i as int].0 implies #[trigger] lookup(s.update(i as int, e), k) == if k == key@ {
                        Some(e.1)
                    } else {
                        lookup(s, k)
                    } by {
                        lemma_lookup_update(s, i as int, e, k);
                    }
                }
                Some(&mut self.entries[i].1)
            },
            None => None,
        }
    }
}

/// A map gives back what was stored last under a key, forgets what was taken out, and
/// leaves the other keys alone.
pub proof fn law_map_remembers<V>(
    a: &mut StrMap<V>,
    key: String,
    value: V,
    b: &mut StrMap<V>,
    gone: &str,
    taken: Option<V>,
    other: Seq<char>,
)
    requires
        old(a).wf(),
        call_ensures(StrMap::<V>::insert, (a, key, value), ()),
        *old(b) == *final(a),
        gone@ == key@,
        call_ensures(StrMap::<V>::remove, (b, gone), taken),
    ensures
        final(a)@.contains_key(key@) && final(a)@[key@] == value,
        !old(a)@.contains_key(key@) ==> final(a).entries@ == old(a).entries@.push((key, value)),
        old(a)@.contains_key(key@) ==> final(a).entries@.len() == old(a).entries@.len(),
        taken == Some(value),
        !final(b)@.contains_key(key@),
        other != key@ ==> final(b)@.contains_key(other) == old(a)@.contains_key(other),
        other != key@ && old(a)@.contains_key(other) ==> final(b)@[other] == old(a)@[other],
{
}

/// What a map holds under a key is what one of its entries holds, and every entry is
/// found under its key.
pub proof fn law_map_is_its_entries<V>(m: StrMap<V>, i: int, k: Seq<char>)
    requires
        m.wf(),
        0 <= i < m.entries@.len(),
    ensures
        m@.contains_key(m.entries@[i].0@),
        m@[m.entries@[i].0@] == m.entries@[i].1,
        m@.contains_key(k) <==> exists|j: int|
            0 <= j < m.entries@.len() && (#[trigger] m.entries@[j]).0@ == k,
{
    let e = m.entries@;
    lemma_lookup_at(e, e[i].0@, i);
    lemma_lookup_none(e, k);
}

/// What a map is asked for is what it holds.
pub proof fn law_map_answers<V>(
    fresh: StrMap<V>,
    m: &StrMap<V>,
    key: &str,
    has: bool,
    got: Option<&V>,
    n: &mut StrMap<V>,
)
    requires
        call_ensures(StrMap::<V>::new, (), fresh),
        call_ensures(StrMap::<V>::contains, (m, key), has),
        call_ensures(StrMap::<V>::get, (m, key), got),
        call_ensures(StrMap::<V>::clear, (n,), ()),
    ensures
        !fresh@.contains_key(key@),
        has <==> m@.contains_key(key@),
        got is Some <==> has,
        got matches Some(v) ==> *v == m@[key@],
        !final(n)@.contains_key(key@),
        final(n).entries@.len() == 0,
{
}

} // verus!
