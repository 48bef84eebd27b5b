//! Parameter sets: named string values with unique names.
//!
//! A set remembers the order in which names first arrived, but what it
//! means is the mapping from name to value.

use vstd::prelude::*;

verus! {

/// A parameter as specifications see it: name, then value.
pub type Entry = (Seq<char>, Seq<char>);

/// No name occurs twice in `s`.
pub open spec fn keys_distinct(s: Seq<Entry>) -> bool {
    forall|i: int, j: int| 0 <= i < j < s.len() ==> (#[trigger] s[i]).0 != (#[trigger] s[j]).0
}

/// Some entry of `s` is named `key`.
pub open spec fn has_key(s: Seq<Entry>, key: Seq<char>) -> bool {
    exists|i: int| 0 <= i < s.len() && (#[trigger] s[i]).0 == key
}

/// Position of an entry named `key` in `s`, meaningful when there is one.
pub open spec fn key_index(s: Seq<Entry>, key: Seq<char>) -> int {
    choose|i: int| 0 <= i < s.len() && (#[trigger] s[i]).0 == key
}

/// `s` after `key` is given `value`: an entry of that name is overwritten
/// where it stands, a new name goes to the end.
pub open spec fn put(s: Seq<Entry>, key: Seq<char>, value: Seq<char>) -> Seq<Entry> {
    if has_key(s, key) {
        s.update(key_index(s, key), (key, value))
    } else {
        s.push((key, value))
    }
}

/// The mapping from name to value that `s` stands for.
pub open spec fn entries_map(s: Seq<Entry>) -> Map<Seq<char>, Seq<char>> {
    Map::new(|k: Seq<char>| has_key(s, k), |k: Seq<char>| s[key_index(s, k)].1)
}

/// What a stored pair of strings holds.
pub open spec fn pair_view(p: (String, String)) -> Entry {
    (p.0@, p.1@)
}

/// What a sequence of stored pairs holds.
pub open spec fn pairs_view(v: Seq<(String, String)>) -> Seq<Entry> {
    Seq::new(v.len(), |i: int| pair_view(v[i]))
}

/// With distinct names, the position of a name is the only one that holds it.
pub proof fn lemma_key_index_unique(s: Seq<Entry>, i: int)
    requires
        keys_distinct(s),
        0 <= i < s.len(),
    ensures
        has_key(s, s[i].0),
        key_index(s, s[i].0) == i,
{
    let k = s[i].0;
    let j = key_index(s, k);
    assert(0 <= j < s.len() && s[j].0 == k);
    if j != i {
        if j < i {
            assert(s[j].0 != s[i].0);
        } else {
            assert(s[i].0 != s[j].0);
        }
    }
}

/// `put` keeps names distinct.
pub proof fn lemma_put_keeps_distinct(s: Seq<Entry>, key: Seq<char>, value: Seq<char>)
    requires
        keys_distinct(s),
    ensures
        keys_distinct(put(s, key, value)),
{
    let t = put(s, key, value);
    if has_key(s, key) {
        let p = key_index(s, key);
        assert forall|i: int, j: int| 0 <= i < j < t.len() implies (#[trigger] t[i]).0 != (
        #[trigger] t[j]).0 by {
            assert(s[i].0 != s[j].0);
        }
    } else {
        assert forall|i: int, j: int| 0 <= i < j < t.len() implies (#[trigger] t[i]).0 != (
        #[trigger] t[j]).0 by {
            if j < s.len() {
                assert(s[i].0 != s[j].0);
            } else {
                assert(t[i] == s[i]);
            }
        }
    }
}

/// `put` on the entries is `insert` on the mapping.
pub proof fn lemma_put_is_insert(s: Seq<Entry>, key: Seq<char>, value: Seq<char>)
    requires
        keys_distinct(s),
    ensures
        entries_map(put(s, key, value)) == entries_map(s).insert(key, value),
{
    let t = put(s, key, value);
    lemma_put_keeps_distinct(s, key, value);
    let a = entries_map(t);
    let b = entries_map(s).insert(key, value);
    assert forall|k: Seq<char>| a.dom().contains(k) <==> b.dom().contains(k) by {
        if has_key(t, k) {
            let i = key_index(t, k);
            if k != key {
                assert(s[i].0 == k);
            }
        }
        if has_key(s, k) {
            let i = key_index(s, k);
            assert(t[i].0 == k);
        }
        if k == key {
            if has_key(s, key) {
                assert(t[key_index(s, key)].0 == key);
            } else {
                assert(t[s.len() as int].0 == key);
            }
        }
    }
    assert forall|k: Seq<char>| a.dom().contains(k) implies a[k] == b[k] by {
        let i = key_index(t, k);
        lemma_key_index_unique(t, i);
        if k != key {
            assert(s[i].0 == k);
            lemma_key_index_unique(s, i);
        } else if has_key(s, key) {
            let p = key_index(s, key);
            assert(t[p].0 == key);
            lemma_key_index_unique(t, p);
        } else {
            assert(t[s.len() as int].0 == key);
            lemma_key_index_unique(t, s.len() as int);
        }
    }
    assert(a =~= b);
}

/// Giving a value to one name and replacing the value of another can be
/// done in either order, and the entry of the other name stays in place.
pub proof fn lemma_put_other_name(
    s: Seq<Entry>,
    at: int,
    replaced: Entry,
    key: Seq<char>,
    value: Seq<char>,
)
    requires
        keys_distinct(s),
        0 <= at < s.len(),
        replaced.0 == s[at].0,
        key != s[at].0,
    ensures
        keys_distinct(s.update(at, replaced)),
        put(s, key, value)[at] == s[at],
        put(s.update(at, replaced), key, value) == put(s, key, value).update(at, replaced),
{
    let changed = s.update(at, replaced);
    assert forall|i: int, j: int| 0 <= i < j < changed.len() implies (#[trigger] changed[i]).0 != (
    #[trigger] changed[j]).0 by {
        assert(s[i].0 != s[j].0);
    }
    if has_key(s, key) {
        let found = key_index(s, key);
        assert(changed[found].0 == key);
        lemma_key_index_unique(changed, found);
        assert(put(changed, key, value) =~= put(s, key, value).update(at, replaced));
    } else {
        if has_key(changed, key) {
            let found = key_index(changed, key);
            assert(s[found].0 == key);
        }
        assert(put(changed, key, value) =~= put(s, key, value).update(at, replaced));
    }
}

/// A set of named string values. Each name occurs once.
pub struct ParamSet {
    entries: Vec<(String, String)>,
}

impl View for ParamSet {
    type V = Map<Seq<char>, Seq<char>>;

    /// The mapping from name to value.
    open spec fn view(&self) -> Map<Seq<char>, Seq<char>> {
        entries_map(self.entries())
    }
}

impl ParamSet {
    /// The entries in the order in which their names first arrived.
    pub closed spec fn entries(&self) -> Seq<Entry> {
        pairs_view(self.entries@)
    }

    /// No name is stored twice.
    #[verifier::type_invariant]
    pub closed spec fn well_formed(&self) -> bool {
        keys_distinct(pairs_view(self.entries@))
    }

    /// A set without entries.
    pub fn new() -> (set: ParamSet)
        ensures
            set.entries() == Seq::<Entry>::empty(),
            set@ == Map::<Seq<char>, Seq<char>>::empty(),
    {
        let set = ParamSet { entries: Vec::new() };
        assert(set.entries() =~= Seq::<Entry>::empty());
        assert(set@ =~= Map::<Seq<char>, Seq<char>>::empty());
        set
    }

    /// A set with the one entry `key`, `value`.
    pub fn single(key: &str, value: &str) -> (set: ParamSet)
        ensures
            set.entries() == seq![(key@, value@)],
    {
        let mut set = ParamSet::new();
        set.insert(key, value);
        assert(!has_key(Seq::<Entry>::empty(), key@));
        assert(set.entries() =~= seq![(key@, value@)]);
        set
    }

    /// Number of entries.
    pub fn len(&self) -> (n: usize)
        ensures
            n == self.entries().len(),
    {
        self.entries.len()
    }

    /// Position of the entry named `key`, if there is one.
    fn position(&self, key: &String) -> (found: Option<usize>)
        ensures
            keys_distinct(self.entries()),
            match found {
                Some(i) => i < self.entries().len() && has_key(self.entries(), key@) && key_index(
                    self.entries(),
                    key@,
                ) == i,
                None => !has_key(self.entries(), key@),
            },
    {
        proof {
            use_type_invariant(self);
        }
        let mut i: usize = 0;
        while i < self.entries.len()
            invariant
                i <= self.entries.len(),
                keys_distinct(self.entries()),
                forall|j: int| 0 <= j < i ==> (#[trigger] self.entries()[j]).0 != key@,
            decreases self.entries.len() - i,
        {
            if self.entries[i].0 == *key {
                proof {
                    assert(self.entries()[i as int].0 == key@);
                    lemma_key_index_unique(self.entries(), i as int);
                }
                return Some(i);
            }
            i += 1;
        }
        None
    }

    /// Whether an entry is named `key`.
    pub fn contains_key(&self, key: &str) -> (present: bool)
        ensures
            present == self@.dom().contains(key@),
            present == has_key(self.entries(), key@),
    {
        let k = String::from_str(key);
        self.position(&k).is_some()
    }

    /// The value stored under `key`, if there is one.
    pub fn get(&self, key: &str) -> (value: Option<String>)
        ensures
            match value {
                Some(v) => self@.dom().contains(key@) && v@ == self@[key@],
                None => !self@.dom().contains(key@),
            },
    {
        let k = String::from_str(key);
        match self.position(&k) {
            Some(i) => Some(self.entries[i].1.clone()),
            None => None,
        }
    }

    /// The entries as owned pairs, in the order of `entries`.
    pub fn to_vec(&self) -> (pairs: Vec<(String, String)>)
        ensures
            pairs_view(pairs@) == self.entries(),
            keys_distinct(self.entries()),
    {
        proof {
            use_type_invariant(self);
        }
        let mut pairs: Vec<(String, String)> = Vec::new();
        let mut i: usize = 0;
        while i < self.entries.len()
            invariant
                i <= self.entries.len(),
                pairs@.len() == i,
                forall|j: int| 0 <= j < i ==> pair_view(#[trigger] pairs@[j]) == self.entries()[j],
            decreases self.entries.len() - i,
        {
            let name = self.entries[i].0.clone();
            let value = self.entries[i].1.clone();
            pairs.push((name, value));
            i += 1;
        }
        assert(pairs_view(pairs@) =~= self.entries());
        pairs
    }

    /// A copy with the same entries in the same order.
    pub fn duplicate(&self) -> (copy: ParamSet)
        ensures
            copy.entries() == self.entries(),
            copy@ == self@,
    {
        let pairs = self.to_vec();
        ParamSet { entries: pairs }
    }

    /// Gives `key` the value `value`. A value already stored under that
    /// name is replaced; a new name is added after those present.
    pub fn insert(&mut self, key: &str, value: &str)
        ensures
            final(self).entries() == put(old(self).entries(), key@, value@),
            final(self)@ == old(self)@.insert(key@, value@),
    {
        let k = String::from_str(key);
        let v = String::from_str(value);
        let found = self.position(&k);
        proof {
            lemma_put_keeps_distinct(self.entries(), key@, value@);
            lemma_put_is_insert(self.entries(), key@, value@);
        }
        let mut entries: Vec<(String, String)> = Vec::new();
        assert(pairs_view(entries@) =~= Seq::<Entry>::empty());
        core::mem::swap(&mut self.entries, &mut entries);
        match found {
            Some(i) => {
                entries.set(i, (k, v));
            },
            None => {
                entries.push((k, v));
            },
        }
        assert(pairs_view(entries@) =~= put(old(self).entries(), key@, value@));
        core::mem::swap(&mut self.entries, &mut entries);
    }
}

} // verus!
