//! Verified association tables that model the broker's backing store.
//!
//! Every record the broker keeps is a keyed, TTL-stamped entry: the key is a
//! string (or a pair of strings), the deadline is the second at which the
//! store would drop the key, and the value is the record itself. The tables
//! are association lists with unique keys, viewed as maps from key to
//! `(deadline, value)`.

use crate::text::str_eq;
use vstd::prelude::*;
use vstd::seq_lib::*;

verus! {

/// One record of a single-key table.
pub struct Entry<V> {
    pub key: String,
    pub deadline: u64,
    pub value: V,
}

pub open spec fn keys_unique<V>(s: Seq<Entry<V>>) -> bool {
    forall|i: int, j: int| 0 <= i < j < s.len() ==> s[i].key@ != s[j].key@
}

pub open spec fn map_of<V>(s: Seq<Entry<V>>) -> Map<Seq<char>, (u64, V)>
    decreases s.len(),
{
    if s.len() == 0 {
        Map::empty()
    } else {
        map_of(s.drop_first()).insert(s[0].key@, (s[0].deadline, s[0].value))
    }
}

proof fn lemma_absent<V>(s: Seq<Entry<V>>, k: Seq<char>)
    requires
        forall|i: int| 0 <= i < s.len() ==> s[i].key@ != k,
    ensures
        !map_of(s).contains_key(k),
    decreases s.len(),
{
    if s.len() > 0 {
        assert(forall|i: int|
            0 <= i < s.drop_first().len() ==> s.drop_first()[i] == s[i + 1]);
        lemma_absent(s.drop_first(), k);
    }
}

proof fn lemma_found<V>(s: Seq<Entry<V>>, k: Seq<char>, i: int)
    requires
        keys_unique(s),
        0 <= i < s.len(),
        s[i].key@ == k,
    ensures
        map_of(s).contains_key(k),
        map_of(s)[k] == (s[i].deadline, s[i].value),
    decreases s.len(),
{
    assert(forall|j: int|
        0 <= j < s.drop_first().len() ==> s.drop_first()[j] == s[j + 1]);
    if i > 0 {
        lemma_found(s.drop_first(), k, i - 1);
    }
}

proof fn lemma_push<V>(s: Seq<Entry<V>>, e: Entry<V>)
    requires
        !map_of(s).contains_key(e.key@),
    ensures
        map_of(s.push(e)) == map_of(s).insert(e.key@, (e.deadline, e.value)),
    decreases s.len(),
{
    let t = s.push(e);
    if s.len() == 0 {
        assert(t.drop_first() =~= Seq::<Entry<V>>::empty());
        assert(map_of(t) == map_of(t.drop_first()).insert(t[0].key@, (t[0].deadline, t[0].value)));
        assert(t[0] == e);
        assert(map_of(t) =~= map_of(s).insert(e.key@, (e.deadline, e.value)));
    } else {
        assert(t.drop_first() =~= s.drop_first().push(e));
        lemma_push(s.drop_first(), e);
        assert(map_of(t) == map_of(t.drop_first()).insert(t[0].key@, (t[0].deadline, t[0].value)));
        assert(t[0] == s[0]);
        assert(map_of(t) =~= map_of(s).insert(e.key@, (e.deadline, e.value)));
    }
}

proof fn lemma_contains_index<V>(s: Seq<Entry<V>>, k: Seq<char>)
    requires
        map_of(s).contains_key(k),
    ensures
        exists|i: int| 0 <= i < s.len() && s[i].key@ == k,
    decreases s.len(),
{
    if s.len() > 0 && s[0].key@ != k {
        lemma_contains_index(s.drop_first(), k);
        let i = choose|i: int| 0 <= i < s.drop_first().len() && s.drop_first()[i].key@ == k;
        assert(s[i + 1].key@ == k);
    }
}

proof fn lemma_unique_push<V>(s: Seq<Entry<V>>, e: Entry<V>)
    requires
        keys_unique(s),
        !map_of(s).contains_key(e.key@),
    ensures
        keys_unique(s.push(e)),
{
    assert forall|i: int, j: int|
        0 <= i < j < s.push(e).len() implies s.push(e)[i].key@ != s.push(e)[j].key@ by {
        if j == s.len() {
            if s[i].key@ == e.key@ {
                lemma_found(s, e.key@, i);
            }
        }
    }
}

proof fn lemma_remove<V>(s: Seq<Entry<V>>, i: int)
    requires
        keys_unique(s),
        0 <= i < s.len(),
    ensures
        keys_unique(s.remove(i)),
        map_of(s.remove(i)) == map_of(s).remove(s[i].key@),
    decreases s.len(),
{
    assert(forall|j: int|
        0 <= j < s.drop_first().len() ==> s.drop_first()[j] == s[j + 1]);
    if i == 0 {
        assert(s.remove(0) =~= s.drop_first());
        assert(forall|j: int| 0 <= j < s.drop_first().len() ==> s.drop_first()[j].key@ != s[0].key@);
        lemma_absent(s.drop_first(), s[0].key@);
        assert(map_of(s.drop_first()) =~= map_of(s).remove(s[0].key@));
    } else {
        assert(s.remove(i).drop_first() =~= s.drop_first().remove(i - 1));
        lemma_remove(s.drop_first(), i - 1);
        assert(map_of(s.remove(i)) =~= map_of(s).remove(s[i].key@));
    }
}

/// A unique-key association table from one string key to a TTL-stamped value.
pub struct Table<V> {
    entries: Vec<Entry<V>>,
}

impl<V> View for Table<V> {
    type V = Map<Seq<char>, (u64, V)>;

    closed spec fn view(&self) -> Map<Seq<char>, (u64, V)> {
        map_of(self.entries@)
    }
}

impl<V> Table<V> {
    pub closed spec fn wf(self) -> bool {
        keys_unique(self.entries@)
    }

    pub fn new() -> (t: Table<V>)
        ensures
            t.wf(),
            t@ == Map::<Seq<char>, (u64, V)>::empty(),
    {
        Table { entries: Vec::new() }
    }

    fn index_of(&self, k: &str) -> (r: Option<usize>)
        ensures
            (match r {
                Some(i) => i < self.entries@.len() && self.entries@[i as int].key@ == k@,
                None => forall|i: int| 0 <= i < self.entries@.len() ==> self.entries@[i].key@ != k@,
            }),
    {
        let n = self.entries.len();
        let mut i: usize = 0;
        while i < n
            invariant
                i <= n,
                n == self.entries@.len(),
                forall|j: int| 0 <= j < i ==> self.entries@[j].key@ != k@,
            decreases n - i,
        {
            if str_eq(self.entries[i].key.as_str(), k) {
                return Some(i);
            }
            i += 1;
        }
        None
    }

    pub fn contains(&self, k: &str) -> (r: bool)
        requires
            self.wf(),
        ensures
            r == self@.contains_key(k@),
    {
        match self.index_of(k) {
            Some(i) => {
                proof {
                    lemma_found(self.entries@, k@, i as int);
                }
                true
            },
            None => {
                proof {
                    lemma_absent(self.entries@, k@);
                }
                false
            },
        }
    }

    pub fn get<'a>(&'a self, k: &str) -> (r: Option<&'a V>)
        requires
            self.wf(),
        ensures
            (match r {
                Some(v) => self@.contains_key(k@) && *v == self@[k@].1,
                None => !self@.contains_key(k@),
            }),
    {
        match self.index_of(k) {
            Some(i) => {
                proof {
                    lemma_found(self.entries@, k@, i as int);
                }
                Some(&self.entries[i].value)
            },
            None => {
                proof {
                    lemma_absent(self.entries@, k@);
                }
                None
            },
        }
    }

    /// Remove and return the entry under `k`, if any.
    pub fn take(&mut self, k: &str) -> (r: Option<(u64, V)>)
        requires
            old(self).wf(),
        ensures
            final(self).wf(),
            (match r {
                Some(dv) => old(self)@.contains_key(k@) && dv == old(self)@[k@]
                    && final(self)@ == old(self)@.remove(k@),
                None => !old(self)@.contains_key(k@) && *final(self) == *old(self),
            }),
    {
        match self.index_of(k) {
            Some(i) => {
                proof {
                    lemma_found(self.entries@, k@, i as int);
                    lemma_remove(self.entries@, i as int);
                }
                let e = self.entries.remove(i);
                Some((e.deadline, e.value))
            },
            None => {
                proof {
                    lemma_absent(self.entries@, k@);
                }
                None
            },
        }
    }

    /// Bind `k` to `v` with the given expiry deadline, replacing any
    /// previous binding.
    pub fn set(&mut self, k: &str, deadline: u64, v: V)
        requires
            old(self).wf(),
        ensures
            final(self).wf(),
            final(self)@ == old(self)@.insert(k@, (deadline, v)),
    {
        self.take(k);
        let e = Entry { key: k.to_owned(), deadline, value: v };
        proof {
            lemma_push(self.entries@, e);
            lemma_unique_push(self.entries@, e);
        }
        self.entries.push(e);
        proof {
            assert(self@ =~= old(self)@.insert(k@, (deadline, v)));
        }
    }

    /// Drops every entry whose deadline has passed: the backing store's
    /// expiry sweep, at second `now`.
    pub fn purge(&mut self, now: u64)
        requires
            old(self).wf(),
        ensures
            final(self).wf(),
            forall|key: Seq<char>| #[trigger]
                final(self)@.contains_key(key) <==> (old(self)@.contains_key(key) && old(
                    self,
                )@[key].0 > now),
            forall|key: Seq<char>| #[trigger]
                final(self)@.contains_key(key) ==> final(self)@[key] == old(self)@[key],
    {
        let ghost s0 = self.entries@;
        let ghost n = s0.len() as int;
        let mut kept: Vec<Entry<V>> = Vec::new();
        let ghost mut k: int = 0;
        while self.entries.len() > 0
            invariant
                keys_unique(s0),
                0 <= k <= n,
                n == s0.len(),
                self.entries@ == s0.subrange(k, n),
                keys_unique(kept@),
                forall|x: Seq<char>| #[trigger]
                    map_of(kept@).contains_key(x) ==> exists|i: int|
                        0 <= i < k && s0[i].key@ == x && s0[i].deadline > now,
                forall|i: int|
                    0 <= i < k && s0[i].deadline > now ==> map_of(kept@).contains_key(
                        #[trigger] s0[i].key@,
                    ) && map_of(kept@)[s0[i].key@] == (s0[i].deadline, s0[i].value),
            decreases self.entries@.len(),
        {
            let e = self.entries.remove(0);
            proof {
                assert(e == s0[k]);
                assert(self.entries@ =~= s0.subrange(k + 1, n));
            }
            if e.deadline > now {
                proof {
                    if map_of(kept@).contains_key(e.key@) {
                        let i = choose|i: int|
                            0 <= i < k && s0[i].key@ == e.key@ && s0[i].deadline > now;
                        assert(s0[i].key@ != s0[k].key@);
                        assert(false);
                    }
                    lemma_push(kept@, e);
                    lemma_unique_push(kept@, e);
                }
                kept.push(e);
            }
            proof {
                k = k + 1;
            }
        }
        self.entries = kept;
        proof {
            assert forall|x: Seq<char>| #[trigger]
                self@.contains_key(x) implies (map_of(s0).contains_key(x) && map_of(s0)[x].0 > now
                && self@[x] == map_of(s0)[x]) by {
                let i = choose|i: int| 0 <= i < k && s0[i].key@ == x && s0[i].deadline > now;
                lemma_found(s0, x, i);
            }
            assert forall|x: Seq<char>|
                map_of(s0).contains_key(x) && map_of(s0)[x].0 > now implies #[trigger] self@.contains_key(
                x,
            ) by {
                lemma_contains_index(s0, x);
                let i = choose|i: int| 0 <= i < s0.len() && s0[i].key@ == x;
                lemma_found(s0, x, i);
            }
        }
    }
}

/// One record of a two-key table.
pub struct PairEntry<V> {
    pub key_a: String,
    pub key_b: String,
    pub deadline: u64,
    pub value: V,
}

pub open spec fn pair_key<V>(e: PairEntry<V>) -> (Seq<char>, Seq<char>) {
    (e.key_a@, e.key_b@)
}

pub open spec fn pair_keys_unique<V>(s: Seq<PairEntry<V>>) -> bool {
    forall|i: int, j: int| 0 <= i < j < s.len() ==> pair_key(s[i]) != pair_key(s[j])
}

pub open spec fn pair_map_of<V>(s: Seq<PairEntry<V>>) -> Map<(Seq<char>, Seq<char>), (u64, V)>
    decreases s.len(),
{
    if s.len() == 0 {
        Map::empty()
    } else {
        pair_map_of(s.drop_first()).insert(pair_key(s[0]), (s[0].deadline, s[0].value))
    }
}

proof fn lemma_pair_absent<V>(s: Seq<PairEntry<V>>, k: (Seq<char>, Seq<char>))
    requires
        forall|i: int| 0 <= i < s.len() ==> pair_key(s[i]) != k,
    ensures
        !pair_map_of(s).contains_key(k),
    decreases s.len(),
{
    if s.len() > 0 {
        assert(forall|j: int|
            0 <= j < s.drop_first().len() ==> s.drop_first()[j] == s[j + 1]);
        lemma_pair_absent(s.drop_first(), k);
    }
}

proof fn lemma_pair_found<V>(s: Seq<PairEntry<V>>, k: (Seq<char>, Seq<char>), i: int)
    requires
        pair_keys_unique(s),
        0 <= i < s.len(),
        pair_key(s[i]) == k,
    ensures
        pair_map_of(s).contains_key(k),
        pair_map_of(s)[k] == (s[i].deadline, s[i].value),
    decreases s.len(),
{
    assert(forall|j: int|
        0 <= j < s.drop_first().len() ==> s.drop_first()[j] == s[j + 1]);
    if i > 0 {
        lemma_pair_found(s.drop_first(), k, i - 1);
    }
}

proof fn lemma_pair_push<V>(s: Seq<PairEntry<V>>, e: PairEntry<V>)
    requires
        !pair_map_of(s).contains_key(pair_key(e)),
    ensures
        pair_map_of(s.push(e)) == pair_map_of(s).insert(pair_key(e), (e.deadline, e.value)),
    decreases s.len(),
{
    let t = s.push(e);
    if s.len() == 0 {
        assert(t.drop_first() =~= Seq::<PairEntry<V>>::empty());
        assert(pair_map_of(t) == pair_map_of(t.drop_first()).insert(
            pair_key(t[0]),
            (t[0].deadline, t[0].value),
        ));
        assert(t[0] == e);
        assert(pair_map_of(t) =~= pair_map_of(s).insert(pair_key(e), (e.deadline, e.value)));
    } else {
        assert(t.drop_first() =~= s.drop_first().push(e));
        lemma_pair_push(s.drop_first(), e);
        assert(pair_map_of(t) == pair_map_of(t.drop_first()).insert(
            pair_key(t[0]),
            (t[0].deadline, t[0].value),
        ));
        assert(t[0] == s[0]);
        assert(pair_map_of(t) =~= pair_map_of(s).insert(pair_key(e), (e.deadline, e.value)));
    }
}

proof fn lemma_pair_contains_index<V>(s: Seq<PairEntry<V>>, k: (Seq<char>, Seq<char>))
    requires
        pair_map_of(s).contains_key(k),
    ensures
        exists|i: int| 0 <= i < s.len() && pair_key(s[i]) == k,
    decreases s.len(),
{
    if s.len() > 0 && pair_key(s[0]) != k {
        lemma_pair_contains_index(s.drop_first(), k);
        let i = choose|i: int| 0 <= i < s.drop_first().len() && pair_key(s.drop_first()[i]) == k;
        assert(pair_key(s[i + 1]) == k);
    }
}

proof fn lemma_pair_unique_push<V>(s: Seq<PairEntry<V>>, e: PairEntry<V>)
    requires
        pair_keys_unique(s),
        !pair_map_of(s).contains_key(pair_key(e)),
    ensures
        pair_keys_unique(s.push(e)),
{
    assert forall|i: int, j: int|
        0 <= i < j < s.push(e).len() implies pair_key(s.push(e)[i]) != pair_key(s.push(e)[j]) by {
        if j == s.len() {
            if pair_key(s[i]) == pair_key(e) {
                lemma_pair_found(s, pair_key(e), i);
            }
        }
    }
}

proof fn lemma_pair_remove<V>(s: Seq<PairEntry<V>>, i: int)
    requires
        pair_keys_unique(s),
        0 <= i < s.len(),
    ensures
        pair_keys_unique(s.remove(i)),
        pair_map_of(s.remove(i)) == pair_map_of(s).remove(pair_key(s[i])),
    decreases s.len(),
{
    assert(forall|j: int|
        0 <= j < s.drop_first().len() ==> s.drop_first()[j] == s[j + 1]);
    if i == 0 {
        assert(s.remove(0) =~= s.drop_first());
        assert(forall|j: int|
            0 <= j < s.drop_first().len() ==> pair_key(s.drop_first()[j]) != pair_key(s[0]));
        lemma_pair_absent(s.drop_first(), pair_key(s[0]));
        assert(pair_map_of(s.drop_first()) =~= pair_map_of(s).remove(pair_key(s[0])));
    } else {
        assert(s.remove(i).drop_first() =~= s.drop_first().remove(i - 1));
        lemma_pair_remove(s.drop_first(), i - 1);
        assert(pair_map_of(s.remove(i)) =~= pair_map_of(s).remove(pair_key(s[i])));
    }
}

/// A unique-key association table from a pair of string keys to a
/// TTL-stamped value.
pub struct PairTable<V> {
    entries: Vec<PairEntry<V>>,
}

impl<V> View for PairTable<V> {
    type V = Map<(Seq<char>, Seq<char>), (u64, V)>;

    closed spec fn view(&self) -> Map<(Seq<char>, Seq<char>), (u64, V)> {
        pair_map_of(self.entries@)
    }
}

impl<V> PairTable<V> {
    pub closed spec fn wf(self) -> bool {
        pair_keys_unique(self.entries@)
    }

    pub fn new() -> (t: PairTable<V>)
        ensures
            t.wf(),
            t@ == Map::<(Seq<char>, Seq<char>), (u64, V)>::empty(),
    {
        PairTable { entries: Vec::new() }
    }

    fn index_of(&self, ka: &str, kb: &str) -> (r: Option<usize>)
        ensures
            (match r {
                Some(i) => i < self.entries@.len() && pair_key(self.entries@[i as int]) == (
                    ka@,
                    kb@,
                ),
                None => forall|i: int|
                    0 <= i < self.entries@.len() ==> pair_key(self.entries@[i]) != (ka@, kb@),
            }),
    {
        let n = self.entries.len();
        let mut i: usize = 0;
        while i < n
            invariant
                i <= n,
                n == self.entries@.len(),
                forall|j: int| 0 <= j < i ==> pair_key(self.entries@[j]) != (ka@, kb@),
            decreases n - i,
        {
            if str_eq(self.entries[i].key_a.as_str(), ka) && str_eq(
                self.entries[i].key_b.as_str(),
                kb,
            ) {
                return Some(i);
            }
            i += 1;
        }
        None
    }

    pub fn contains(&self, ka: &str, kb: &str) -> (r: bool)
        requires
            self.wf(),
        ensures
            r == self@.contains_key((ka@, kb@)),
    {
        match self.index_of(ka, kb) {
            Some(i) => {
                proof {
                    lemma_pair_found(self.entries@, (ka@, kb@), i as int);
                }
                true
            },
            None => {
                proof {
                    lemma_pair_absent(self.entries@, (ka@, kb@));
                }
                false
            },
        }
    }

    pub fn get<'a>(&'a self, ka: &str, kb: &str) -> (r: Option<&'a V>)
        requires
            self.wf(),
        ensures
            (match r {
                Some(v) => self@.contains_key((ka@, kb@)) && *v == self@[(ka@, kb@)].1,
                None => !self@.contains_key((ka@, kb@)),
            }),
    {
        match self.index_of(ka, kb) {
            Some(i) => {
                proof {
                    lemma_pair_found(self.entries@, (ka@, kb@), i as int);
                }
                Some(&self.entries[i].value)
            },
            None => {
                proof {
                    lemma_pair_absent(self.entries@, (ka@, kb@));
                }
                None
            },
        }
    }

    /// Remove and return the entry under `(ka, kb)`, if any.
    pub fn take(&mut self, ka: &str, kb: &str) -> (r: Option<(u64, V)>)
        requires
            old(self).wf(),
        ensures
            final(self).wf(),
            (match r {
                Some(dv) => old(self)@.contains_key((ka@, kb@)) && dv == old(self)@[(ka@, kb@)]
                    && final(self)@ == old(self)@.remove((ka@, kb@)),
                None => !old(self)@.contains_key((ka@, kb@)) && *final(self) == *old(self),
            }),
    {
        match self.index_of(ka, kb) {
            Some(i) => {
                proof {
                    lemma_pair_found(self.entries@, (ka@, kb@), i as int);
                    lemma_pair_remove(self.entries@, i as int);
                }
                let e = self.entries.remove(i);
                Some((e.deadline, e.value))
            },
            None => {
                proof {
                    lemma_pair_absent(self.entries@, (ka@, kb@));
                }
                None
            },
        }
    }

    /// Bind `(ka, kb)` to `v` with the given expiry deadline, replacing any
    /// previous binding.
    pub fn set(&mut self, ka: &str, kb: &str, deadline: u64, v: V)
        requires
            old(self).wf(),
        ensures
            final(self).wf(),
            final(self)@ == old(self)@.insert((ka@, kb@), (deadline, v)),
    {
        self.take(ka, kb);
        let e = PairEntry { key_a: ka.to_owned(), key_b: kb.to_owned(), deadline, value: v };
        proof {
            lemma_pair_push(self.entries@, e);
            lemma_pair_unique_push(self.entries@, e);
        }
        self.entries.push(e);
        proof {
            assert(self@ =~= old(self)@.insert((ka@, kb@), (deadline, v)));
        }
    }

    /// Drops every entry whose deadline has passed: the backing store's
    /// expiry sweep, at second `now`.
    pub fn purge(&mut self, now: u64)
        requires
            old(self).wf(),
        ensures
            final(self).wf(),
            forall|key: (Seq<char>, Seq<char>)| #[trigger]
                final(self)@.contains_key(key) <==> (old(self)@.contains_key(key) && old(
                    self,
                )@[key].0 > now),
            forall|key: (Seq<char>, Seq<char>)| #[trigger]
                final(self)@.contains_key(key) ==> final(self)@[key] == old(self)@[key],
    {
        let ghost s0 = self.entries@;
        let ghost n = s0.len() as int;
        let mut kept: Vec<PairEntry<V>> = Vec::new();
        let ghost mut k: int = 0;
        while self.entries.len() > 0
            invariant
                pair_keys_unique(s0),
                0 <= k <= n,
                n == s0.len(),
                self.entries@ == s0.subrange(k, n),
                pair_keys_unique(kept@),
                forall|x: (Seq<char>, Seq<char>)| #[trigger]
                    pair_map_of(kept@).contains_key(x) ==> exists|i: int|
                        0 <= i < k && pair_key(s0[i]) == x && s0[i].deadline > now,
                forall|i: int|
                    0 <= i < k && s0[i].deadline > now ==> pair_map_of(kept@).contains_key(
                        #[trigger] pair_key(s0[i]),
                    ) && pair_map_of(kept@)[pair_key(s0[i])] == (s0[i].deadline, s0[i].value),
            decreases self.entries@.len(),
        {
            let e = self.entries.remove(0);
            proof {
                assert(e == s0[k]);
                assert(self.entries@ =~= s0.subrange(k + 1, n));
            }
            if e.deadline > now {
                proof {
                    if pair_map_of(kept@).contains_key(pair_key(e)) {
                        let i = choose|i: int|
                            0 <= i < k && pair_key(s0[i]) == pair_key(e) && s0[i].deadline > now;
                        assert(pair_key(s0[i]) != pair_key(s0[k]));
                        assert(false);
                    }
                    lemma_pair_push(kept@, e);
                    lemma_pair_unique_push(kept@, e);
                }
                kept.push(e);
            }
            proof {
                k = k + 1;
            }
        }
        self.entries = kept;
        proof {
            assert forall|x: (Seq<char>, Seq<char>)| #[trigger]
                self@.contains_key(x) implies (pair_map_of(s0).contains_key(x) && pair_map_of(
                s0,
            )[x].0 > now && self@[x] == pair_map_of(s0)[x]) by {
                let i = choose|i: int| 0 <= i < k && pair_key(s0[i]) == x && s0[i].deadline > now;
                lemma_pair_found(s0, x, i);
            }
            assert forall|x: (Seq<char>, Seq<char>)|
                pair_map_of(s0).contains_key(x) && pair_map_of(s0)[x].0 > now implies #[trigger] self@.contains_key(
                x,
            ) by {
                lemma_pair_contains_index(s0, x);
                let i = choose|i: int| 0 <= i < s0.len() && pair_key(s0[i]) == x;
                lemma_pair_found(s0, x, i);
            }
        }
    }
}

} // verus!
