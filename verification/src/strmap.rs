//! An insertion-ordered map keyed by strings.
//!
//! Keys are compared by their characters.  A key that is inserted again keeps
//! its place; removing a key shifts the later entries down.  The abstract
//! view is a `Map` from key characters to values; `pairs` gives the ordered
//! entries.
use crate::text::str_eq;
use vstd::prelude::*;

verus! {

/// Whether the keys of `s` are pairwise distinct.
pub open spec fn distinct_keys<V>(s: Seq<(Seq<char>, V)>) -> bool {
    forall|i: int, j: int|
        0 <= i < s.len() && 0 <= j < s.len() && i != j ==> #[trigger] s[i].0 != #[trigger] s[j].0
}

/// Whether `k` is the key of some entry of `s`.
pub open spec fn has_key<V>(s: Seq<(Seq<char>, V)>, k: Seq<char>) -> bool {
    exists|i: int| 0 <= i < s.len() && #[trigger] s[i].0 == k
}

/// The position of key `k` in `s` (meaningful when `has_key(s, k)`).
pub open spec fn key_pos<V>(s: Seq<(Seq<char>, V)>, k: Seq<char>) -> int {
    choose|i: int| 0 <= i < s.len() && #[trigger] s[i].0 == k
}

/// The map that an entry sequence stands for.
pub open spec fn map_of<V>(s: Seq<(Seq<char>, V)>) -> Map<Seq<char>, V> {
    Map::new(|k: Seq<char>| has_key(s, k), |k: Seq<char>| s[key_pos(s, k)].1)
}

/// The entries after inserting `(k, v)`: an existing key keeps its place and
/// takes the new value; a new key goes last.
pub open spec fn insert_entry<V>(s: Seq<(Seq<char>, V)>, k: Seq<char>, v: V) -> Seq<(Seq<char>, V)> {
    if has_key(s, k) {
        s.update(key_pos(s, k), (k, v))
    } else {
        s.push((k, v))
    }
}

/// The entries after removing key `k`; later entries keep their order.
pub open spec fn remove_entry<V>(s: Seq<(Seq<char>, V)>, k: Seq<char>) -> Seq<(Seq<char>, V)> {
    if has_key(s, k) {
        s.remove(key_pos(s, k))
    } else {
        s
    }
}

pub proof fn lemma_key_pos<V>(s: Seq<(Seq<char>, V)>, k: Seq<char>, i: int)
    requires
        distinct_keys(s),
        0 <= i < s.len(),
        s[i].0 == k,
    ensures
        has_key(s, k),
        key_pos(s, k) == i,
{
    assert(has_key(s, k));
    let j = key_pos(s, k);
    assert(s[j].0 == k);
}

/// Changing the value at a position is inserting under that position's key.
pub proof fn lemma_update_at<V>(s: Seq<(Seq<char>, V)>, i: int, v: V)
    requires
        distinct_keys(s),
        0 <= i < s.len(),
    ensures
        s.update(i, (s[i].0, v)) == insert_entry(s, s[i].0, v),
        distinct_keys(s.update(i, (s[i].0, v))),
        map_of(s.update(i, (s[i].0, v))) == map_of(s).insert(s[i].0, v),
{
    lemma_key_pos(s, s[i].0, i);
    lemma_insert_entry(s, s[i].0, v);
}

pub proof fn lemma_insert_entry<V>(s: Seq<(Seq<char>, V)>, k: Seq<char>, v: V)
    requires
        distinct_keys(s),
    ensures
        distinct_keys(insert_entry(s, k, v)),
        map_of(insert_entry(s, k, v)) == map_of(s).insert(k, v),
{
    let t = insert_entry(s, k, v);
    if has_key(s, k) {
        let p = key_pos(s, k);
        assert(s[p].0 == k);
        assert(distinct_keys(t));
        assert forall|x: Seq<char>| #[trigger] has_key(t, x) == (has_key(s, x) || x == k) by {
            if has_key(s, x) {
                let i = key_pos(s, x);
                assert(t[i].0 == x);
            }
            if has_key(t, x) {
                let i = key_pos(t, x);
                if i != p {
                    assert(s[i].0 == x);
                }
            }
        }
        assert forall|x: Seq<char>| has_key(t, x) implies #[trigger] t[key_pos(t, x)].1 == map_of(
            s,
        ).insert(k, v)[x] by {
            let i = key_pos(t, x);
            if x == k {
                lemma_key_pos(t, k, p);
            } else {
                assert(i != p);
                assert(s[i].0 == x);
                lemma_key_pos(s, x, i);
            }
        }
        assert(map_of(t) =~= map_of(s).insert(k, v));
    } else {
        let n = s.len() as int;
        assert forall|i: int, j: int|
            0 <= i < t.len() && 0 <= j < t.len() && i != j implies #[trigger] t[i].0
            != #[trigger] t[j].0 by {
            if i == n {
                assert(s[j].0 != k);
            } else if j == n {
                assert(s[i].0 != k);
            }
        }
        assert forall|x: Seq<char>| #[trigger] has_key(t, x) == (has_key(s, x) || x == k) by {
            if has_key(s, x) {
                let i = key_pos(s, x);
                assert(t[i].0 == x);
            }
            if x == k {
                assert(t[n].0 == k);
            }
            if has_key(t, x) {
                let i = key_pos(t, x);
                if i != n {
                    assert(s[i].0 == x);
                }
            }
        }
        assert forall|x: Seq<char>| has_key(t, x) implies #[trigger] t[key_pos(t, x)].1 == map_of(
            s,
        ).insert(k, v)[x] by {
            if x == k {
                lemma_key_pos(t, k, n);
            } else {
                let i = key_pos(t, x);
                assert(i != n);
                assert(s[i].0 == x);
                lemma_key_pos(s, x, i);
            }
        }
        assert(map_of(t) =~= map_of(s).insert(k, v));
    }
}

pub proof fn lemma_remove_entry<V>(s: Seq<(Seq<char>, V)>, k: Seq<char>)
    requires
        distinct_keys(s),
    ensures
        distinct_keys(remove_entry(s, k)),
        map_of(remove_entry(s, k)) == map_of(s).remove(k),
{
    let t = remove_entry(s, k);
    if has_key(s, k) {
        let p = key_pos(s, k);
        assert(s[p].0 == k);
        assert forall|i: int| 0 <= i < t.len() implies #[trigger] t[i] == (if i < p {
            s[i]
        } else {
            s[i + 1]
        }) by {}
        assert(distinct_keys(t)) by {
            assert forall|i: int, j: int|
                0 <= i < t.len() && 0 <= j < t.len() && i != j implies #[trigger] t[i].0
                != #[trigger] t[j].0 by {
                let si = if i < p {
                    i
                } else {
                    i + 1
                };
                let sj = if j < p {
                    j
                } else {
                    j + 1
                };
                assert(t[i] == s[si]);
                assert(t[j] == s[sj]);
            }
        }
        assert forall|x: Seq<char>| #[trigger] has_key(t, x) == (has_key(s, x) && x != k) by {
            if has_key(s, x) && x != k {
                let i = key_pos(s, x);
                assert(i != p);
                if i < p {
                    assert(t[i].0 == x);
                } else {
                    assert(t[i - 1].0 == x);
                }
            }
            if has_key(t, x) {
                let i = key_pos(t, x);
                let si = if i < p {
                    i
                } else {
                    i + 1
                };
                assert(t[i] == s[si]);
                assert(si != p);
            }
        }
        assert forall|x: Seq<char>| has_key(t, x) implies #[trigger] t[key_pos(t, x)].1 == map_of(
            s,
        ).remove(k)[x] by {
            let i = key_pos(t, x);
            let si = if i < p {
                i
            } else {
                i + 1
            };
            assert(t[i] == s[si]);
            lemma_key_pos(s, x, si);
        }
        assert(map_of(t) =~= map_of(s).remove(k));
    } else {
        assert(map_of(t) =~= map_of(s).remove(k));
    }
}

/// The keys of an entry sequence, in order.
pub open spec fn keys_of<V>(s: Seq<(Seq<char>, V)>) -> Seq<Seq<char>> {
    s.map_values(|e: (Seq<char>, V)| e.0)
}

pub proof fn lemma_keys_of<V>(s: Seq<(Seq<char>, V)>)
    requires
        distinct_keys(s),
    ensures
        keys_of(s).no_duplicates(),
        keys_of(s).len() == s.len(),
        keys_of(s).to_set() == map_of(s).dom(),
        map_of(s).dom().finite(),
        map_of(s).len() == s.len(),
{
    let ks = keys_of(s);
    assert(ks.no_duplicates()) by {
        assert forall|i: int, j: int| 0 <= i < ks.len() && 0 <= j < ks.len() && i != j implies ks[i] != ks[j] by {
            assert(ks[i] == s[i].0);
            assert(ks[j] == s[j].0);
        }
    }
    assert forall|k: Seq<char>| #[trigger] ks.to_set().contains(k) == map_of(s).dom().contains(k) by {
        if ks.contains(k) {
            let i = choose|i: int| 0 <= i < ks.len() && ks[i] == k;
            assert(s[i].0 == k);
        }
        if has_key(s, k) {
            let i = choose|i: int| 0 <= i < s.len() && #[trigger] s[i].0 == k;
            assert(ks[i] == k);
        }
    }
    assert(ks.to_set() =~= map_of(s).dom());
    ks.unique_seq_to_set();
}

/// An insertion-ordered map from strings to `V`.
#[derive(Debug, Clone)]
pub struct StrMap<V> {
    entries: Vec<(String, V)>,
}

impl<V> View for StrMap<V> {
    type V = Map<Seq<char>, V>;

    open spec fn view(&self) -> Map<Seq<char>, V> {
        map_of(self.pairs())
    }
}

impl<V> StrMap<V> {
    /// The entries in order, keys taken by their characters.
    pub closed spec fn pairs(&self) -> Seq<(Seq<char>, V)> {
        self.entries@.map_values(|e: (String, V)| (e.0@, e.1))
    }

    /// Keys are pairwise distinct.
    pub open spec fn wf(&self) -> bool {
        distinct_keys(self.pairs())
    }

    pub proof fn lemma_len(&self)
        requires
            self.wf(),
        ensures
            self@.dom().finite(),
            self@.len() == self.pairs().len(),
    {
        lemma_keys_of(self.pairs());
    }

    pub proof fn lemma_keys_distinct(&self)
        requires
            self.wf(),
        ensures
            keys_of(self.pairs()).no_duplicates(),
            keys_of(self.pairs()).to_set() == self@.dom(),
    {
        lemma_keys_of(self.pairs());
    }

    /// An empty map.
    pub fn new() -> (m: Self)
        ensures
            m.wf(),
            m.pairs() == Seq::<(Seq<char>, V)>::empty(),
            m@ == Map::<Seq<char>, V>::empty(),
    {
        let m = StrMap { entries: Vec::new() };
        assert(m.pairs() =~= Seq::<(Seq<char>, V)>::empty());
        assert(m@ =~= Map::<Seq<char>, V>::empty());
        m
    }

    /// Number of entries.
    pub fn len(&self) -> (n: usize)
        ensures
            n == self.pairs().len(),
    {
        self.entries.len()
    }

    /// Whether there are no entries.
    pub fn is_empty(&self) -> (b: bool)
        ensures
            b == (self.pairs().len() == 0),
    {
        self.entries.len() == 0
    }

    /// The position of key `k`, if present.
    fn position(&self, k: &str) -> (r: Option<usize>)
        requires
            self.wf(),
        ensures
            match r {
                Some(i) => i < self.pairs().len() && self.pairs()[i as int].0 == k@ && has_key(
                    self.pairs(),
                    k@,
                ) && key_pos(self.pairs(), k@) == i,
                None => !has_key(self.pairs(), k@),
            },
    {
        let mut i: usize = 0;
        while i < self.entries.len()
            invariant
                i <= self.entries.len(),
                self.wf(),
                forall|j: int| 0 <= j < i ==> #[trigger] self.pairs()[j].0 != k@,
            decreases self.entries.len() - i,
        {
            if str_eq(self.entries[i].0.as_str(), k) {
                proof {
                    lemma_key_pos(self.pairs(), k@, i as int);
                }
                return Some(i);
            }
            assert(self.pairs()[i as int].0 != k@);
            i = i + 1;
        }
        proof {
            if has_key(self.pairs(), k@) {
                let j = key_pos(self.pairs(), k@);
                assert(self.pairs()[j].0 == k@);
            }
        }
        None
    }

    /// The position of key `k` in the order, if present.
    pub fn find(&self, k: &str) -> (r: Option<usize>)
        requires
            self.wf(),
        ensures
            match r {
                Some(i) => i < self.pairs().len() && self.pairs()[i as int].0 == k@
                    && self@.contains_key(k@),
                None => !self@.contains_key(k@),
            },
    {
        self.position(k)
    }

    /// The value at position `i`, for changing it in place.
    pub fn value_at_mut(&mut self, i: usize) -> (r: &mut V)
        requires
            old(self).wf(),
            i < old(self).pairs().len(),
        ensures
            *r == old(self).pairs()[i as int].1,
            final(self).pairs() == old(self).pairs().update(
                i as int,
                (old(self).pairs()[i as int].0, *final(r)),
            ),
    {
        &mut self.entries[i].1
    }

    /// After the value at position `i` was changed in place: the map holds
    /// the new value under that position's key, and nothing else changed.
    pub proof fn lemma_set_at(old_map: &Self, new_map: &Self, i: int, v: V)
        requires
            old_map.wf(),
            0 <= i < old_map.pairs().len(),
            new_map.pairs() == old_map.pairs().update(i, (old_map.pairs()[i].0, v)),
        ensures
            new_map.wf(),
            new_map@ == old_map@.insert(old_map.pairs()[i].0, v),
            old_map@.contains_key(old_map.pairs()[i].0),
            keys_of(new_map.pairs()) == keys_of(old_map.pairs()),
    {
        lemma_update_at(old_map.pairs(), i, v);
        lemma_key_pos(old_map.pairs(), old_map.pairs()[i].0, i);
        assert(keys_of(new_map.pairs()) =~= keys_of(old_map.pairs()));
    }

    /// Whether key `k` is present.
    pub fn contains_key(&self, k: &str) -> (b: bool)
        requires
            self.wf(),
        ensures
            b == self@.contains_key(k@),
    {
        self.position(k).is_some()
    }

    /// The value stored under `k`.
    pub fn get(&self, k: &str) -> (r: Option<&V>)
        requires
            self.wf(),
        ensures
            match r {
                Some(v) => self@.contains_key(k@) && *v == self@[k@],
                None => !self@.contains_key(k@),
            },
    {
        match self.position(k) {
            Some(i) => Some(&self.entries[i].1),
            None => None,
        }
    }

    /// Stores `v` under `k`, returning the value it replaces.
    pub fn insert(&mut self, k: String, v: V) -> (r: Option<V>)
        requires
            old(self).wf(),
        ensures
            final(self).wf(),
            final(self).pairs() == insert_entry(old(self).pairs(), k@, v),
            final(self)@ == old(self)@.insert(k@, v),
            match r {
                Some(o) => old(self)@.contains_key(k@) && o == old(self)@[k@],
                None => !old(self)@.contains_key(k@),
            },
    {
        let ghost before = self.pairs();
        proof {
            lemma_insert_entry(before, k@, v);
        }
        match self.position(k.as_str()) {
            Some(i) => {
                let ghost kk = k@;
                let ghost vv = v;
                let old_entry = self.entries.remove(i);
                self.entries.insert(i, (k, v));
                assert(self.pairs() =~= before.update(i as int, (kk, vv)));
                Some(old_entry.1)
            },
            None => {
                self.entries.push((k, v));
                assert(self.pairs() =~= before.push((k@, v)));
                None
            },
        }
    }

    /// Removes key `k`, returning its value.
    pub fn remove(&mut self, k: &str) -> (r: Option<V>)
        requires
            old(self).wf(),
        ensures
            final(self).wf(),
            final(self).pairs() == remove_entry(old(self).pairs(), k@),
            final(self)@ == old(self)@.remove(k@),
            match r {
                Some(o) => old(self)@.contains_key(k@) && o == old(self)@[k@],
                None => !old(self)@.contains_key(k@),
            },
    {
        let ghost before = self.pairs();
        proof {
            lemma_remove_entry(before, k@);
        }
        match self.position(k) {
            Some(i) => {
                let e = self.entries.remove(i);
                assert(self.pairs() =~= before.remove(i as int));
                Some(e.1)
            },
            None => None,
        }
    }

    /// Removes every entry.
    pub fn clear(&mut self)
        ensures
            final(self).wf(),
            final(self).pairs() == Seq::<(Seq<char>, V)>::empty(),
            final(self)@ == Map::<Seq<char>, V>::empty(),
    {
        self.entries.clear();
        assert(self.pairs() =~= Seq::<(Seq<char>, V)>::empty());
        assert(self@ =~= Map::<Seq<char>, V>::empty());
    }

    /// The entries, in order.
    pub fn entries(&self) -> (r: &Vec<(String, V)>)
        ensures
            r@.map_values(|e: (String, V)| (e.0@, e.1)) == self.pairs(),
    {
        &self.entries
    }

    /// Removes every key of `keys`.
    pub fn remove_all(&mut self, keys: &Vec<String>)
        requires
            old(self).wf(),
        ensures
            final(self).wf(),
            final(self)@ == old(self)@.remove_keys(keys@.map_values(|k: String| k@).to_set()),
    {
        let ghost start = self@;
        let ghost ks = keys@.map_values(|k: String| k@);
        let mut i: usize = 0;
        while i < keys.len()
            invariant
                i <= keys.len(),
                self.wf(),
                ks == keys@.map_values(|k: String| k@),
                self@ == start.remove_keys(ks.subrange(0, i as int).to_set()),
            decreases keys.len() - i,
        {
            let _ = self.remove(keys[i].as_str());
            proof {
                let a = ks.subrange(0, i + 1);
                let b = ks.subrange(0, i as int);
                assert forall|x: Seq<char>| #[trigger] a.to_set().contains(x) == b.to_set().insert(ks[i as int]).contains(x) by {
                    if a.contains(x) {
                        let j = choose|j: int| 0 <= j < a.len() && a[j] == x;
                        if j < i {
                            assert(b[j] == x);
                        }
                    }
                    if b.contains(x) {
                        let j = choose|j: int| 0 <= j < b.len() && b[j] == x;
                        assert(a[j] == x);
                    }
                    if x == ks[i as int] {
                        assert(a[i as int] == x);
                    }
                }
                assert(a.to_set() =~= b.to_set().insert(ks[i as int]));
            }
            assert(self@ =~= start.remove_keys(ks.subrange(0, i + 1).to_set()));
            i = i + 1;
        }
        assert(ks.subrange(0, i as int) =~= ks);
    }

    /// The first key in order, if any.
    pub fn first_key(&self) -> (r: Option<String>)
        ensures
            match r {
                Some(k) => self.pairs().len() > 0 && k@ == self.pairs()[0].0,
                None => self.pairs().len() == 0,
            },
    {
        if self.entries.len() == 0 {
            None
        } else {
            Some(self.entries[0].0.clone())
        }
    }

    /// The keys, in order.
    pub fn keys(&self) -> (r: Vec<String>)
        ensures
            r@.len() == self.pairs().len(),
            forall|i: int| 0 <= i < r@.len() ==> #[trigger] r@[i]@ == self.pairs()[i].0,
    {
        let mut r: Vec<String> = Vec::new();
        let mut i: usize = 0;
        while i < self.entries.len()
            invariant
                i <= self.entries.len(),
                r@.len() == i,
                forall|j: int| 0 <= j < i ==> #[trigger] r@[j]@ == self.pairs()[j].0,
            decreases self.entries.len() - i,
        {
            r.push(self.entries[i].0.clone());
            i = i + 1;
        }
        r
    }
}

} // verus!
