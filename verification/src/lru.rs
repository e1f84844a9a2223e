//! A bounded map with least-recently-used eviction.
//!
//! Entries are kept in recency order, least recently accessed first. The
//! maximum entry count is fixed at construction; inserting beyond it evicts
//! the least recently accessed entry, and a lookup of a present key counts
//! as an access and refreshes its recency.

use vstd::prelude::*;

verus! {

/// Relies on `str`'s `PartialEq` implementation: string slices compare
/// equal exactly when their character sequences are equal.
pub assume_specification[ <str as PartialEq>::eq ](a: &str, b: &str) -> (r: bool)
    ensures
        r == (a@ == b@),
;

/// Whether the association sequence holds the key.
pub open spec fn lru_contains<M>(s: Seq<(Seq<char>, M)>, k: Seq<char>) -> bool {
    exists|i: int| 0 <= i < s.len() && s[i].0 == k
}

/// The position of the key in the association sequence.
pub open spec fn lru_index_of<M>(s: Seq<(Seq<char>, M)>, k: Seq<char>) -> int {
    choose|i: int| 0 <= i < s.len() && s[i].0 == k
}

/// The value the association sequence holds for the key.
pub open spec fn lru_value<M>(s: Seq<(Seq<char>, M)>, k: Seq<char>) -> M {
    s[lru_index_of(s, k)].1
}

/// The association sequence without the key's entry.
pub open spec fn lru_remove<M>(s: Seq<(Seq<char>, M)>, k: Seq<char>) -> Seq<(Seq<char>, M)> {
    if lru_contains(s, k) {
        s.remove(lru_index_of(s, k))
    } else {
        s
    }
}

/// A recency refresh: a lookup of a present key moves its entry to the
/// most-recent end; a lookup of an absent key changes nothing.
pub open spec fn lru_promote<M>(s: Seq<(Seq<char>, M)>, k: Seq<char>) -> Seq<(Seq<char>, M)> {
    if lru_contains(s, k) {
        lru_remove(s, k).push((k, lru_value(s, k)))
    } else {
        s
    }
}

/// An insertion: it replaces a present key's entry (and refreshes its
/// recency); at capacity it evicts the least recently used entry; with
/// capacity zero it retains nothing.
pub open spec fn lru_insert<M>(s: Seq<(Seq<char>, M)>, cap: nat, k: Seq<char>, v: M) -> Seq<
    (Seq<char>, M),
> {
    if cap == 0 {
        Seq::empty()
    } else {
        let without = lru_remove(s, k);
        let bounded = if without.len() >= cap {
            without.drop_first()
        } else {
            without
        };
        bounded.push((k, v))
    }
}

/// Well-formedness of an association sequence under a capacity: the entry
/// count is bounded and no key occurs twice.
pub open spec fn lru_wf<M>(s: Seq<(Seq<char>, M)>, cap: nat) -> bool {
    &&& s.len() <= cap
    &&& forall|i: int, j: int| 0 <= i < j < s.len() ==> s[i].0 != s[j].0
}

/// A bounded map from string keys to values, with least-recently-used
/// eviction. Its model is the association sequence of key and value views,
/// in recency order, least recently accessed first.
pub struct LruMap<V> {
    entries: Vec<(String, V)>,
    capacity: usize,
}

impl<V: View> View for LruMap<V> {
    type V = Seq<(Seq<char>, V::V)>;

    closed spec fn view(&self) -> Seq<(Seq<char>, V::V)> {
        self.entries@.map_values(|p: (String, V)| (p.0@, p.1@))
    }
}

impl<V: View> LruMap<V> {
    /// The maximum entry count, fixed at construction.
    pub closed spec fn cap(&self) -> nat {
        self.capacity as nat
    }

    /// The map's invariant.
    pub open spec fn wf(&self) -> bool {
        lru_wf(self@, self.cap())
    }

    /// Construct an empty map bounded to `capacity` entries.
    pub fn with_capacity(capacity: usize) -> (r: LruMap<V>)
        ensures
            r@ == Seq::<(Seq<char>, V::V)>::empty(),
            r.cap() == capacity,
            r.wf(),
    {
        let r = LruMap { entries: Vec::new(), capacity };
        proof {
            assert(r@ =~= Seq::<(Seq<char>, V::V)>::empty());
        }
        r
    }

    /// The current entry count.
    pub fn len(&self) -> (r: usize)
        ensures
            r == self@.len(),
    {
        self.entries.len()
    }

    /// Evict every entry.
    pub fn clear(&mut self)
        ensures
            final(self)@ == Seq::<(Seq<char>, V::V)>::empty(),
            final(self).cap() == old(self).cap(),
            final(self).wf(),
    {
        self.entries.clear();
        proof {
            assert(self@ =~= Seq::<(Seq<char>, V::V)>::empty());
        }
    }

    /// The position of the key's entry, if the map holds it.
    fn find(&self, key: &str) -> (r: Option<usize>)
        ensures
            match r {
                Some(i) => i < self@.len() && self@[i as int].0 == key@,
                None => !lru_contains(self@, key@),
            },
    {
        let n = self.entries.len();
        let mut i: usize = 0;
        while i < n
            invariant
                n == self@.len(),
                n == self.entries@.len(),
                i <= n,
                forall|j: int| 0 <= j < i ==> self@[j].0 != key@,
            decreases n - i,
        {
            if self.entries[i].0.as_str().eq(key) {
                proof {
                    assert(self@[i as int].0 == self.entries@[i as int].0@);
                }
                return Some(i);
            }
            proof {
                assert(self@[i as int].0 == self.entries@[i as int].0@);
            }
            i = i + 1;
        }
        None
    }

    /// A read-only lookup: no recency refresh.
    pub fn peek(&self, key: &str) -> (r: Option<&V>)
        requires
            self.wf(),
        ensures
            match r {
                Some(v) => lru_contains(self@, key@) && v@ == lru_value(self@, key@),
                None => !lru_contains(self@, key@),
            },
    {
        match self.find(key) {
            Some(i) => {
                let v = &self.entries[i].1;
                proof {
                    lemma_unique_index(self@, key@, i as int);
                    assert(self@[i as int].1 == self.entries@[i as int].1@);
                }
                Some(v)
            },
            None => None,
        }
    }

    /// A recency refresh: report whether the key is present, and move its
    /// entry to the most-recent end if it is.
    pub fn touch(&mut self, key: &str) -> (r: bool)
        requires
            old(self).wf(),
        ensures
            r == lru_contains(old(self)@, key@),
            final(self)@ == lru_promote(old(self)@, key@),
            final(self).cap() == old(self).cap(),
            final(self).wf(),
    {
        match self.find(key) {
            Some(i) => {
                let ghost s0 = self@;
                let ghost e0 = self.entries@;
                proof {
                    lemma_unique_index(s0, key@, i as int);
                }
                let entry = self.entries.remove(i);
                proof {
                    e0.remove_ensures(i as int);
                    s0.remove_ensures(i as int);
                    assert(self@ =~= s0.remove(i as int));
                    lemma_remove_unique(s0, key@);
                }
                self.entries.push(entry);
                proof {
                    assert((entry.0@, entry.1@) == (key@, lru_value(s0, key@)));
                    assert(self@ =~= lru_remove(s0, key@).push((key@, lru_value(s0, key@))));
                    lemma_push_fresh_unique(lru_remove(s0, key@), key@, lru_value(s0, key@));
                }
                true
            },
            None => false,
        }
    }

    /// Insert the key with the value: replace a present key's entry, evict
    /// the least recently used entry at capacity, retain nothing with
    /// capacity zero.
    pub fn insert(&mut self, key: String, value: V)
        requires
            old(self).wf(),
        ensures
            final(self)@ == lru_insert(old(self)@, old(self).cap(), key@, value@),
            final(self).cap() == old(self).cap(),
            final(self).wf(),
    {
        let ghost s0 = self@;
        let ghost cap = self.cap();
        if self.capacity == 0 {
            proof {
                assert(s0 =~= Seq::<(Seq<char>, V::V)>::empty());
                assert(lru_insert(s0, cap, key@, value@) =~= Seq::<(Seq<char>, V::V)>::empty());
            }
            return;
        }
        match self.find(key.as_str()) {
            Some(i) => {
                let ghost e0 = self.entries@;
                proof {
                    lemma_unique_index(s0, key@, i as int);
                }
                self.entries.remove(i);
                proof {
                    e0.remove_ensures(i as int);
                    s0.remove_ensures(i as int);
                    assert(self@ =~= s0.remove(i as int));
                    assert(self@ =~= lru_remove(s0, key@));
                    lemma_remove_unique(s0, key@);
                }
            },
            None => {
                proof {
                    assert(self@ =~= lru_remove(s0, key@));
                }
            },
        }
        if self.entries.len() >= self.capacity {
            let ghost s1 = self@;
            let ghost e1 = self.entries@;
            self.entries.remove(0);
            proof {
                e1.remove_ensures(0);
                s1.remove_ensures(0);
                assert(self@ =~= s1.remove(0));
                assert(s1.remove(0) =~= s1.drop_first());
            }
        }
        let ghost s2 = self@;
        proof {
            assert(s2 =~= if lru_remove(s0, key@).len() >= cap {
                lru_remove(s0, key@).drop_first()
            } else {
                lru_remove(s0, key@)
            });
        }
        self.entries.push((key, value));
        proof {
            assert(self@ =~= s2.push((key@, value@)));
            assert(self@ =~= lru_insert(s0, cap, key@, value@));
            lemma_insert_wf(s0, cap, key@, value@);
        }
    }
}

/// In a sequence with pairwise-distinct keys, an entry that holds the key
/// sits at the key's unique position.
proof fn lemma_unique_index<M>(s: Seq<(Seq<char>, M)>, k: Seq<char>, i: int)
    requires
        forall|x: int, y: int| 0 <= x < y < s.len() ==> s[x].0 != s[y].0,
        0 <= i < s.len(),
        s[i].0 == k,
    ensures
        lru_contains(s, k),
        lru_index_of(s, k) == i,
        lru_value(s, k) == s[i].1,
{
    assert(lru_contains(s, k));
    let j = lru_index_of(s, k);
    assert(0 <= j < s.len() && s[j].0 == k);
    if i < j {
        assert(s[i].0 != s[j].0);
    } else if j < i {
        assert(s[j].0 != s[i].0);
    }
}

/// Removing a key from a sequence with pairwise-distinct keys keeps the
/// remaining keys pairwise distinct and leaves no entry for the key.
proof fn lemma_remove_unique<M>(s: Seq<(Seq<char>, M)>, k: Seq<char>)
    requires
        forall|x: int, y: int| 0 <= x < y < s.len() ==> s[x].0 != s[y].0,
    ensures
        forall|x: int, y: int|
            0 <= x < y < lru_remove(s, k).len() ==> lru_remove(s, k)[x].0 != lru_remove(s, k)[y].0,
        !lru_contains(lru_remove(s, k), k),
        lru_remove(s, k).len() == if lru_contains(s, k) {
            s.len() - 1
        } else {
            s.len() as int
        },
{
    if lru_contains(s, k) {
        let i = lru_index_of(s, k);
        assert(0 <= i < s.len() && s[i].0 == k);
        lemma_unique_index(s, k, i);
        s.remove_ensures(i);
        let r = s.remove(i);
        assert forall|x: int, y: int| 0 <= x < y < r.len() implies r[x].0 != r[y].0 by {
            assert(r[x] == if x < i {
                s[x]
            } else {
                s[x + 1]
            });
            assert(r[y] == if y < i {
                s[y]
            } else {
                s[y + 1]
            });
        }
        assert forall|x: int| 0 <= x < r.len() implies r[x].0 != k by {
            assert(r[x] == if x < i {
                s[x]
            } else {
                s[x + 1]
            });
        }
    }
}

/// Pushing an entry for a key that the sequence does not hold keeps the
/// keys pairwise distinct.
proof fn lemma_push_fresh_unique<M>(s: Seq<(Seq<char>, M)>, k: Seq<char>, v: M)
    requires
        forall|x: int, y: int| 0 <= x < y < s.len() ==> s[x].0 != s[y].0,
        !lru_contains(s, k),
    ensures
        forall|x: int, y: int|
            0 <= x < y < s.push((k, v)).len() ==> s.push((k, v))[x].0 != s.push((k, v))[y].0,
{
    let p = s.push((k, v));
    assert forall|x: int, y: int| 0 <= x < y < p.len() implies p[x].0 != p[y].0 by {
        if y < s.len() {
            assert(p[x] == s[x] && p[y] == s[y]);
        } else {
            assert(p[y] == (k, v));
            assert(p[x] == s[x]);
            assert(!(s[x].0 == k));
        }
    }
}

/// Insertion preserves well-formedness.
proof fn lemma_insert_wf<M>(s: Seq<(Seq<char>, M)>, cap: nat, k: Seq<char>, v: M)
    requires
        lru_wf(s, cap),
    ensures
        lru_wf(lru_insert(s, cap, k, v), cap),
{
    if cap == 0 {
    } else {
        lemma_remove_unique(s, k);
        let without = lru_remove(s, k);
        let bounded = if without.len() >= cap {
            without.drop_first()
        } else {
            without
        };
        assert forall|x: int, y: int| 0 <= x < y < bounded.len() implies bounded[x].0
            != bounded[y].0 by {
            if without.len() >= cap {
                assert(bounded[x] == without[x + 1] && bounded[y] == without[y + 1]);
            }
        }
        assert(!lru_contains(bounded, k)) by {
            if without.len() >= cap {
                assert forall|x: int| 0 <= x < bounded.len() implies bounded[x].0 != k by {
                    assert(bounded[x] == without[x + 1]);
                    assert(!lru_contains(without, k));
                }
            }
        }
        lemma_push_fresh_unique(bounded, k, v);
        assert(lru_insert(s, cap, k, v).len() <= cap);
    }
}

/// A recency refresh preserves well-formedness, the entry count, which
/// keys are held, and the value held for the refreshed key.
pub proof fn lemma_promote_properties<M>(s: Seq<(Seq<char>, M)>, cap: nat, k: Seq<char>)
    requires
        lru_wf(s, cap),
    ensures
        lru_wf(lru_promote(s, k), cap),
        lru_promote(s, k).len() == s.len(),
        forall|k2: Seq<char>|
            lru_contains(lru_promote(s, k), k2) == #[trigger] lru_contains(s, k2),
        lru_contains(s, k) ==> lru_value(lru_promote(s, k), k) == lru_value(s, k),
{
    if lru_contains(s, k) {
        let i = lru_index_of(s, k);
        assert(0 <= i < s.len() && s[i].0 == k);
        lemma_unique_index(s, k, i);
        s.remove_ensures(i);
        lemma_remove_unique(s, k);
        let rem = s.remove(i);
        let p = lru_promote(s, k);
        assert(p == rem.push((k, s[i].1)));
        lemma_push_fresh_unique(rem, k, s[i].1);
        assert(p[p.len() - 1] == (k, s[i].1));
        lemma_unique_index(p, k, p.len() - 1);
        assert forall|k2: Seq<char>|
            lru_contains(p, k2) == #[trigger] lru_contains(s, k2) by {
            if lru_contains(s, k2) {
                let j = lru_index_of(s, k2);
                assert(0 <= j < s.len() && s[j].0 == k2);
                if j == i {
                    assert(p[p.len() - 1].0 == k2);
                } else if j < i {
                    assert(p[j] == s[j]);
                } else {
                    assert(p[j - 1] == s[j]);
                }
                assert(lru_contains(p, k2));
            }
            if lru_contains(p, k2) {
                let j = choose|j: int| 0 <= j < p.len() && p[j].0 == k2;
                if j == p.len() - 1 {
                    assert(s[i].0 == k2);
                } else {
                    assert(p[j] == if j < i {
                        s[j]
                    } else {
                        s[j + 1]
                    });
                }
                assert(lru_contains(s, k2));
            }
        }
    }
}

/// With a nonzero capacity, an insertion always leaves the map holding the
/// inserted key with the inserted value.
pub proof fn lemma_insert_properties<M>(s: Seq<(Seq<char>, M)>, cap: nat, k: Seq<char>, v: M)
    requires
        lru_wf(s, cap),
        cap > 0,
    ensures
        lru_wf(lru_insert(s, cap, k, v), cap),
        lru_contains(lru_insert(s, cap, k, v), k),
        lru_value(lru_insert(s, cap, k, v), k) == v,
{
    lemma_insert_wf(s, cap, k, v);
    let r = lru_insert(s, cap, k, v);
    assert(r[r.len() - 1] == (k, v));
    lemma_unique_index(r, k, r.len() - 1);
}

/// An emptied map holds no key at all: after a full clear, no lookup can
/// succeed for any key.
pub proof fn lemma_cleared_holds_nothing<M>(k: Seq<char>)
    ensures
        !lru_contains(Seq::<(Seq<char>, M)>::empty(), k),
{
}

/// Least-recently-used eviction: inserting a fresh key into a full map
/// evicts exactly the least recently accessed entry — the fresh key and
/// every other entry remain, the oldest is gone.
pub proof fn lemma_lru_insert_evicts_oldest<M>(s: Seq<(Seq<char>, M)>, cap: nat, k: Seq<char>, v: M)
    requires
        lru_wf(s, cap),
        s.len() == cap,
        cap > 0,
        !lru_contains(s, k),
    ensures
        lru_contains(lru_insert(s, cap, k, v), k),
        !lru_contains(lru_insert(s, cap, k, v), s[0].0),
        forall|j: int|
            1 <= j < s.len() ==> lru_contains(lru_insert(s, cap, k, v), #[trigger] s[j].0),
{
    let r = lru_insert(s, cap, k, v);
    assert(lru_remove(s, k) == s);
    assert(r =~= s.drop_first().push((k, v)));
    assert(r[r.len() - 1] == (k, v));
    assert(lru_contains(r, k));
    assert forall|x: int| 0 <= x < r.len() implies r[x].0 != s[0].0 by {
        if x < r.len() - 1 {
            assert(r[x] == s[x + 1]);
        } else {
            assert(r[x] == (k, v));
        }
    }
    assert forall|j: int| 1 <= j < s.len() implies lru_contains(r, #[trigger] s[j].0) by {
        assert(r[j - 1] == s[j]);
    }
}

/// With capacity zero nothing is ever retained: any insertion leaves the
/// map empty.
pub proof fn lemma_capacity_zero_retains_nothing<M>(s: Seq<(Seq<char>, M)>, k: Seq<char>, v: M)
    ensures
        lru_insert(s, 0, k, v) == Seq::<(Seq<char>, M)>::empty(),
{
}

} // verus!
