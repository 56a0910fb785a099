//! A TTL read-through cache. Entries carry the instant they were stamped at
//! insertion; a read is a hit only while the age is under the TTL. Expired
//! entries are swept only by an explicit call, never by a read.

use vstd::prelude::*;

use crate::seq_lemmas::lemma_filter_preserves_pairwise;
use crate::text::string_eq_str;

verus! {

/// One cached value with its insertion instant (unix milliseconds).
pub struct CacheEntry<V> {
    pub key: String,
    pub value: V,
    pub inserted_at: i64,
}

/// Whether an entry is still valid at `now`: strictly less than the TTL has
/// elapsed since it was stamped.
pub open spec fn entry_valid<V>(e: CacheEntry<V>, ttl_ms: i64, now_ms: i64) -> bool {
    now_ms < e.inserted_at + ttl_ms
}

pub open spec fn cache_has_key<V>(entries: Seq<CacheEntry<V>>, key: Seq<char>) -> bool {
    exists|k: int| 0 <= k < entries.len() && entries[k].key@ == key
}

/// The validity test at one instant, as a function value for `filter`.
pub open spec fn valid_pred<V>(ttl_ms: i64, now_ms: i64) -> spec_fn(CacheEntry<V>) -> bool {
    |e: CacheEntry<V>| entry_valid(e, ttl_ms, now_ms)
}

/// Keys are unique.
pub open spec fn cache_wf<V>(entries: Seq<CacheEntry<V>>) -> bool {
    forall|i: int, j: int| 0 <= i < j < entries.len() ==> entries[i].key@ != entries[j].key@
}

/// A well-formed cache has unique keys and a non-negative TTL.
pub proof fn lemma_cache_wf_exports<V>(c: TimedCache<V>)
    requires
        c.wf(),
    ensures
        cache_wf(c.entries()),
        c.ttl() >= 0,
{
}

/// The TTL cache. Time comes in from the caller as unix milliseconds, so
/// every contract here speaks about the same clock the caller reads.
pub struct TimedCache<V> {
    entries: Vec<CacheEntry<V>>,
    ttl_ms: i64,
}

impl<V> TimedCache<V> {
    pub closed spec fn entries(&self) -> Seq<CacheEntry<V>> {
        self.entries@
    }

    pub closed spec fn ttl(&self) -> i64 {
        self.ttl_ms
    }

    pub closed spec fn wf(&self) -> bool {
        cache_wf(self.entries@) && self.ttl_ms >= 0
    }

    pub fn new(ttl_ms: i64) -> (r: TimedCache<V>)
        requires
            ttl_ms >= 0,
        ensures
            r.wf(),
            r.entries().len() == 0,
            r.ttl() == ttl_ms,
    {
        TimedCache { entries: Vec::new(), ttl_ms }
    }

    fn find_key(&self, key: &str) -> (r: Option<usize>)
        ensures
            match r {
                Some(k) => k < self.entries().len() && self.entries()[k as int].key@ == key@,
                None => !cache_has_key(self.entries(), key@),
            },
    {
        let mut i: usize = 0;
        while i < self.entries.len()
            invariant
                i <= self.entries@.len(),
                forall|k: int| 0 <= k < i ==> self.entries@[k].key@ != key@,
            decreases self.entries@.len() - i,
        {
            if string_eq_str(&self.entries[i].key, key) {
                return Some(i);
            }
            i = i + 1;
        }
        None
    }

    /// The cached value, only while less than the TTL has elapsed since its
    /// insertion. An expired entry is left in place, it just stops counting.
    pub fn get(&self, key: &str, now_ms: i64) -> (r: Option<&V>)
        requires
            self.wf(),
        ensures
            match r {
                Some(v) => exists|k: int|
                    0 <= k < self.entries().len() && self.entries()[k].key@ == key@ && entry_valid(
                        self.entries()[k],
                        self.ttl(),
                        now_ms,
                    ) && *v == self.entries()[k].value,
                None => forall|k: int|
                    0 <= k < self.entries().len() && self.entries()[k].key@ == key@
                        ==> !entry_valid(self.entries()[k], self.ttl(), now_ms),
            },
    {
        match self.find_key(key) {
            Some(k) => {
                let e = &self.entries[k];
                let fresh: bool = (now_ms as i128) < (e.inserted_at as i128) + (
                self.ttl_ms as i128);
                if fresh {
                    proof {
                        assert(entry_valid(self.entries()[k as int], self.ttl(), now_ms));
                    }
                    Some(&self.entries[k].value)
                } else {
                    proof {
                        assert forall|j: int|
                            0 <= j < self.entries().len() && self.entries()[j].key@ == key@
                                implies !entry_valid(self.entries()[j], self.ttl(), now_ms) by {
                            if j != k as int {
                                assert(self.entries()[j].key@ != self.entries()[k as int].key@);
                            }
                        }
                    }
                    None
                }
            },
            None => None,
        }
    }

    /// Stamps the value with the current instant, replacing any earlier
    /// entry for the key.
    pub fn insert(&mut self, key: &str, value: V, now_ms: i64)
        requires
            old(self).wf(),
        ensures
            final(self).wf(),
            final(self).ttl() == old(self).ttl(),
            cache_has_key(old(self).entries(), key@) ==> {
                &&& final(self).entries().len() == old(self).entries().len()
                &&& exists|k: int|
                    {
                        &&& 0 <= k < old(self).entries().len()
                        &&& old(self).entries()[k].key@ == key@
                        &&& final(self).entries()[k].key@ == key@
                        &&& final(self).entries()[k].value == value
                        &&& final(self).entries()[k].inserted_at == now_ms
                        &&& forall|j: int|
                            0 <= j < old(self).entries().len() && j != k
                                ==> final(self).entries()[j] == old(self).entries()[j]
                    }
            },
            !cache_has_key(old(self).entries(), key@) ==> {
                &&& final(self).entries().len() == old(self).entries().len() + 1
                &&& final(self).entries().subrange(0, old(self).entries().len() as int) == old(
                    self,
                ).entries()
                &&& final(self).entries().last().key@ == key@
                &&& final(self).entries().last().value == value
                &&& final(self).entries().last().inserted_at == now_ms
            },
    {
        match self.find_key(key) {
            Some(k) => {
                let entry = CacheEntry { key: key.to_owned(), value, inserted_at: now_ms };
                self.entries.set(k, entry);
                proof {
                    assert forall|i: int, j: int|
                        0 <= i < j < self.entries@.len() implies self.entries@[i].key@
                        != self.entries@[j].key@ by {
                        assert(old(self).entries()[i].key@ != old(self).entries()[j].key@);
                    }
                    assert(0 <= k < old(self).entries().len() && old(
                        self,
                    ).entries()[k as int].key@ == key@ && self.entries@[k as int].key@ == key@);
                    assert(self.entries@[k as int].value == value);
                    assert(self.entries@[k as int].inserted_at == now_ms);
                    assert(forall|j: int|
                        0 <= j < old(self).entries().len() && j != k ==> self.entries@[j] == old(
                            self,
                        ).entries()[j]);
                }
            },
            None => {
                let ghost prev = self.entries@;
                self.entries.push(CacheEntry { key: key.to_owned(), value, inserted_at: now_ms });
                proof {
                    assert(self.entries@.subrange(0, prev.len() as int) =~= prev);
                }
            },
        }
    }

    /// Drops the entry for a key, returning its value whatever its age.
    pub fn remove(&mut self, key: &str) -> (r: Option<V>)
        requires
            old(self).wf(),
        ensures
            final(self).wf(),
            final(self).ttl() == old(self).ttl(),
            match r {
                Some(v) => exists|k: int|
                    0 <= k < old(self).entries().len() && (#[trigger] old(self).entries()[k]).key@
                        == key@ && v == old(self).entries()[k].value && final(self).entries()
                        == old(self).entries().remove(k),
                None => final(self).entries() == old(self).entries() && !cache_has_key(
                    old(self).entries(),
                    key@,
                ),
            },
            !cache_has_key(final(self).entries(), key@),
    {
        match self.find_key(key) {
            Some(k) => {
                let e = self.entries.remove(k);
                proof {
                    let removed = old(self).entries().remove(k as int);
                    assert(self.entries@ =~= removed);
                    assert forall|i: int, j: int|
                        0 <= i < j < removed.len() implies removed[i].key@ != removed[j].key@ by {
                        let i0: int = if i < k { i } else { i + 1 };
                        let j0: int = if j < k { j } else { j + 1 };
                        assert(removed[i] == old(self).entries()[i0]);
                        assert(removed[j] == old(self).entries()[j0]);
                    }
                    assert forall|j: int|
                        0 <= j < self.entries@.len() implies self.entries@[j].key@ != key@ by {
                        let j0: int = if j < k { j } else { j + 1 };
                        assert(self.entries@[j] == old(self).entries()[j0]);
                        if j0 != k as int {
                            assert(old(self).entries()[j0].key@ != old(
                                self,
                            ).entries()[k as int].key@);
                        }
                    }
                }
                Some(e.value)
            },
            None => None,
        }
    }

    /// Empties the cache.
    pub fn clear(&mut self)
        requires
            old(self).wf(),
        ensures
            final(self).wf(),
            final(self).entries().len() == 0,
            final(self).ttl() == old(self).ttl(),
    {
        self.entries.clear();
    }

    pub fn len(&self) -> (r: usize)
        ensures
            r == self.entries().len(),
    {
        self.entries.len()
    }

    pub fn is_empty(&self) -> (r: bool)
        ensures
            r == (self.entries().len() == 0),
    {
        self.entries.len() == 0
    }

    /// Whether a live (unexpired) entry exists for the key.
    pub fn contains_key(&self, key: &str, now_ms: i64) -> (r: bool)
        requires
            self.wf(),
        ensures
            r == exists|k: int|
                0 <= k < self.entries().len() && self.entries()[k].key@ == key@ && entry_valid(
                    self.entries()[k],
                    self.ttl(),
                    now_ms,
                ),
    {
        let r = self.get(key, now_ms);
        proof {
            if r is Some {
                assert(exists|k: int|
                    0 <= k < self.entries().len() && self.entries()[k].key@ == key@ && entry_valid(
                        self.entries()[k],
                        self.ttl(),
                        now_ms,
                    ));
            }
        }
        r.is_some()
    }

    /// Removes every expired entry; the owner calls this periodically, the
    /// cache never sweeps on its own.
    pub fn cleanup_expired(&mut self, now_ms: i64)
        requires
            old(self).wf(),
        ensures
            final(self).wf(),
            final(self).ttl() == old(self).ttl(),
            final(self).entries() == old(self).entries().filter(
                valid_pred(old(self).ttl(), now_ms),
            ),
    {
        let ghost orig = self.entries@;
        let ghost ttl = self.ttl_ms;
        let ghost pred = valid_pred::<V>(ttl, now_ms);
        let mut i: usize = 0;
        let ghost mut j: int = 0;
        proof {
            reveal(Seq::filter);
            assert(orig.subrange(0, 0).filter(pred) =~= Seq::<CacheEntry<V>>::empty());
            assert(orig.subrange(0, orig.len() as int) =~= orig);
            assert(self.entries@ =~= orig.subrange(0, 0).filter(pred) + orig.subrange(
                0,
                orig.len() as int,
            ));
        }
        while i < self.entries.len()
            invariant
                self.ttl_ms == ttl,
                ttl >= 0,
                0 <= j <= orig.len(),
                self.entries@ == orig.subrange(0, j).filter(valid_pred(ttl, now_ms))
                    + orig.subrange(j, orig.len() as int),
                i == orig.subrange(0, j).filter(valid_pred(ttl, now_ms)).len(),
            decreases orig.len() - j,
        {
            let ghost pred = valid_pred::<V>(ttl, now_ms);
            let ghost pre = self.entries@;
            let ghost kept = orig.subrange(0, j).filter(pred);
            proof {
                assert(pre[i as int] == orig.subrange(j, orig.len() as int)[0]);
                assert(pre[i as int] == orig[j]);
                assert(orig.subrange(0, j + 1).drop_last() =~= orig.subrange(0, j));
                assert(orig.subrange(0, j + 1).last() == orig[j]);
                reveal(Seq::filter);
            }
            let inserted_at = self.entries[i].inserted_at;
            let fresh: bool = (now_ms as i128) < (inserted_at as i128) + (self.ttl_ms as i128);
            if fresh {
                i = i + 1;
                proof {
                    assert(orig.subrange(0, j + 1).filter(pred) =~= kept.push(orig[j]));
                    assert(self.entries@ =~= orig.subrange(0, j + 1).filter(pred) + orig.subrange(
                        j + 1,
                        orig.len() as int,
                    ));
                }
            } else {
                self.entries.remove(i);
                proof {
                    assert(orig.subrange(0, j + 1).filter(pred) =~= kept);
                    assert(self.entries@ =~= orig.subrange(0, j + 1).filter(pred) + orig.subrange(
                        j + 1,
                        orig.len() as int,
                    ));
                }
            }
            proof {
                j = j + 1;
            }
        }
        proof {
            let pred = valid_pred::<V>(ttl, now_ms);
            assert(orig.subrange(j, orig.len() as int).len() == 0);
            assert(j == orig.len());
            assert(orig.subrange(0, orig.len() as int) =~= orig);
            assert(self.entries@ =~= orig.filter(pred));
            lemma_filter_preserves_pairwise(
                orig,
                pred,
                |a: CacheEntry<V>, b: CacheEntry<V>| a.key@ != b.key@,
            );
        }
    }
}

} // verus!
