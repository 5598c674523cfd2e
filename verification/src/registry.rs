//! A small identifier-keyed registry with unique keys.
//!
//! The shared mutable maps of the platform (running backtests, simulated
//! brokers) are registries of this kind: insertion overwrites the entry with
//! the same key, and lookups return the unique entry, if any.

use vstd::prelude::*;
use crate::ids::Uid;

verus! {

/// The index of the first entry keyed `id`, or -1.
pub open spec fn find_key<T>(s: Seq<(Uid, T)>, id: Uid) -> int
    decreases s.len(),
{
    if s.len() == 0 {
        -1
    } else if s[0].0 == id {
        0
    } else {
        let r = find_key(s.subrange(1, s.len() as int), id);
        if r == -1 {
            -1
        } else {
            r + 1
        }
    }
}

pub proof fn lemma_find_key<T>(s: Seq<(Uid, T)>, id: Uid)
    ensures
        find_key(s, id) == -1 ==> forall|i: int| 0 <= i < s.len() ==> (#[trigger] s[i]).0 != id,
        find_key(s, id) != -1 ==> 0 <= find_key(s, id) < s.len() && s[find_key(s, id)].0 == id
            && forall|j: int| 0 <= j < find_key(s, id) ==> (#[trigger] s[j]).0 != id,
    decreases s.len(),
{
    if s.len() > 0 && s[0].0 != id {
        let tail = s.subrange(1, s.len() as int);
        lemma_find_key(tail, id);
        assert(forall|i: int| 0 <= i < tail.len() ==> #[trigger] tail[i] == s[i + 1]);
        if find_key(s, id) == -1 {
            assert forall|i: int| 0 <= i < s.len() implies (#[trigger] s[i]).0 != id by {
                if i >= 1 {
                    assert(s[i] == tail[i - 1]);
                }
            }
        } else {
            let k = find_key(s, id);
            assert(s[k] == tail[k - 1]);
            assert forall|j: int| 0 <= j < k implies (#[trigger] s[j]).0 != id by {
                if j >= 1 {
                    assert(s[j] == tail[j - 1]);
                }
            }
        }
    }
}

/// A collection of values keyed by identifier, with at most one entry per key.
pub struct Registry<T> {
    pub entries: Vec<(Uid, T)>,
}

impl<T> Registry<T> {
    /// Keys are unique.
    pub open spec fn wf(self) -> bool {
        forall|i: int, j: int| 0 <= i < j < self.entries@.len()
            ==> (#[trigger] self.entries@[i]).0 != (#[trigger] self.entries@[j]).0
    }

    /// The value stored under `id`, if any.
    pub open spec fn spec_get(self, id: Uid) -> Option<T> {
        let k = find_key(self.entries@, id);
        if k == -1 {
            None
        } else {
            Some(self.entries@[k].1)
        }
    }

    pub fn new() -> (r: Registry<T>)
        ensures
            r.wf(),
            r.entries@.len() == 0,
    {
        Registry { entries: Vec::new() }
    }

    pub fn len(&self) -> (r: usize)
        ensures
            r == self.entries@.len(),
    {
        self.entries.len()
    }

    /// The index of the entry keyed `id`, if one exists.
    fn find(&self, id: Uid) -> (r: Option<usize>)
        ensures
            match r {
                Some(i) => i as int == find_key(self.entries@, id),
                None => find_key(self.entries@, id) == -1,
            },
    {
        let n = self.entries.len();
        let mut i: usize = 0;
        while i < n
            invariant
                n == self.entries@.len(),
                i <= n,
                forall|j: int| 0 <= j < i ==> (#[trigger] self.entries@[j]).0 != id,
            decreases n - i,
        {
            if self.entries[i].0 == id {
                proof {
                    lemma_find_key(self.entries@, id);
                }
                return Some(i);
            }
            i += 1;
        }
        proof {
            lemma_find_key(self.entries@, id);
        }
        None
    }

    /// Whether an entry is stored under `id`.
    pub fn contains(&self, id: Uid) -> (r: bool)
        ensures
            r == (self.spec_get(id) is Some),
    {
        self.find(id).is_some()
    }

    /// A reference to the value stored under `id`, if any.
    pub fn get(&self, id: Uid) -> (r: Option<&T>)
        ensures
            match r {
                Some(v) => self.spec_get(id) == Some(*v),
                None => self.spec_get(id) is None,
            },
    {
        let idx = self.find(id);
        match idx {
            Some(i) => {
                proof {
                    lemma_find_key(self.entries@, id);
                    assert(find_key(self.entries@, id) == i as int);
                    assert(self.spec_get(id) == Some(self.entries@[i as int].1));
                }
                Some(&self.entries[i].1)
            },
            None => None,
        }
    }

    /// Stores `v` under `id`, replacing any previous entry with that key.
    pub fn insert(&mut self, id: Uid, v: T)
        requires
            old(self).wf(),
        ensures
            final(self).wf(),
            ({
                let k = find_key(old(self).entries@, id);
                if k == -1 {
                    final(self).entries@ == old(self).entries@.push((id, v))
                } else {
                    final(self).entries@ == old(self).entries@.update(k, (id, v))
                }
            }),
            final(self).spec_get(id) == Some(v),
    {
        proof {
            lemma_find_key(self.entries@, id);
        }
        let idx = self.find(id);
        match idx {
            Some(i) => {
                self.entries[i] = (id, v);
            },
            None => {
                self.entries.push((id, v));
            },
        }
        proof {
            let s0 = old(self).entries@;
            let s1 = self.entries@;
            let k0 = find_key(s0, id);
            lemma_find_key(s1, id);
            let k1 = find_key(s1, id);
            if k0 == -1 {
                assert(s1 == s0.push((id, v)));
                assert(s1[s1.len() - 1].0 == id);
                assert(k1 != -1);
                if k1 < s1.len() - 1 {
                    assert(s1[k1] == s0[k1]);
                    assert(false);
                }
                assert forall|i: int, j: int| 0 <= i < j < s1.len()
                    implies (#[trigger] s1[i]).0 != (#[trigger] s1[j]).0 by {
                    assert(s1[i] == s0[i]);
                    if j < s1.len() - 1 {
                        assert(s1[j] == s0[j]);
                    } else {
                        assert(s0[i].0 != id);
                    }
                }
            } else {
                assert(s1 == s0.update(k0, (id, v)));
                assert(s1[k0].0 == id);
                assert(k1 != -1);
                if k1 < k0 {
                    assert(s1[k1] == s0[k1]);
                    assert(s0[k1].0 != id);
                    assert(false);
                }
                if k1 > k0 {
                    assert(false);
                }
                assert forall|i: int, j: int| 0 <= i < j < s1.len()
                    implies (#[trigger] s1[i]).0 != (#[trigger] s1[j]).0 by {
                    assert(s0[k0].0 == id);
                    assert(s1[i].0 == s0[i].0);
                    assert(s1[j].0 == s0[j].0);
                }
            }
        }
    }

    /// Removes the entry stored under `id`, if any; reports whether one was.
    pub fn remove(&mut self, id: Uid) -> (r: bool)
        requires
            old(self).wf(),
        ensures
            final(self).wf(),
            r == (old(self).spec_get(id) is Some),
            ({
                let k = find_key(old(self).entries@, id);
                if k == -1 {
                    *final(self) == *old(self)
                } else {
                    final(self).entries@ == old(self).entries@.remove(k)
                }
            }),
            final(self).spec_get(id) is None,
    {
        proof {
            lemma_find_key(self.entries@, id);
        }
        let idx = self.find(id);
        match idx {
            Some(i) => {
                self.entries.remove(i);
                proof {
                    old(self).entries@.remove_ensures(find_key(old(self).entries@, id));
                    lemma_find_key(self.entries@, id);
                }
                true
            },
            None => {
                false
            },
        }
    }
}


/// Inserting under `id` (append or in-place replacement, as `insert` does)
/// leaves the lookup of every other key exactly as it was.
pub proof fn lemma_insert_preserves_others<T>(
    pre: Seq<(Uid, T)>,
    post: Seq<(Uid, T)>,
    id: Uid,
    v: T,
    other: Uid,
)
    requires
        other != id,
        ({
            let k = find_key(pre, id);
            if k == -1 {
                post == pre.push((id, v))
            } else {
                post == pre.update(k, (id, v))
            }
        }),
    ensures
        find_key(post, other) == find_key(pre, other),
        find_key(pre, other) != -1 ==> post[find_key(pre, other)] == pre[find_key(pre, other)],
{
    lemma_find_key(pre, id);
    lemma_find_key(pre, other);
    lemma_find_key(post, other);
    let k0 = find_key(pre, id);
    let kpre = find_key(pre, other);
    let kpost = find_key(post, other);
    // entries other than the inserted one are untouched, and the inserted
    // one is keyed `id`, never `other`
    assert forall|j: int| 0 <= j < post.len()
        implies #[trigger] post[j] == (if k0 == -1 && j == pre.len() { (id, v) }
            else if k0 != -1 && j == k0 { (id, v) } else { pre[j] }) by {}
    if kpre == -1 {
        if kpost != -1 {
            assert(post[kpost].0 == other);
            assert(false);
        }
    } else {
        assert(post[kpre] == pre[kpre]);
        assert(post[kpre].0 == other);
        assert(kpost != -1);
        if kpost < kpre {
            assert(post[kpost].0 == other);
            assert(pre[kpost].0 == other);
            assert(false);
        }
        if kpost > kpre {
            assert(false);
        }
    }
}

} // verus!
