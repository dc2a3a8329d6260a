//! The code store: one-time codes keyed by identifier, each with an expiry
//! instant.  It has exactly the shape of the external key-value contract the
//! verification flow needs — set with a time-to-live, read, and atomic
//! check-and-delete — with the clock passed in explicitly so that expiry is
//! part of every contract.

use vstd::prelude::*;

verus! {

/// One stored code: the identifier it was issued for, the code itself, and
/// the instant at which it stops being valid.
pub struct OtpRecord {
    pub identifier: String,
    pub code: String,
    pub expires_at: u64,
}

/// The mathematical state of one stored code.
pub struct StoredCode {
    pub code: Seq<char>,
    pub expires_at: u64,
}

/// A stored code is live at `now` when it is present and not yet expired.
pub open spec fn live(m: Map<Seq<char>, StoredCode>, key: Seq<char>, now: u64) -> bool {
    m.contains_key(key) && now < m[key].expires_at
}

/// The store.  At most one record per identifier: storing again overwrites,
/// so at most one code is outstanding per identifier at any instant.
pub struct CodeStore {
    records: Vec<OtpRecord>,
}

impl CodeStore {
    spec fn record_model(r: OtpRecord) -> StoredCode {
        StoredCode { code: r.code@, expires_at: r.expires_at }
    }

    /// No two records share an identifier.
    pub closed spec fn wf(&self) -> bool {
        forall|i: int, j: int|
            0 <= i < j < self.records@.len() ==> self.records@[i].identifier@ != self.records@[
                j
            ].identifier@
    }

    /// The store as a map from identifier to stored code.  Expired records
    /// may linger here; every reading operation filters them by `now`.
    pub closed spec fn codes(&self) -> Map<Seq<char>, StoredCode> {
        Map::new(
            |id: Seq<char>|
                exists|i: int| 0 <= i < self.records@.len() && self.records@[i].identifier@ == id,
            |id: Seq<char>|
                Self::record_model(
                    self.records@[
                        choose|i: int|
                            0 <= i < self.records@.len() && self.records@[i].identifier@ == id
                    ],
                ),
        )
    }

    /// The map entry of the record at index `i` is that record.
    proof fn lemma_codes_entry(&self, i: int)
        requires
            self.wf(),
            0 <= i < self.records@.len(),
        ensures
            self.codes().contains_key(self.records@[i].identifier@),
            self.codes()[self.records@[i].identifier@] == Self::record_model(self.records@[i]),
    {
        let id = self.records@[i].identifier@;
        assert(0 <= i < self.records@.len() && self.records@[i].identifier@ == id);
        let j = choose|j: int| 0 <= j < self.records@.len() && self.records@[j].identifier@ == id;
        if j < i {
            assert(self.records@[j].identifier@ != self.records@[i].identifier@);
        } else if i < j {
            assert(self.records@[i].identifier@ != self.records@[j].identifier@);
        }
    }

    /// An empty store.
    pub fn new() -> (r: CodeStore)
        ensures
            r.wf(),
            r.codes() == Map::<Seq<char>, StoredCode>::empty(),
    {
        let r = CodeStore { records: Vec::new() };
        proof {
            assert(r.codes() =~= Map::<Seq<char>, StoredCode>::empty());
        }
        r
    }

    /// The index of the record for `key`, if one is stored.
    fn find_index(&self, key: &String) -> (r: Option<usize>)
        ensures
            match r {
                Some(i) => i < self.records@.len() && self.records@[i as int].identifier@ == key@,
                None => forall|j: int|
                    0 <= j < self.records@.len() ==> self.records@[j].identifier@ != key@,
            },
    {
        let mut i: usize = 0;
        while i < self.records.len()
            invariant
                i <= self.records@.len(),
                forall|j: int| 0 <= j < i ==> self.records@[j].identifier@ != key@,
            decreases self.records@.len() - i,
        {
            if self.records[i].identifier == *key {
                return Some(i);
            }
            i += 1;
        }
        None
    }

    /// Rewriting the record at the index already holding `id` updates the
    /// map at `id` alone.
    proof fn lemma_update_view(pre: Self, post: Self, i: int, id: Seq<char>)
        requires
            pre.wf(),
            0 <= i < pre.records@.len(),
            pre.records@[i].identifier@ == id,
            post.records@ == pre.records@.update(i, post.records@[i]),
            post.records@[i].identifier@ == id,
        ensures
            post.wf(),
            post.codes() == pre.codes().insert(id, Self::record_model(post.records@[i])),
    {
        assert forall|a: int, b: int| 0 <= a < b < post.records@.len() implies post.records@[
            a
        ].identifier@ != post.records@[b].identifier@ by {
            assert(post.records@[a].identifier@ == pre.records@[a].identifier@);
            assert(post.records@[b].identifier@ == pre.records@[b].identifier@);
        }
        let target = pre.codes().insert(id, Self::record_model(post.records@[i]));
        assert forall|k: Seq<char>| post.codes().contains_key(k) implies target.contains_key(
            k,
        ) by {
            let w = choose|w: int| 0 <= w < post.records@.len() && post.records@[w].identifier@
                == k;
            if w != i {
                assert(pre.records@[w].identifier@ == k);
                pre.lemma_codes_entry(w);
            }
        }
        assert forall|k: Seq<char>| target.contains_key(k) implies post.codes().contains_key(
            k,
        ) by {
            if k == id {
                post.lemma_codes_entry(i);
            } else {
                let w = choose|w: int| 0 <= w < pre.records@.len() && pre.records@[w].identifier@
                    == k;
                assert(post.records@[w].identifier@ == k);
            }
        }
        assert forall|k: Seq<char>| target.contains_key(k) implies post.codes()[k] == target[
            k
        ] by {
            if k == id {
                post.lemma_codes_entry(i);
            } else {
                let w = choose|w: int| 0 <= w < pre.records@.len() && pre.records@[w].identifier@
                    == k;
                assert(w != i);
                pre.lemma_codes_entry(w);
                assert(post.records@[w].identifier@ == k);
                post.lemma_codes_entry(w);
            }
        }
        assert(post.codes() =~= target);
    }

    /// Appending a record for an identifier not yet stored adds one map
    /// entry.
    proof fn lemma_append_view(pre: Self, post: Self, id: Seq<char>)
        requires
            pre.wf(),
            forall|j: int| 0 <= j < pre.records@.len() ==> pre.records@[j].identifier@ != id,
            post.records@ == pre.records@.push(post.records@.last()),
            post.records@.last().identifier@ == id,
        ensures
            post.wf(),
            post.codes() == pre.codes().insert(id, Self::record_model(post.records@.last())),
    {
        let n = pre.records@.len() as int;
        assert forall|a: int, b: int| 0 <= a < b < post.records@.len() implies post.records@[
            a
        ].identifier@ != post.records@[b].identifier@ by {
            if b < n {
                assert(post.records@[a].identifier@ == pre.records@[a].identifier@);
                assert(post.records@[b].identifier@ == pre.records@[b].identifier@);
            } else {
                assert(post.records@[a].identifier@ == pre.records@[a].identifier@);
                assert(post.records@[b].identifier@ == id);
            }
        }
        let target = pre.codes().insert(id, Self::record_model(post.records@.last()));
        assert forall|k: Seq<char>| post.codes().contains_key(k) implies target.contains_key(
            k,
        ) by {
            let w = choose|w: int| 0 <= w < post.records@.len() && post.records@[w].identifier@
                == k;
            if w < n {
                assert(pre.records@[w].identifier@ == k);
                pre.lemma_codes_entry(w);
            }
        }
        assert forall|k: Seq<char>| target.contains_key(k) implies post.codes().contains_key(
            k,
        ) by {
            if k == id {
                post.lemma_codes_entry(n);
            } else {
                let w = choose|w: int| 0 <= w < pre.records@.len() && pre.records@[w].identifier@
                    == k;
                assert(post.records@[w].identifier@ == k);
            }
        }
        assert forall|k: Seq<char>| target.contains_key(k) implies post.codes()[k] == target[
            k
        ] by {
            if k == id {
                post.lemma_codes_entry(n);
            } else {
                let w = choose|w: int| 0 <= w < pre.records@.len() && pre.records@[w].identifier@
                    == k;
                pre.lemma_codes_entry(w);
                assert(post.records@[w].identifier@ == k);
                post.lemma_codes_entry(w);
            }
        }
        assert(post.codes() =~= target);
    }

    /// Removing the record at index `i` removes its map entry alone.
    proof fn lemma_remove_view(pre: Self, post: Self, i: int, id: Seq<char>)
        requires
            pre.wf(),
            0 <= i < pre.records@.len(),
            pre.records@[i].identifier@ == id,
            post.records@ == pre.records@.remove(i),
        ensures
            post.wf(),
            post.codes() == pre.codes().remove(id),
    {
        let n = pre.records@.len() as int;
        assert forall|k: int| 0 <= k < post.records@.len() implies post.records@[k] == (if k < i {
            pre.records@[k]
        } else {
            pre.records@[k + 1]
        }) by {}
        assert forall|a: int, b: int| 0 <= a < b < post.records@.len() implies post.records@[
            a
        ].identifier@ != post.records@[b].identifier@ by {
            let pa: int = if a < i { a } else { a + 1 };
            let pb: int = if b < i { b } else { b + 1 };
            assert(pa < pb);
            assert(pre.records@[pa].identifier@ != pre.records@[pb].identifier@);
        }
        let target = pre.codes().remove(id);
        assert forall|k: Seq<char>| post.codes().contains_key(k) implies target.contains_key(
            k,
        ) by {
            let w = choose|w: int| 0 <= w < post.records@.len() && post.records@[w].identifier@
                == k;
            let pw: int = if w < i { w } else { w + 1 };
            assert(pre.records@[pw].identifier@ == k);
            pre.lemma_codes_entry(pw);
            if pw < i {
                assert(pre.records@[pw].identifier@ != pre.records@[i].identifier@);
            } else if pw > i {
                assert(pre.records@[i].identifier@ != pre.records@[pw].identifier@);
            }
        }
        assert forall|k: Seq<char>| target.contains_key(k) implies post.codes().contains_key(
            k,
        ) by {
            let w = choose|w: int| 0 <= w < pre.records@.len() && pre.records@[w].identifier@
                == k;
            if w < i {
                assert(post.records@[w].identifier@ == k);
            } else {
                assert(w > i);
                assert(post.records@[w - 1].identifier@ == k);
            }
        }
        assert forall|k: Seq<char>| target.contains_key(k) implies post.codes()[k] == target[
            k
        ] by {
            let w = choose|w: int| 0 <= w < pre.records@.len() && pre.records@[w].identifier@
                == k;
            pre.lemma_codes_entry(w);
            if w < i {
                assert(post.records@[w].identifier@ == k);
                post.lemma_codes_entry(w);
            } else {
                assert(w > i);
                assert(post.records@[w - 1].identifier@ == k);
                post.lemma_codes_entry(w - 1);
            }
        }
        assert(post.codes() =~= target);
    }

    /// Store `value` for `key`, valid for `ttl_seconds` from `now`.  A code
    /// already outstanding for `key` is overwritten, so the older code is
    /// invalidated the moment a new one is issued.
    pub fn set(&mut self, key: String, value: String, now: u64, ttl_seconds: u64)
        requires
            old(self).wf(),
            now + ttl_seconds <= u64::MAX,
        ensures
            final(self).wf(),
            final(self).codes() == old(self).codes().insert(
                key@,
                (StoredCode { code: value@, expires_at: (now + ttl_seconds) as u64 }),
            ),
    {
        let ghost pre = *self;
        let ghost id = key@;
        let idx = self.find_index(&key);
        let record = OtpRecord { identifier: key, code: value, expires_at: now + ttl_seconds };
        match idx {
            Some(i) => {
                let slot = crate::vecs::at_mut(&mut self.records, i);
                *slot = record;
                proof {
                    Self::lemma_update_view(pre, *self, i as int, id);
                }
            },
            None => {
                self.records.push(record);
                proof {
                    Self::lemma_append_view(pre, *self, id);
                }
            },
        }
    }

    /// Read the code stored for `key`, if one is live at `now`.  An absent
    /// or expired record reads as nothing.
    pub fn get(&self, key: &String, now: u64) -> (r: Option<String>)
        requires
            self.wf(),
        ensures
            match r {
                Some(code) => live(self.codes(), key@, now) && code@ == self.codes()[key@].code,
                None => !live(self.codes(), key@, now),
            },
    {
        let idx = self.find_index(key);
        match idx {
            None => {
                proof {
                    if self.codes().contains_key(key@) {
                        let w = choose|w: int|
                            0 <= w < self.records@.len() && self.records@[w].identifier@ == key@;
                        assert(self.records@[w].identifier@ != key@);
                    }
                }
                None
            },
            Some(i) => {
                proof {
                    self.lemma_codes_entry(i as int);
                }
                if now < self.records[i].expires_at {
                    Some(self.records[i].code.clone())
                } else {
                    None
                }
            },
        }
    }

    /// Atomically consume the code for `key`: exactly when a live record
    /// holds `expected`, remove it and answer true.  Of two racing
    /// verification attempts only one can pass this gate, because the first
    /// to pass removes the record.
    pub fn check_and_delete(&mut self, key: &String, expected: &String, now: u64) -> (r: bool)
        requires
            old(self).wf(),
        ensures
            final(self).wf(),
            r == (live(old(self).codes(), key@, now) && old(self).codes()[key@].code
                == expected@),
            r ==> final(self).codes() == old(self).codes().remove(key@),
            !r ==> *final(self) == *old(self),
    {
        let ghost pre = *self;
        let idx = self.find_index(key);
        match idx {
            None => {
                proof {
                    if pre.codes().contains_key(key@) {
                        let w = choose|w: int|
                            0 <= w < pre.records@.len() && pre.records@[w].identifier@ == key@;
                        assert(pre.records@[w].identifier@ != key@);
                    }
                }
                false
            },
            Some(i) => {
                proof {
                    pre.lemma_codes_entry(i as int);
                }
                if now < self.records[i].expires_at && self.records[i].code == *expected {
                    let _consumed = self.records.remove(i);
                    proof {
                        Self::lemma_remove_view(pre, *self, i as int, key@);
                    }
                    true
                } else {
                    false
                }
            },
        }
    }
}

} // verus!
