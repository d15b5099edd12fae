//! A contract's persistent key/value storage.
//!
//! The contracts read and write byte values under byte keys.  The store is
//! log-structured: every write appends an entry, and a read returns the value
//! of the latest entry for the key.  Its meaning is the map from each written
//! key to its latest value.

use vstd::prelude::*;
use crate::bytes::{bytes_eq, copy_range};

verus! {

/// The latest value written for `k` among the first `keys.len()` entries.
pub open spec fn latest(log: Seq<(Vec<u8>, Vec<u8>)>, k: Seq<u8>) -> Option<Seq<u8>>
    decreases log.len(),
{
    if log.len() == 0 {
        None
    } else if log.last().0@ == k {
        Some(log.last().1@)
    } else {
        latest(log.drop_last(), k)
    }
}

/// Persistent key/value storage of one contract.
pub struct Storage {
    log: Vec<(Vec<u8>, Vec<u8>)>,
}

impl Storage {
    /// The value stored under `k`, if any.
    pub closed spec fn get(&self, k: Seq<u8>) -> Option<Seq<u8>> {
        latest(self.log@, k)
    }
}

impl View for Storage {
    type V = Map<Seq<u8>, Seq<u8>>;

    closed spec fn view(&self) -> Map<Seq<u8>, Seq<u8>> {
        Map::new(|k: Seq<u8>| self.get(k) is Some, |k: Seq<u8>| self.get(k)->0)
    }
}

impl Storage {
    /// An empty storage.
    pub fn new() -> (r: Storage)
        ensures
            r@ == Map::<Seq<u8>, Seq<u8>>::empty(),
    {
        let r = Storage { log: Vec::new() };
        assert(r@ =~= Map::<Seq<u8>, Seq<u8>>::empty());
        r
    }

    /// Stores `value` under `key`, replacing what was there.
    pub fn write(&mut self, key: &[u8], value: &[u8])
        ensures
            final(self)@ == old(self)@.insert(key@, value@),
    {
        let ghost old_log = self.log@;
        let k = copy_range(key, 0, key.len());
        let v = copy_range(value, 0, value.len());
        proof {
            assert(key@.subrange(0, key@.len() as int) =~= key@);
            assert(value@.subrange(0, value@.len() as int) =~= value@);
        }
        self.log.push((k, v));
        proof {
            assert(self.log@.drop_last() =~= old_log);
            assert forall|q: Seq<u8>|
                #![trigger self.get(q)]
                self.get(q) == (if q == key@ {
                    Some(value@)
                } else {
                    latest(old_log, q)
                }) by {}
            assert(self@ =~= old(self)@.insert(key@, value@));
        }
    }

    /// Removes whatever is stored under `key`.
    pub fn delete(&mut self, key: &[u8])
        ensures
            final(self)@ == old(self)@.remove(key@),
    {
        let ghost old_log = self.log@;
        let mut kept: Vec<(Vec<u8>, Vec<u8>)> = Vec::new();
        let mut i: usize = 0;
        while i < self.log.len()
            invariant
                i <= self.log@.len(),
                self.log@ == old_log,
                forall|q: Seq<u8>|
                    #![trigger latest(kept@, q)]
                    latest(kept@, q) == (if q == key@ {
                        None
                    } else {
                        latest(old_log.take(i as int), q)
                    }),
            decreases self.log@.len() - i,
        {
            let ghost before = kept@;
            proof {
                assert(old_log.take(i + 1).drop_last() =~= old_log.take(i as int));
                assert(old_log.take(i + 1).last() == old_log[i as int]);
            }
            let ghost next = old_log.take(i + 1);
            if !bytes_eq(self.log[i].0.as_slice(), key) {
                let k = copy_range(self.log[i].0.as_slice(), 0, self.log[i].0.len());
                let v = copy_range(self.log[i].1.as_slice(), 0, self.log[i].1.len());
                proof {
                    assert(self.log@[i as int].0@.subrange(0, self.log@[i as int].0@.len() as int) =~= self.log@[i as int].0@);
                    assert(self.log@[i as int].1@.subrange(0, self.log@[i as int].1@.len() as int) =~= self.log@[i as int].1@);
                }
                kept.push((k, v));
                proof {
                    assert(kept@.drop_last() =~= before);
                    assert forall|q: Seq<u8>|
                        #![trigger latest(kept@, q)]
                        latest(kept@, q) == (if q == key@ {
                            None
                        } else {
                            latest(next, q)
                        }) by {
                        assert(latest(before, q) == (if q == key@ {
                            None
                        } else {
                            latest(old_log.take(i as int), q)
                        }));
                    }
                }
            } else {
                proof {
                    assert forall|q: Seq<u8>|
                        #![trigger latest(kept@, q)]
                        latest(kept@, q) == (if q == key@ {
                            None
                        } else {
                            latest(next, q)
                        }) by {
                        assert(latest(before, q) == (if q == key@ {
                            None
                        } else {
                            latest(old_log.take(i as int), q)
                        }));
                    }
                }
            }
            i = i + 1;
        }
        self.log = kept;
        proof {
            assert(old_log.take(old_log.len() as int) =~= old_log);
            assert forall|q: Seq<u8>|
                #![trigger self.get(q)]
                self.get(q) == (if q == key@ {
                    None
                } else {
                    latest(old_log, q)
                }) by {}
            assert(self@ =~= old(self)@.remove(key@));
        }
    }

    /// The value stored under `key`, copied out.
    pub fn get_value(&self, key: &[u8]) -> (r: Option<Vec<u8>>)
        ensures
            match r {
                Some(v) => self@.contains_key(key@) && v@ == self@[key@],
                None => !self@.contains_key(key@),
            },
    {
        let mut i: usize = self.log.len();
        proof {
            assert(self.log@.take(i as int) =~= self.log@);
        }
        while i > 0
            invariant
                i <= self.log@.len(),
                latest(self.log@, key@) == latest(self.log@.take(i as int), key@),
            decreases i,
        {
            let ghost t = self.log@.take(i as int);
            let entry = &self.log[i - 1];
            if bytes_eq(entry.0.as_slice(), key) {
                let v = copy_range(entry.1.as_slice(), 0, entry.1.len());
                proof {
                    assert(entry.1@.subrange(0, entry.1@.len() as int) =~= entry.1@);
                    assert(t.last() == self.log@[i - 1]);
                }
                return Some(v);
            }
            proof {
                assert(t.drop_last() =~= self.log@.take(i - 1));
                assert(t.last() == self.log@[i - 1]);
            }
            i = i - 1;
        }
        None
    }

    /// What a host storage read into a zeroed buffer of `cap` bytes gives:
    /// the buffer, holding the first `min(len, cap)` bytes of the stored
    /// value, and that number of bytes (0 when nothing is stored).
    pub fn read(&self, key: &[u8], cap: usize) -> (r: (Vec<u8>, usize))
        ensures
            r.0@ == read_buffer(self@.get(key@), cap as nat),
            r.1 as nat == read_len(self@.get(key@), cap as nat),
    {
        let got = self.get_value(key);
        let mut buf: Vec<u8> = Vec::new();
        let mut n: usize = 0;
        match got {
            Some(v) => {
                n = if v.len() < cap {
                    v.len()
                } else {
                    cap
                };
                let mut i: usize = 0;
                while i < cap
                    invariant
                        i <= cap,
                        n <= cap,
                        n <= v@.len(),
                        buf@.len() == i,
                        forall|j: int|
                            0 <= j < i ==> buf@[j] == (if j < n {
                                v@[j]
                            } else {
                                0u8
                            }),
                    decreases cap - i,
                {
                    if i < n {
                        buf.push(v[i]);
                    } else {
                        buf.push(0u8);
                    }
                    i = i + 1;
                }
                proof {
                    assert(buf@ =~= read_buffer(self@.get(key@), cap as nat));
                }
            },
            None => {
                let mut i: usize = 0;
                while i < cap
                    invariant
                        i <= cap,
                        buf@.len() == i,
                        forall|j: int| 0 <= j < i ==> buf@[j] == 0u8,
                    decreases cap - i,
                {
                    buf.push(0u8);
                    i = i + 1;
                }
                proof {
                    assert(buf@ =~= read_buffer(self@.get(key@), cap as nat));
                }
            },
        }
        (buf, n)
    }
}

/// The number of bytes a read of capacity `cap` copies.
pub open spec fn read_len(v: Option<Seq<u8>>, cap: nat) -> nat {
    match v {
        Some(s) => if s.len() < cap {
            s.len()
        } else {
            cap
        },
        None => 0,
    }
}

/// The buffer a read of capacity `cap` fills.
pub open spec fn read_buffer(v: Option<Seq<u8>>, cap: nat) -> Seq<u8> {
    Seq::new(
        cap,
        |j: int|
            if j < read_len(v, cap) {
                v->0[j]
            } else {
                0u8
            },
    )
}

} // verus!
