//! The refresh-session registry: for each user, the fingerprints of the
//! refresh tokens that may still be redeemed.
use vstd::prelude::*;

use crate::crypto::{fingerprint, fingerprint_of};

verus! {

/// Whether two byte strings are equal.
pub fn same_bytes(a: &[u8], b: &[u8]) -> (r: bool)
    ensures
        r == (a@ == b@),
{
    if a.len() != b.len() {
        return false;
    }
    let mut i: usize = 0;
    while i < a.len()
        invariant
            a@.len() == b@.len(),
            i <= a@.len(),
            forall|j: int| 0 <= j < i ==> a@[j] == b@[j],
        decreases a@.len() - i,
    {
        if a[i] != b[i] {
            return false;
        }
        i = i + 1;
    }
    assert(a@ =~= b@);
    true
}

/// One redeemable refresh token: its owner and its fingerprint.
pub struct SessionRecord {
    pub user: usize,
    pub fingerprint: Vec<u8>,
}

/// The record at index `i` is the pair `p`.
pub open spec fn record_is(records: Seq<SessionRecord>, i: int, p: (usize, Seq<u8>)) -> bool {
    0 <= i < records.len() && records[i].user == p.0 && records[i].fingerprint@ == p.1
}

/// The pairs (user, fingerprint) that the records hold.
pub open spec fn pairs_of(records: Seq<SessionRecord>) -> Set<(usize, Seq<u8>)> {
    Set::new(|p: (usize, Seq<u8>)| exists|i: int| record_is(records, i, p))
}

/// The pair is struck by a removal for `user`, of one fingerprint when given,
/// else of all.
pub open spec fn struck(p: (usize, Seq<u8>), user: usize, fingerprint: Option<Seq<u8>>) -> bool {
    p.0 == user && (fingerprint matches Some(f) ==> p.1 == f)
}

/// The redeemable refresh tokens of all users, by fingerprint.
pub struct SessionRegistry {
    records: Vec<SessionRecord>,
}

impl View for SessionRegistry {
    type V = Set<(usize, Seq<u8>)>;

    closed spec fn view(&self) -> Set<(usize, Seq<u8>)> {
        pairs_of(self.records@)
    }
}

impl SessionRegistry {
    /// An empty registry.
    pub fn new() -> (r: SessionRegistry)
        ensures
            r@ == Set::<(usize, Seq<u8>)>::empty(),
    {
        let r = SessionRegistry { records: Vec::new() };
        assert(r@ =~= Set::<(usize, Seq<u8>)>::empty());
        r
    }

    /// Whether the user's fingerprint is registered.
    pub fn contains(&self, user: usize, fingerprint: &[u8]) -> (r: bool)
        ensures
            r == self@.contains((user, fingerprint@)),
    {
        let mut i: usize = 0;
        while i < self.records.len()
            invariant
                i <= self.records@.len(),
                forall|j: int| 0 <= j < i ==> !record_is(self.records@, j, (user, fingerprint@)),
            decreases self.records@.len() - i,
        {
            let rec = &self.records[i];
            if rec.user == user && same_bytes(rec.fingerprint.as_slice(), fingerprint) {
                assert(record_is(self.records@, i as int, (user, fingerprint@)));
                return true;
            }
            i = i + 1;
        }
        false
    }

    /// Registers a freshly issued refresh token of the user: its fingerprint
    /// becomes redeemable.
    pub fn register(&mut self, user: usize, token: &str)
        ensures
            final(self)@ == old(self)@.insert((user, fingerprint_of(token@))),
    {
        let rec = SessionRecord { user, fingerprint: fingerprint(token) };
        let ghost q = (user, fingerprint_of(token@));
        let ghost before = self.records@;
        self.records.push(rec);
        assert forall|p: (usize, Seq<u8>)|
            self@.contains(p) <==> old(self)@.contains(p) || p == q by {
            if self@.contains(p) {
                let i = choose|i: int| record_is(self.records@, i, p);
                if i < before.len() {
                    assert(record_is(before, i, p));
                }
            }
            if old(self)@.contains(p) {
                let i = choose|i: int| record_is(before, i, p);
                assert(record_is(self.records@, i, p));
            }
            if p == q {
                assert(record_is(self.records@, before.len() as int, p));
            }
        }
        assert(self@ =~= old(self)@.insert(q));
    }

    /// Redeems a refresh token of the user: answers whether its fingerprint
    /// was registered, and makes it unredeemable in one step, so that a token
    /// is redeemed at most once.
    pub fn redeem(&mut self, user: usize, token: &str) -> (r: bool)
        ensures
            r == old(self)@.contains((user, fingerprint_of(token@))),
            final(self)@ == old(self)@.remove((user, fingerprint_of(token@))),
    {
        let f = fingerprint(token);
        let present = self.contains(user, f.as_slice());
        self.remove_struck(user, Some(f.as_slice()));
        assert(self@ =~= old(self)@.remove((user, f@)));
        present
    }

    /// Revokes every refresh token of the user.
    pub fn revoke_all(&mut self, user: usize)
        ensures
            final(self)@ == old(self)@.filter(|p: (usize, Seq<u8>)| p.0 != user),
    {
        self.remove_struck(user, None);
        assert(self@ =~= old(self)@.filter(|p: (usize, Seq<u8>)| p.0 != user));
    }

    /// Revokes one refresh token of the user, registered or not.
    pub fn revoke_one(&mut self, user: usize, token: &str)
        ensures
            final(self)@ == old(self)@.remove((user, fingerprint_of(token@))),
    {
        let f = fingerprint(token);
        self.remove_struck(user, Some(f.as_slice()));
        assert(self@ =~= old(self)@.remove((user, f@)));
    }

    /// Removes every pair struck by a removal for `user` (of one fingerprint
    /// when given).
    fn remove_struck(&mut self, user: usize, fingerprint: Option<&[u8]>)
        ensures
            final(self)@ == old(self)@.filter(
                |p: (usize, Seq<u8>)|
                    !struck(
                        p,
                        user,
                        match fingerprint {
                            Some(f) => Some(f@),
                            None => None,
                        },
                    ),
            ),
    {
        let ghost fp = match fingerprint {
            Some(f) => Some(f@),
            None => None,
        };
        let ghost start = self.records@;
        let mut pending: Vec<SessionRecord> = Vec::new();
        core::mem::swap(&mut self.records, &mut pending);
        assert(pairs_of(self.records@) =~= Set::empty());
        while pending.len() > 0
            invariant
                pending@ == start.subrange(0, pending@.len() as int),
                pending@.len() <= start.len(),
                fp == match fingerprint {
                    Some(f) => Some(f@),
                    None => None,
                },
                forall|p: (usize, Seq<u8>)|
                    #[trigger] pairs_of(self.records@).contains(p) <==> (in_tail(
                        start,
                        pending@.len() as int,
                        p,
                    ) && !struck(p, user, fp)),
            decreases pending@.len(),
        {
            let ghost before = self.records@;
            let ghost k = pending@.len() - 1;
            assert(forall|p: (usize, Seq<u8>)|
                #[trigger] pairs_of(before).contains(p) <==> (in_tail(start, k + 1, p) && !struck(
                    p,
                    user,
                    fp,
                )));
            let rec = pending.pop().unwrap();
            assert(start[k] == rec);
            let hit = rec.user == user && match fingerprint {
                Some(f) => same_bytes(rec.fingerprint.as_slice(), f),
                None => true,
            };
            let ghost q = (rec.user, rec.fingerprint@);
            assert(hit == struck(q, user, fp));
            if !hit {
                self.records.push(rec);
            }
            assert forall|p: (usize, Seq<u8>)|
                #[trigger] pairs_of(self.records@).contains(p) <==> (in_tail(start, k, p)
                    && !struck(p, user, fp)) by {
                if in_tail(start, k, p) {
                    let j = choose|j: int| k <= j < start.len() && record_is(start, j, p);
                    if j == k {
                        assert(p == q);
                    } else {
                        assert(in_tail(start, k + 1, p));
                    }
                }
                if in_tail(start, k + 1, p) {
                    let j = choose|j: int| k + 1 <= j < start.len() && record_is(start, j, p);
                    assert(in_tail(start, k, p));
                }
                if !hit {
                    if pairs_of(self.records@).contains(p) {
                        let i = choose|i: int| record_is(self.records@, i, p);
                        if i == before.len() {
                            assert(record_is(start, k, p));
                            assert(in_tail(start, k, p));
                        } else {
                            assert(record_is(before, i, p));
                            assert(pairs_of(before).contains(p));
                        }
                    }
                    if in_tail(start, k, p) && !struck(p, user, fp) {
                        if p == q {
                            assert(record_is(self.records@, before.len() as int, p));
                        } else {
                            let j = choose|j: int| k <= j < start.len() && record_is(start, j, p);
                            assert(j != k);
                            assert(in_tail(start, k + 1, p));
                            assert(pairs_of(before).contains(p));
                            let i = choose|i: int| record_is(before, i, p);
                            assert(record_is(self.records@, i, p));
                        }
                    }
                } else {
                    if in_tail(start, k, p) && !struck(p, user, fp) {
                        let j = choose|j: int| k <= j < start.len() && record_is(start, j, p);
                        assert(j != k);
                        assert(in_tail(start, k + 1, p));
                    }
                }
            }
        }
        assert forall|p: (usize, Seq<u8>)|
            self@.contains(p) <==> old(self)@.contains(p) && !struck(p, user, fp) by {
            assert(pairs_of(self.records@).contains(p) <==> (in_tail(start, 0, p) && !struck(
                p,
                user,
                fp,
            )));
            if old(self)@.contains(p) {
                let j = choose|j: int| record_is(start, j, p);
                assert(in_tail(start, 0, p));
            }
        }
        assert(self@ =~= old(self)@.filter(|p: (usize, Seq<u8>)| !struck(p, user, fp)));
    }
}

/// Some record at index `from` or later is the pair `p`.
pub open spec fn in_tail(records: Seq<SessionRecord>, from: int, p: (usize, Seq<u8>)) -> bool {
    exists|j: int| from <= j < records.len() && record_is(records, j, p)
}

} // verus!
