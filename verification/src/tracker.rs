//! Concurrent connections per client address, capped: a client over the
//! cap has its oldest connection slot given up (first in, first out).

use vstd::prelude::*;
use crate::trusted::clock_now_nanos;
use crate::keyed::{
    keys_unique,
    has_key,
    key_index,
    value_at,
    find_key,
    lemma_replace_value,
    lemma_push_entry,
    lemma_remove_entry,
};

verus! {

/// How many connections one client address may hold at once.
pub const MAX_CONNECTIONS_PER_IP: u32 = 100;

/// For each client address, the start times of its open connections, oldest first.
pub struct ConnectionTracker {
    ips: Vec<(String, Vec<i128>)>,
    max_connections: u32,
}

/// The slots of a client after one more connection at `now`: the oldest
/// slot is dropped first where the client is at the cap.
pub open spec fn spec_acquired(slots: Seq<i128>, max: nat, now: i128) -> Seq<i128> {
    (if slots.len() >= max {
        slots.drop_first()
    } else {
        slots
    }).push(now)
}

impl View for ConnectionTracker {
    type V = Map<Seq<char>, Seq<i128>>;

    closed spec fn view(&self) -> Map<Seq<char>, Seq<i128>> {
        Map::new(
            |k: Seq<char>| has_key(self.ips@, k),
            |k: Seq<char>| value_at(self.ips@, k)@,
        )
    }
}

impl ConnectionTracker {
    /// The tracker's invariant: one entry per address, none empty, none over the cap.
    #[verifier::type_invariant]
    pub closed spec fn wf(&self) -> bool {
        &&& keys_unique(self.ips@)
        &&& self.max_connections >= 1
        &&& forall|j: int|
            0 <= j < self.ips@.len() ==> 0 < (#[trigger] self.ips@[j]).1@.len() <= self.max_connections
    }

    /// The cap on connections per address.
    pub closed spec fn max(&self) -> nat {
        self.max_connections as nat
    }

    /// The slots of `ip` after one more connection at `now`.
    pub open spec fn spec_after_acquire(m: Map<Seq<char>, Seq<i128>>, max: nat, ip: Seq<char>, now: i128) -> Map<
        Seq<char>,
        Seq<i128>,
    > {
        m.insert(
            ip,
            spec_acquired(
                if m.contains_key(ip) {
                    m[ip]
                } else {
                    Seq::empty()
                },
                max,
                now,
            ),
        )
    }

    /// The slots after `ip` gives up its newest slot; an address left with
    /// none is dropped.
    pub open spec fn spec_after_release(m: Map<Seq<char>, Seq<i128>>, ip: Seq<char>) -> Map<
        Seq<char>,
        Seq<i128>,
    > {
        if m.contains_key(ip) {
            if m[ip].len() <= 1 {
                m.remove(ip)
            } else {
                m.insert(ip, m[ip].drop_last())
            }
        } else {
            m
        }
    }

    /// What the invariant shows of the tracker's content.
    pub proof fn lemma_wf_view(&self)
        requires
            self.wf(),
        ensures
            self.max() >= 1,
            forall|k: Seq<char>| #[trigger]
                self@.contains_key(k) ==> 0 < self@[k].len() <= self.max(),
    {
        assert forall|k: Seq<char>| #[trigger] self@.contains_key(k) implies 0 < self@[k].len()
            <= self.max() by {
            let j = key_index(self.ips@, k);
            assert(0 <= j < self.ips@.len());
        }
    }

    /// An empty tracker with the cap of 100 connections per address.
    pub fn new() -> (r: ConnectionTracker)
        ensures
            r@ == Map::<Seq<char>, Seq<i128>>::empty(),
            r.max() == MAX_CONNECTIONS_PER_IP,
    {
        let r = ConnectionTracker { ips: Vec::new(), max_connections: MAX_CONNECTIONS_PER_IP };
        assert(r@ =~= Map::<Seq<char>, Seq<i128>>::empty());
        r
    }

    /// Takes a connection slot for `ip`, started at `now`; at the cap, the
    /// oldest slot of `ip` is given up first. Always succeeds.
    pub fn try_acquire_at(&mut self, ip: &str, now: i128) -> (r: bool)
        ensures
            r,
            final(self).max() == old(self).max(),
            final(self)@ == Self::spec_after_acquire(old(self)@, old(self).max(), ip@, now),
    {
        proof {
            use_type_invariant(&*self);
        }
        let key = String::from_str(ip);
        let mut ips: Vec<(String, Vec<i128>)> = Vec::new();
        core::mem::swap(&mut ips, &mut self.ips);
        let ghost s = ips@;
        let max = self.max_connections as usize;
        match find_key(&ips, &key) {
            Some(i) => {
                let (k, mut slots) = ips.remove(i);
                let ghost old_slots = slots@;
                if slots.len() >= max {
                    slots.remove(0);
                    assert(slots@ =~= old_slots.drop_first());
                }
                slots.push(now);
                ips.insert(i, (k, slots));
                proof {
                    let t = ips@;
                    assert(t =~= s.update(i as int, t[i as int]));
                    lemma_replace_value(s, t, i as int);
                    assert forall|j: int| 0 <= j < t.len() implies 0 < (#[trigger] t[j]).1@.len()
                        <= self.max_connections by {
                        if j != i {
                            assert(t[j] == s[j]);
                        }
                    }
                }
            },
            None => {
                let mut slots: Vec<i128> = Vec::new();
                slots.push(now);
                let ghost e = (key, slots);
                ips.push((key, slots));
                proof {
                    lemma_push_entry(s, e);
                    assert(ips@ == s.push(e));
                    let t = ips@;
                    assert forall|j: int| 0 <= j < t.len() implies 0 < (#[trigger] t[j]).1@.len()
                        <= self.max_connections by {
                        if j < s.len() {
                            assert(t[j] == s[j]);
                        }
                    }
                }
            },
        }
        self.ips = ips;
        assert(self@ =~= Self::spec_after_acquire(old(self)@, old(self).max(), ip@, now));
        true
    }

    /// Takes a connection slot for `ip`, started now by the system clock.
    pub fn try_acquire(&mut self, ip: &str) -> (r: bool)
        ensures
            r,
            final(self).max() == old(self).max(),
            exists|now: i128| final(self)@ == Self::spec_after_acquire(old(self)@, old(self).max(), ip@, now),
    {
        let now = clock_now_nanos();
        self.try_acquire_at(ip, now)
    }

    /// How many connection slots `ip` holds.
    pub fn connection_count(&self, ip: &str) -> (r: usize)
        ensures
            r == (if self@.contains_key(ip@) {
                self@[ip@].len()
            } else {
                0
            }),
    {
        proof {
            use_type_invariant(self);
        }
        let key = String::from_str(ip);
        match find_key(&self.ips, &key) {
            Some(i) => self.ips[i].1.len(),
            None => 0,
        }
    }

    /// Gives up the newest connection slot of `ip`, dropping the address
    /// when it has none left.
    pub fn release(&mut self, ip: &str)
        ensures
            final(self).max() == old(self).max(),
            final(self)@ == Self::spec_after_release(old(self)@, ip@),
    {
        proof {
            use_type_invariant(&*self);
        }
        let key = String::from_str(ip);
        let mut ips: Vec<(String, Vec<i128>)> = Vec::new();
        core::mem::swap(&mut ips, &mut self.ips);
        let ghost s = ips@;
        match find_key(&ips, &key) {
            Some(i) => {
                let (k, mut slots) = ips.remove(i);
                proof {
                    lemma_remove_entry(s, i as int);
                }
                slots.pop();
                if slots.len() > 0 {
                    ips.insert(i, (k, slots));
                    proof {
                        let t = ips@;
                        assert(t =~= s.update(i as int, t[i as int]));
                        lemma_replace_value(s, t, i as int);
                        assert forall|j: int| 0 <= j < t.len() implies 0 < (#[trigger] t[j]).1@.len()
                            <= self.max_connections by {
                            if j != i {
                                assert(t[j] == s[j]);
                            }
                        }
                    }
                } else {
                    proof {
                        let t = ips@;
                        assert forall|j: int| 0 <= j < t.len() implies 0 < (#[trigger] t[j]).1@.len()
                            <= self.max_connections by {
                            if j < i {
                                assert(t[j] == s[j]);
                            } else {
                                assert(t[j] == s[j + 1]);
                            }
                        }
                    }
                }
            },
            None => {},
        }
        self.ips = ips;
        assert(self@ =~= Self::spec_after_release(old(self)@, ip@));
    }
}

} // verus!
