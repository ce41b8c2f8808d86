//! Client addresses that connected recently, for which authentication is
//! waived while their record is fresh.

use vstd::prelude::*;
use crate::keyed::{
    keys_unique,
    has_key,
    key_index,
    lemma_key_index,
    lemma_push_entry,
    lemma_replace_value,
    find_key,
};
use crate::text::{parse_u64, spec_parse_u64};

verus! {

/// How long a record stays fresh by default, in seconds.
pub const TRUSTED_EXPIRY_SECS: u64 = 600;

/// Seconds between sweeps of stale records.
pub const CLEANUP_INTERVAL_SECS: u64 = 300;

/// Nanoseconds in a second.
pub const NANOS_PER_SEC: i128 = 1_000_000_000;

/// A record made at `recorded` is fresh at `now` when it is not in the
/// future and is younger than `expiry` (all in nanoseconds).
pub open spec fn fresh(recorded: i128, now: i128, expiry: i128) -> bool {
    recorded <= now && now - recorded < expiry
}

/// Calls `std::time::SystemTime::now` and measures it against the UNIX
/// epoch with `duration_since`: `(true, n)` for `n` nanoseconds after the
/// epoch, `(false, n)` for `n` nanoseconds before it. Nothing is claimed of
/// the result: it is the clock's reading.
#[verifier::external_body]
fn clock_since_epoch() -> (r: (bool, u128)) {
    match std::time::SystemTime::now().duration_since(std::time::UNIX_EPOCH) {
        Ok(d) => (true, d.as_nanos()),
        Err(e) => (false, e.duration().as_nanos()),
    }
}

/// The system clock as signed nanoseconds from the UNIX epoch (negative
/// before it), saturated at the ends of the range.
pub(crate) fn clock_now_nanos() -> (now: i128) {
    let (after, n) = clock_since_epoch();
    let max: u128 = 0x7fff_ffff_ffff_ffff_ffff_ffff_ffff_ffff;
    let m: i128 = if n > max {
        0x7fff_ffff_ffff_ffff_ffff_ffff_ffff_ffff
    } else {
        n as i128
    };
    if after {
        m
    } else {
        -m
    }
}

/// Decides `fresh` without overflow.
fn is_fresh(recorded: i128, now: i128, expiry: i128) -> (r: bool)
    ensures
        r == fresh(recorded, now, expiry),
{
    if recorded <= now {
        match now.checked_sub(recorded) {
            Some(diff) => diff < expiry,
            None => false,
        }
    } else {
        false
    }
}

/// Trusted client addresses, each with the time of its last recorded connection.
pub struct TrustedIps {
    entries: Vec<(String, i128)>,
    expiry_nanos: i128,
}

impl View for TrustedIps {
    type V = Map<Seq<char>, i128>;

    closed spec fn view(&self) -> Map<Seq<char>, i128> {
        Map::new(
            |k: Seq<char>| has_key(self.entries@, k),
            |k: Seq<char>| self.entries@[key_index(self.entries@, k)].1,
        )
    }
}

impl TrustedIps {
    /// The table's invariant: one record per address.
    #[verifier::type_invariant]
    pub closed spec fn wf(&self) -> bool {
        keys_unique(self.entries@)
    }

    /// How long a record stays fresh, in nanoseconds.
    pub closed spec fn expiry(&self) -> i128 {
        self.expiry_nanos
    }

    /// Whether `ip` is trusted at `now` in a table with this content and expiry.
    pub open spec fn spec_trusted(m: Map<Seq<char>, i128>, expiry: i128, ip: Seq<char>, now: i128) -> bool {
        m.contains_key(ip) && fresh(m[ip], now, expiry)
    }

    /// An empty table whose records stay fresh for ten minutes.
    pub fn new() -> (r: TrustedIps)
        ensures
            r@ == Map::<Seq<char>, i128>::empty(),
            r.expiry() == TRUSTED_EXPIRY_SECS as i128 * NANOS_PER_SEC,
    {
        Self::with_expiry_secs(TRUSTED_EXPIRY_SECS)
    }

    /// An empty table whose records stay fresh for `secs` seconds.
    pub fn with_expiry_secs(secs: u64) -> (r: TrustedIps)
        ensures
            r@ == Map::<Seq<char>, i128>::empty(),
            r.expiry() == secs as i128 * NANOS_PER_SEC,
    {
        let r = TrustedIps { entries: Vec::new(), expiry_nanos: secs as i128 * NANOS_PER_SEC };
        assert(r@ =~= Map::<Seq<char>, i128>::empty());
        r
    }

    /// The expiry, in seconds, that a setting's text gives: the number it
    /// reads as, else the default.
    pub open spec fn spec_expiry_secs(setting: Option<Seq<char>>) -> u64 {
        match setting {
            Some(t) => match spec_parse_u64(t) {
                Some(v) => v,
                None => TRUSTED_EXPIRY_SECS,
            },
            None => TRUSTED_EXPIRY_SECS,
        }
    }

    /// An empty table whose expiry, in seconds, comes from the text of the
    /// expiry setting (`None` where unset); unset or unreadable gives ten minutes.
    pub fn from_expiry_setting(setting: Option<String>) -> (r: TrustedIps)
        ensures
            r@ == Map::<Seq<char>, i128>::empty(),
            r.expiry() == Self::spec_expiry_secs(crate::auth::view_opt_string(setting)) as i128
                * NANOS_PER_SEC,
    {
        let secs = match &setting {
            Some(t) => match parse_u64(t.as_str()) {
                Some(v) => v,
                None => TRUSTED_EXPIRY_SECS,
            },
            None => TRUSTED_EXPIRY_SECS,
        };
        Self::with_expiry_secs(secs)
    }

    /// Whether `ip` has a record that is fresh at `now`.
    pub fn is_trusted_at(&self, ip: &str, now: i128) -> (r: bool)
        ensures
            r == Self::spec_trusted(self@, self.expiry(), ip@, now),
    {
        proof {
            use_type_invariant(self);
        }
        let key = String::from_str(ip);
        match find_key(&self.entries, &key) {
            Some(i) => {
                is_fresh(self.entries[i].1, now, self.expiry_nanos)
            },
            None => false,
        }
    }

    /// Whether `ip` has a record that is fresh now, by the system clock.
    pub fn is_trusted(&self, ip: &str) -> (r: bool)
        ensures
            r ==> self@.contains_key(ip@),
            exists|now: i128| r == Self::spec_trusted(self@, self.expiry(), ip@, now),
    {
        let now = clock_now_nanos();
        self.is_trusted_at(ip, now)
    }

    /// Records a connection from `ip` at `now`, replacing its earlier record.
    pub fn record_connection_at(&mut self, ip: &str, now: i128)
        ensures
            final(self)@ == old(self)@.insert(ip@, now),
            final(self).expiry() == old(self).expiry(),
    {
        proof {
            use_type_invariant(&*self);
        }
        let key = String::from_str(ip);
        let mut entries: Vec<(String, i128)> = Vec::new();
        core::mem::swap(&mut entries, &mut self.entries);
        let ghost old_entries = entries@;
        match find_key(&entries, &key) {
            Some(i) => {
                entries.set(i, (key, now));
                proof {
                    lemma_replace_value(old_entries, entries@, i as int);
                }
            },
            None => {
                let ghost e = (key, now);
                entries.push((key, now));
                proof {
                    lemma_push_entry(old_entries, e);
                    assert(entries@ == old_entries.push(e));
                }
            },
        }
        self.entries = entries;
        assert(self@ =~= old(self)@.insert(ip@, now));
    }

    /// Records a connection from `ip` now, by the system clock.
    pub fn record_connection(&mut self, ip: &str)
        ensures
            exists|now: i128| final(self)@ == old(self)@.insert(ip@, now),
            final(self).expiry() == old(self).expiry(),
    {
        let now = clock_now_nanos();
        self.record_connection_at(ip, now);
    }

    /// The records of a table that are fresh at `now`.
    pub open spec fn spec_fresh_part(m: Map<Seq<char>, i128>, expiry: i128, now: i128) -> Map<Seq<char>, i128> {
        Map::new(|k: Seq<char>| m.contains_key(k) && fresh(m[k], now, expiry), |k: Seq<char>| m[k])
    }

    /// Drops every record that is not fresh at `now`.
    pub fn cleanup_expired_at(&mut self, now: i128)
        ensures
            final(self)@ == Self::spec_fresh_part(old(self)@, old(self).expiry(), now),
            final(self).expiry() == old(self).expiry(),
    {
        proof {
            use_type_invariant(&*self);
        }
        let ghost old_entries = self.entries@;
        let exp = self.expiry_nanos;
        let mut kept: Vec<(String, i128)> = Vec::new();
        let ghost mut idx: Seq<int> = Seq::empty();
        let mut i: usize = 0;
        while i < self.entries.len()
            invariant
                self.entries@ == old_entries,
                keys_unique(old_entries),
                exp == self.expiry_nanos,
                i <= old_entries.len(),
                idx.len() == kept@.len(),
                forall|j: int| 0 <= j < idx.len() ==> 0 <= #[trigger] idx[j] < i,
                forall|a: int, b: int| 0 <= a < b < idx.len() ==> idx[a] < idx[b],
                forall|j: int| 0 <= j < idx.len() ==> (#[trigger] kept@[j]).0@ == old_entries[idx[j]].0@
                    && kept@[j].1 == old_entries[idx[j]].1 && fresh(kept@[j].1, now, exp),
                forall|a: int| 0 <= a < i && fresh(old_entries[a].1, now, exp) ==> exists|j: int|
                    0 <= j < idx.len() && idx[j] == a,
            decreases old_entries.len() - i,
        {
            let ghost idx0 = idx;
            let t = self.entries[i].1;
            if is_fresh(t, now, exp) {
                let k = self.entries[i].0.clone();
                kept.push((k, t));
                proof {
                    idx = idx.push(i as int);
                }
            }
            proof {
                assert forall|a: int| 0 <= a < i + 1 && fresh(old_entries[a].1, now, exp) implies exists|j: int|
                    0 <= j < idx.len() && idx[j] == a by {
                    if a == i {
                        assert(idx[idx.len() - 1] == a);
                    } else {
                        let j = choose|j: int| 0 <= j < idx0.len() && idx0[j] == a;
                        assert(idx[j] == a);
                    }
                }
            }
            i = i + 1;
        }
        proof {
            let e = kept@;
            assert forall|a: int, b: int| 0 <= a < e.len() && 0 <= b < e.len() && a != b implies e[a].0@
                != e[b].0@ by {
                assert(idx[a] != idx[b]);
            }
            assert forall|k: Seq<char>| #[trigger] has_key(e, k) == (has_key(old_entries, k) && fresh(
                old_entries[key_index(old_entries, k)].1,
                now,
                exp,
            )) by {
                if has_key(e, k) {
                    let j = choose|j: int| 0 <= j < e.len() && e[j].0@ == k;
                    lemma_key_index(old_entries, idx[j]);
                }
                if has_key(old_entries, k) {
                    let a = key_index(old_entries, k);
                    if fresh(old_entries[a].1, now, exp) {
                        let j = choose|j: int| 0 <= j < idx.len() && idx[j] == a;
                        assert(e[j].0@ == k);
                    }
                }
            }
            assert forall|k: Seq<char>| has_key(e, k) implies e[key_index(e, k)].1
                == old_entries[key_index(old_entries, k)].1 by {
                let j = key_index(e, k);
                lemma_key_index(e, j);
                lemma_key_index(old_entries, idx[j]);
            }
        }
        self.entries = kept;
        proof {
            assert(self@ =~= Self::spec_fresh_part(old(self)@, old(self).expiry(), now));
        }
    }

    /// Drops every record that is not fresh now, by the system clock.
    pub fn cleanup_expired(&mut self)
        ensures
            exists|now: i128| final(self)@ == Self::spec_fresh_part(old(self)@, old(self).expiry(), now),
            final(self).expiry() == old(self).expiry(),
    {
        let now = clock_now_nanos();
        self.cleanup_expired_at(now);
    }

    /// One entry per recorded address, each with the count 1.
    pub fn get_ip_stats(&self) -> (r: Vec<(String, u64)>)
        ensures
            keys_unique(r@),
            forall|k: Seq<char>| has_key(r@, k) == self@.contains_key(k),
            forall|j: int| 0 <= j < r@.len() ==> (#[trigger] r@[j]).1 == 1,
    {
        proof {
            use_type_invariant(self);
        }
        let mut r: Vec<(String, u64)> = Vec::new();
        let mut i: usize = 0;
        while i < self.entries.len()
            invariant
                keys_unique(self.entries@),
                i <= self.entries@.len(),
                r@.len() == i,
                forall|j: int| 0 <= j < i ==> (#[trigger] r@[j]).0@ == self.entries@[j].0@ && r@[j].1
                    == 1,
            decreases self.entries@.len() - i,
        {
            let k = self.entries[i].0.clone();
            r.push((k, 1));
            i = i + 1;
        }
        proof {
            assert forall|k: Seq<char>| has_key(r@, k) == has_key(self.entries@, k) by {
                if has_key(r@, k) {
                    let j = choose|j: int| 0 <= j < r@.len() && r@[j].0@ == k;
                    assert(self.entries@[j].0@ == k);
                }
                if has_key(self.entries@, k) {
                    let j = choose|j: int| 0 <= j < self.entries@.len() && self.entries@[j].0@ == k;
                    assert(r@[j].0@ == k);
                }
            }
        }
        r
    }
}

} // verus!
