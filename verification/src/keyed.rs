//! Tables keyed by client address text, held as vectors of pairs with
//! distinct keys, and read as maps.

use vstd::prelude::*;

verus! {

/// No key occurs twice.
pub open spec fn keys_unique<V>(s: Seq<(String, V)>) -> bool {
    forall|i: int, j: int| 0 <= i < s.len() && 0 <= j < s.len() && i != j ==> s[i].0@ != s[j].0@
}

/// Some entry has key `k`.
pub open spec fn has_key<V>(s: Seq<(String, V)>, k: Seq<char>) -> bool {
    exists|i: int| 0 <= i < s.len() && s[i].0@ == k
}

/// The position of an entry with key `k`, where there is one.
pub open spec fn key_index<V>(s: Seq<(String, V)>, k: Seq<char>) -> int {
    choose|i: int| 0 <= i < s.len() && s[i].0@ == k
}

/// With distinct keys, the entry with the key of entry `i` is entry `i`.
pub proof fn lemma_key_index<V>(s: Seq<(String, V)>, i: int)
    requires
        keys_unique(s),
        0 <= i < s.len(),
    ensures
        has_key(s, s[i].0@),
        key_index(s, s[i].0@) == i,
{
    let k = s[i].0@;
    assert(0 <= i < s.len() && s[i].0@ == k);
    let j = key_index(s, k);
    assert(0 <= j < s.len() && s[j].0@ == k);
}

/// Looks a key up: the position of its entry, if any.
pub fn find_key<V>(entries: &Vec<(String, V)>, key: &String) -> (r: Option<usize>)
    requires
        keys_unique(entries@),
    ensures
        match r {
            Some(i) => i < entries@.len() && entries@[i as int].0@ == key@ && key_index(entries@, key@)
                == i,
            None => !has_key(entries@, key@),
        },
{
    let mut i: usize = 0;
    while i < entries.len()
        invariant
            i <= entries@.len(),
            keys_unique(entries@),
            forall|j: int| 0 <= j < i ==> entries@[j].0@ != key@,
        decreases entries@.len() - i,
    {
        if entries[i].0 == *key {
            proof {
                lemma_key_index(entries@, i as int);
            }
            return Some(i);
        }
        i = i + 1;
    }
    None
}

/// The value stored under key `k`.
pub open spec fn value_at<V>(s: Seq<(String, V)>, k: Seq<char>) -> V {
    s[key_index(s, k)].1
}

/// Replacing the value of entry `i`, under the same key, keeps the keys and
/// changes only that key's value.
pub proof fn lemma_replace_value<V>(s: Seq<(String, V)>, t: Seq<(String, V)>, i: int)
    requires
        keys_unique(s),
        0 <= i < s.len(),
        t.len() == s.len(),
        t[i].0@ == s[i].0@,
        forall|j: int| 0 <= j < s.len() && j != i ==> t[j] == s[j],
    ensures
        keys_unique(t),
        forall|k: Seq<char>| #[trigger] has_key(t, k) == has_key(s, k),
        forall|k: Seq<char>|
            has_key(t, k) ==> #[trigger] value_at(t, k) == (if k == s[i].0@ {
                t[i].1
            } else {
                value_at(s, k)
            }),
{
    assert forall|a: int, b: int| 0 <= a < t.len() && 0 <= b < t.len() && a != b implies t[a].0@
        != t[b].0@ by {
        assert(s[a].0@ != s[b].0@);
    }
    assert forall|k: Seq<char>| #[trigger] has_key(t, k) == has_key(s, k) by {
        if has_key(s, k) {
            let j = choose|j: int| 0 <= j < s.len() && s[j].0@ == k;
            assert(t[j].0@ == k);
        }
        if has_key(t, k) {
            let j = choose|j: int| 0 <= j < t.len() && t[j].0@ == k;
            assert(s[j].0@ == k);
        }
    }
    assert forall|k: Seq<char>| has_key(t, k) implies #[trigger] value_at(t, k) == (if k == s[i].0@ {
        t[i].1
    } else {
        value_at(s, k)
    }) by {
        let j = key_index(t, k);
        lemma_key_index(t, j);
        lemma_key_index(s, j);
    }
}

/// Appending an entry under a new key adds that key.
pub proof fn lemma_push_entry<V>(s: Seq<(String, V)>, e: (String, V))
    requires
        keys_unique(s),
        !has_key(s, e.0@),
    ensures
        keys_unique(s.push(e)),
        forall|k: Seq<char>| #[trigger] has_key(s.push(e), k) == (has_key(s, k) || k == e.0@),
        forall|k: Seq<char>|
            has_key(s.push(e), k) ==> #[trigger] value_at(s.push(e), k) == (if k == e.0@ {
                e.1
            } else {
                value_at(s, k)
            }),
{
    let t = s.push(e);
    let n = s.len() as int;
    assert forall|a: int, b: int| 0 <= a < t.len() && 0 <= b < t.len() && a != b implies t[a].0@
        != t[b].0@ by {
        if a == n {
            assert(s[b].0@ != e.0@);
        } else if b == n {
            assert(s[a].0@ != e.0@);
        } else {
            assert(s[a].0@ != s[b].0@);
        }
    }
    assert forall|k: Seq<char>| #[trigger] has_key(t, k) == (has_key(s, k) || k == e.0@) by {
        if has_key(s, k) {
            let j = choose|j: int| 0 <= j < s.len() && s[j].0@ == k;
            assert(t[j].0@ == k);
        }
        if has_key(t, k) {
            let j = choose|j: int| 0 <= j < t.len() && t[j].0@ == k;
            if j != n {
                assert(s[j].0@ == k);
            }
        }
        if k == e.0@ {
            assert(t[n].0@ == k);
        }
    }
    assert forall|k: Seq<char>| has_key(t, k) implies #[trigger] value_at(t, k) == (if k == e.0@ {
        e.1
    } else {
        value_at(s, k)
    }) by {
        let j = key_index(t, k);
        lemma_key_index(t, j);
        if j != n {
            lemma_key_index(s, j);
        }
    }
}

/// Removing entry `i` removes its key and keeps every other entry.
pub proof fn lemma_remove_entry<V>(s: Seq<(String, V)>, i: int)
    requires
        keys_unique(s),
        0 <= i < s.len(),
    ensures
        keys_unique(s.remove(i)),
        forall|k: Seq<char>| #[trigger] has_key(s.remove(i), k) == (has_key(s, k) && k != s[i].0@),
        forall|k: Seq<char>|
            has_key(s.remove(i), k) ==> #[trigger] value_at(s.remove(i), k) == value_at(s, k),
{
    let t = s.remove(i);
    assert forall|a: int, b: int| 0 <= a < t.len() && 0 <= b < t.len() && a != b implies t[a].0@
        != t[b].0@ by {
        let sa = if a < i { a } else { a + 1 };
        let sb = if b < i { b } else { b + 1 };
        assert(t[a] == s[sa]);
        assert(t[b] == s[sb]);
    }
    assert forall|k: Seq<char>| #[trigger] has_key(t, k) == (has_key(s, k) && k != s[i].0@) by {
        if has_key(t, k) {
            let j = choose|j: int| 0 <= j < t.len() && t[j].0@ == k;
            let sj = if j < i { j } else { j + 1 };
            assert(t[j] == s[sj]);
            assert(s[sj].0@ != s[i].0@);
        }
        if has_key(s, k) && k != s[i].0@ {
            let j = choose|j: int| 0 <= j < s.len() && s[j].0@ == k;
            if j < i {
                assert(t[j] == s[j]);
            } else {
                assert(t[j - 1] == s[j]);
            }
        }
    }
    assert forall|k: Seq<char>| has_key(t, k) implies #[trigger] value_at(t, k) == value_at(s, k) by {
        let j = key_index(t, k);
        lemma_key_index(t, j);
        let sj = if j < i { j } else { j + 1 };
        assert(t[j] == s[sj]);
        lemma_key_index(s, sj);
    }
}

} // verus!
