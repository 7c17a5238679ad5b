//! Association lists from user ids to unsigned values, the shape in which the
//! game state keeps its per-participant tables. Each key occurs at most once;
//! the order of the entries is the order in which keys were first inserted.
use vstd::prelude::*;

verus! {

/// No key occurs twice.
pub open spec fn keys_unique(s: Seq<(u64, u64)>) -> bool {
    forall|i: int, j: int| 0 <= i < s.len() && 0 <= j < s.len() && i != j ==> s[i].0 != s[j].0
}

/// The map an association list stands for; a later entry wins over an earlier
/// one with the same key, though with unique keys there is none.
pub open spec fn assoc_map(s: Seq<(u64, u64)>) -> Map<u64, u64>
    decreases s.len(),
{
    if s.len() == 0 {
        Map::empty()
    } else {
        assoc_map(s.drop_last()).insert(s.last().0, s.last().1)
    }
}

/// The keys of an association list are the domain of its map, and with unique
/// keys each entry gives its key's value.
pub proof fn lemma_assoc_map(s: Seq<(u64, u64)>)
    ensures
        forall|k: u64| #[trigger]
            assoc_map(s).dom().contains(k) <==> exists|i: int| 0 <= i < s.len() && s[i].0 == k,
        keys_unique(s) ==> forall|i: int| 0 <= i < s.len() ==> #[trigger] assoc_map(s)[s[i].0]
            == s[i].1,
    decreases s.len(),
{
    if s.len() > 0 {
        let t = s.drop_last();
        lemma_assoc_map(t);
        assert forall|k: u64| #[trigger]
            assoc_map(s).dom().contains(k) <==> exists|i: int| 0 <= i < s.len() && s[i].0 == k by {
            if assoc_map(s).dom().contains(k) && k != s.last().0 {
                assert(assoc_map(t).dom().contains(k));
                let i = choose|i: int| 0 <= i < t.len() && t[i].0 == k;
                assert(s[i].0 == k);
            }
            if exists|i: int| 0 <= i < s.len() && s[i].0 == k {
                let i = choose|i: int| 0 <= i < s.len() && s[i].0 == k;
                if i < s.len() - 1 {
                    assert(t[i].0 == k);
                    assert(assoc_map(t).dom().contains(k));
                }
            }
        }
        if keys_unique(s) {
            assert(keys_unique(t));
            assert forall|i: int| 0 <= i < s.len() implies #[trigger] assoc_map(s)[s[i].0]
                == s[i].1 by {
                if i < s.len() - 1 {
                    assert(t[i] == s[i]);
                    assert(assoc_map(t)[t[i].0] == t[i].1);
                }
            }
        }
    }
}

/// Writing a new value into the entry of an existing key is an insert into
/// the map.
pub proof fn lemma_assoc_map_update(s: Seq<(u64, u64)>, i: int, v: u64)
    requires
        keys_unique(s),
        0 <= i < s.len(),
    ensures
        keys_unique(s.update(i, (s[i].0, v))),
        assoc_map(s.update(i, (s[i].0, v))) == assoc_map(s).insert(s[i].0, v),
{
    let u = s.update(i, (s[i].0, v));
    lemma_assoc_map(s);
    lemma_assoc_map(u);
    assert(keys_unique(u));
    assert forall|k: u64| #[trigger] assoc_map(u).dom().contains(k) <==> assoc_map(s).insert(
        s[i].0,
        v,
    ).dom().contains(k) by {
        if exists|j: int| 0 <= j < s.len() && s[j].0 == k {
            let j = choose|j: int| 0 <= j < s.len() && s[j].0 == k;
            assert(u[j].0 == k);
        }
        if exists|j: int| 0 <= j < u.len() && u[j].0 == k {
            let j = choose|j: int| 0 <= j < u.len() && u[j].0 == k;
            assert(s[j].0 == k);
        }
    }
    assert forall|k: u64| #[trigger] assoc_map(u).dom().contains(k) implies assoc_map(u)[k]
        == assoc_map(s).insert(s[i].0, v)[k] by {
        let j = choose|j: int| 0 <= j < u.len() && u[j].0 == k;
        assert(assoc_map(u)[u[j].0] == u[j].1);
        assert(assoc_map(s)[s[j].0] == s[j].1);
    }
    assert(assoc_map(u) =~= assoc_map(s).insert(s[i].0, v));
}

/// `s` with `key` mapped to `value`: the entry of `key` is overwritten in
/// place where there is one, else a new entry is appended.
pub open spec fn with_value(s: Seq<(u64, u64)>, key: u64, value: u64) -> Seq<(u64, u64)> {
    if exists|i: int| 0 <= i < s.len() && s[i].0 == key {
        s.update(choose|i: int| 0 <= i < s.len() && s[i].0 == key, (key, value))
    } else {
        s.push((key, value))
    }
}

/// The position of `key` in `entries`, if it has one.
pub fn find_key(entries: &Vec<(u64, u64)>, key: u64) -> (r: Option<usize>)
    ensures
        match r {
            Some(i) => i < entries@.len() && entries@[i as int].0 == key,
            None => forall|i: int| 0 <= i < entries@.len() ==> entries@[i].0 != key,
        },
{
    let mut i: usize = 0;
    while i < entries.len()
        invariant
            i <= entries@.len(),
            forall|j: int| 0 <= j < i ==> entries@[j].0 != key,
        decreases entries@.len() - i,
    {
        if entries[i].0 == key {
            return Some(i);
        }
        i = i + 1;
    }
    None
}

/// The value stored under `key`, if any.
pub fn get_value(entries: &Vec<(u64, u64)>, key: u64) -> (r: Option<u64>)
    requires
        keys_unique(entries@),
    ensures
        r == (if assoc_map(entries@).dom().contains(key) {
            Some(assoc_map(entries@)[key])
        } else {
            None::<u64>
        }),
{
    proof {
        lemma_assoc_map(entries@);
    }
    match find_key(entries, key) {
        Some(i) => Some(entries[i].1),
        None => None,
    }
}

/// Stores `value` under `key`: an existing entry is overwritten in place, a
/// new key is appended at the end.
pub fn set_value(entries: &mut Vec<(u64, u64)>, key: u64, value: u64)
    requires
        keys_unique(old(entries)@),
    ensures
        keys_unique(final(entries)@),
        final(entries)@ == with_value(old(entries)@, key, value),
        assoc_map(final(entries)@) == assoc_map(old(entries)@).insert(key, value),
{
    match find_key(entries, key) {
        Some(i) => {
            proof {
                lemma_assoc_map_update(entries@, i as int, value);
                let j = choose|j: int| 0 <= j < entries@.len() && entries@[j].0 == key;
                assert(j == i);
            }
            entries.set(i, (key, value));
        },
        None => {
            entries.push((key, value));
            assert(entries@.drop_last() =~= old(entries)@);
        },
    }
}

/// The value under `key`, or 0 where the key has no entry.
pub open spec fn value_or_zero(m: Map<u64, u64>, key: u64) -> int {
    if m.dom().contains(key) {
        m[key] as int
    } else {
        0
    }
}

/// Adds one to the value under `key`, starting from 0 for a new key.
pub fn increment_value(entries: &mut Vec<(u64, u64)>, key: u64)
    requires
        keys_unique(old(entries)@),
        value_or_zero(assoc_map(old(entries)@), key) < u64::MAX,
    ensures
        keys_unique(final(entries)@),
        final(entries)@ == with_value(
            old(entries)@,
            key,
            (value_or_zero(assoc_map(old(entries)@), key) + 1) as u64,
        ),
        assoc_map(final(entries)@) == assoc_map(old(entries)@).insert(
            key,
            (value_or_zero(assoc_map(old(entries)@), key) + 1) as u64,
        ),
{
    let current = get_value(entries, key);
    let next: u64 = match current {
        Some(c) => c + 1,
        None => 1,
    };
    set_value(entries, key, next);
}

/// Whether no key occurs twice in `entries`.
pub fn has_unique_keys(entries: &Vec<(u64, u64)>) -> (r: bool)
    ensures
        r == keys_unique(entries@),
{
    let n = entries.len();
    let mut i: usize = 0;
    while i < n
        invariant
            n == entries@.len(),
            i <= n,
            forall|a: int, b: int| 0 <= a < i && 0 <= b < n && a != b ==> entries@[a].0 != entries@[b].0,
        decreases n - i,
    {
        let mut j: usize = 0;
        while j < n
            invariant
                n == entries@.len(),
                i < n,
                j <= n,
                forall|a: int, b: int| 0 <= a < i && 0 <= b < n && a != b ==> entries@[a].0 != entries@[b].0,
                forall|b: int| 0 <= b < j && b != i ==> entries@[i as int].0 != entries@[b].0,
            decreases n - j,
        {
            if j != i && entries[i].0 == entries[j].0 {
                return false;
            }
            j = j + 1;
        }
        i = i + 1;
    }
    true
}

} // verus!
