//! Lists of named JSON values, read as maps from name to value.

use vstd::prelude::*;
use crate::json::{JsonValue, JsonView};
use crate::text::str_eq;

verus! {

/// The map that a list of entries stands for when only its first `n` count,
/// a later entry overriding an earlier one with the same key.
pub open spec fn entries_map(entries: Seq<(String, JsonValue)>, n: nat) -> Map<
    Seq<char>,
    JsonView,
>
    decreases n,
{
    if n == 0 || n > entries.len() {
        Map::empty()
    } else {
        entries_map(entries, (n - 1) as nat).insert(entries[n - 1].0@, entries[n - 1].1@)
    }
}

/// The map that a list of entries stands for.
pub open spec fn entries_view(entries: Seq<(String, JsonValue)>) -> Map<Seq<char>, JsonView> {
    entries_map(entries, entries.len())
}

pub proof fn lemma_entries_map_prefix(
    a: Seq<(String, JsonValue)>,
    b: Seq<(String, JsonValue)>,
    n: nat,
)
    requires
        n <= a.len(),
        n <= b.len(),
        forall|j: int| 0 <= j < n ==> a[j] == b[j],
    ensures
        entries_map(a, n) == entries_map(b, n),
    decreases n,
{
    if n > 0 {
        lemma_entries_map_prefix(a, b, (n - 1) as nat);
    }
}

pub proof fn lemma_entries_map_lookup(entries: Seq<(String, JsonValue)>, n: nat, key: Seq<char>)
    requires
        n <= entries.len(),
    ensures
        entries_map(entries, n).contains_key(key) <==> exists|j: int|
            0 <= j < n && #[trigger] entries[j].0@ == key,
        forall|i: int|
            0 <= i < n && #[trigger] entries[i].0@ == key && (forall|j: int|
                i < j < n ==> #[trigger] entries[j].0@ != key) ==> entries_map(entries, n)[key]
                == entries[i].1@,
    decreases n,
{
    if n > 0 {
        lemma_entries_map_lookup(entries, (n - 1) as nat, key);
        if entries[n - 1].0@ == key {
        } else {
            assert forall|i: int|
                0 <= i < n && #[trigger] entries[i].0@ == key && (forall|j: int|
                    i < j < n ==> #[trigger] entries[j].0@ != key) implies entries_map(
                entries,
                n,
            )[key] == entries[i].1@ by {
                assert(i < n - 1);
            }
        }
    }
}

pub proof fn lemma_entries_map_update(
    entries: Seq<(String, JsonValue)>,
    n: nat,
    i: int,
    entry: (String, JsonValue),
)
    requires
        0 <= i < n <= entries.len(),
        entries[i].0@ == entry.0@,
        forall|j: int| i < j < n ==> #[trigger] entries[j].0@ != entry.0@,
    ensures
        entries_map(entries.update(i, entry), n) == entries_map(entries, n).insert(
            entry.0@,
            entry.1@,
        ),
    decreases n,
{
    let updated = entries.update(i, entry);
    if i == n - 1 {
        lemma_entries_map_prefix(updated, entries, (n - 1) as nat);
        assert(entries_map(updated, n) =~= entries_map(entries, n).insert(entry.0@, entry.1@));
    } else {
        lemma_entries_map_update(entries, (n - 1) as nat, i, entry);
        assert(entries[n - 1].0@ != entry.0@);
        assert(updated[n - 1] == entries[n - 1]);
        assert(entries_map(updated, n) =~= entries_map(entries, n).insert(entry.0@, entry.1@));
    }
}

/// Index of the last entry with this key.
pub fn find_entry(entries: &Vec<(String, JsonValue)>, key: &str) -> (r: Option<usize>)
    ensures
        match r {
            Some(i) => i < entries@.len() && entries@[i as int].0@ == key@ && forall|j: int|
                i < j < entries@.len() ==> #[trigger] entries@[j].0@ != key@,
            None => forall|j: int| 0 <= j < entries@.len() ==> #[trigger] entries@[j].0@ != key@,
        },
        r is Some <==> entries_view(entries@).contains_key(key@),
        r matches Some(i) ==> entries_view(entries@)[key@] == entries@[i as int].1@,
{
    let mut i: usize = entries.len();
    while i > 0
        invariant
            i <= entries@.len(),
            forall|j: int| i <= j < entries@.len() ==> #[trigger] entries@[j].0@ != key@,
        decreases i,
    {
        i -= 1;
        if str_eq(entries[i].0.as_str(), key) {
            proof {
                lemma_entries_map_lookup(entries@, entries@.len(), key@);
            }
            return Some(i);
        }
    }
    proof {
        lemma_entries_map_lookup(entries@, entries@.len(), key@);
    }
    None
}

/// Puts `value` under `key`, in place of what was there.
pub fn put_entry(entries: &mut Vec<(String, JsonValue)>, key: &str, value: JsonValue)
    ensures
        entries_view(final(entries)@) == entries_view(old(entries)@).insert(key@, value@),
{
    let ghost before = entries@;
    let entry = (key.to_owned(), value);
    match find_entry(entries, key) {
        Some(i) => {
            proof {
                lemma_entries_map_update(before, before.len(), i as int, entry);
            }
            entries.set(i, entry);
        },
        None => {
            entries.push(entry);
            proof {
                lemma_entries_map_prefix(entries@, before, before.len());
            }
        },
    }
}

/// A copy of the value under `key`.
pub fn get_entry(entries: &Vec<(String, JsonValue)>, key: &str) -> (r: Option<JsonValue>)
    ensures
        match r {
            Some(v) => entries_view(entries@).contains_key(key@) && v@ == entries_view(
                entries@,
            )[key@],
            None => !entries_view(entries@).contains_key(key@),
        },
{
    match find_entry(entries, key) {
        Some(i) => Some(entries[i].1.duplicate()),
        None => None,
    }
}

} // verus!
