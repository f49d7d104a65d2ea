//! Tables and sets keyed by the bits of an identifier.
//!
//! They are the hash map and hash set of the standard library with the
//! hasher of the `fxhash` crate. The hasher is a deterministic function of
//! the key, and a `u128` key is equal to another exactly when its bits are,
//! so a table holds one value per key and a set holds a key at most once.
//! The functions below wrap the operations the library uses and state what
//! each does to the contents, `table@` and `set@`.

use crate::id::QuipId;
use fxhash::{FxHashMap, FxHashSet};
use vstd::prelude::*;

verus! {

/// The hasher of the `fxhash` crate, `fxhash::FxHasher`: nothing of it is
/// looked into.
#[verifier::external_type_specification]
#[verifier::external_body]
pub struct ExFxHasher(fxhash::FxHasher);

/// The builder of hashers of the standard library,
/// `std::hash::BuildHasherDefault`: nothing of it is looked into.
#[verifier::external_type_specification]
#[verifier::external_body]
#[verifier::reject_recursive_types(H)]
pub struct ExBuildHasherDefault<H>(std::hash::BuildHasherDefault<H>);

/// The identifiers whose bits are in `set`.
pub open spec fn ids_of(set: Set<u128>) -> Set<QuipId> {
    Set::new(|id: QuipId| set.contains(id.0))
}

/// The table, by identifier.
pub open spec fn by_id<V>(table: Map<u128, V>) -> Map<QuipId, V> {
    Map::new(|id: QuipId| table.contains_key(id.0), |id: QuipId| table[id.0])
}

/// The table that holds nothing.
pub open spec fn empty_table<V>() -> Map<u128, V> {
    Map::empty()
}

/// Whether `entries` lists what `table` holds: every entry once, and
/// nothing else.
pub open spec fn lists<V>(entries: Seq<(u128, V)>, table: Map<u128, V>) -> bool {
    &&& forall|i: int|
        0 <= i < entries.len() ==> table.contains_key((#[trigger] entries[i]).0) && table[entries[i].0]
            == entries[i].1
    &&& forall|i: int, j: int|
        0 <= i < j < entries.len() ==> (#[trigger] entries[i]).0 != (#[trigger] entries[j]).0
    &&& forall|key: u128| #[trigger]
        table.contains_key(key) ==> exists|i: int| 0 <= i < entries.len() && #[trigger] entries[i].0 == key
}

/// An empty table.
///
/// Wraps `FxHashMap::default`, which makes a map without entries.
#[verifier::external_body]
pub(crate) fn table_new<V>() -> (made: FxHashMap<u128, V>)
    ensures
        made@ == empty_table::<V>(),
{
    FxHashMap::default()
}

/// Puts `value` under `key` and hands back what was there before.
///
/// Wraps `HashMap::insert`: the map then holds `value` under `key` and is
/// otherwise unchanged; the result is the value the key had, if any.
#[verifier::external_body]
pub(crate) fn table_insert<V>(table: &mut FxHashMap<u128, V>, key: u128, value: V) -> (before:
    Option<V>)
    ensures
        final(table)@ == old(table)@.insert(key, value),
        before == if old(table)@.contains_key(key) {
            Some(old(table)@[key])
        } else {
            None
        },
{
    table.insert(key, value)
}

/// Takes `key` out and hands back what it held.
///
/// Wraps `HashMap::remove`: the map then has no entry under `key` and is
/// otherwise unchanged; the result is the value the key had, if any.
#[verifier::external_body]
pub(crate) fn table_remove<V>(table: &mut FxHashMap<u128, V>, key: u128) -> (before: Option<V>)
    ensures
        final(table)@ == old(table)@.remove(key),
        before == if old(table)@.contains_key(key) {
            Some(old(table)@[key])
        } else {
            None
        },
{
    table.remove(&key)
}

/// The value under `key`, if there is one.
///
/// Wraps `HashMap::get`.
#[verifier::external_body]
pub(crate) fn table_get<'a, V>(table: &'a FxHashMap<u128, V>, key: u128) -> (found: Option<&'a V>)
    ensures
        found == if table@.contains_key(key) {
            Some(&table@[key])
        } else {
            None
        },
{
    table.get(&key)
}

/// Empties the table.
///
/// Wraps `HashMap::clear`, which removes every entry.
#[verifier::external_body]
pub(crate) fn table_clear<V>(table: &mut FxHashMap<u128, V>)
    ensures
        final(table)@ == empty_table::<V>(),
{
    table.clear()
}

/// The entries of the table, in the order in which the map hands them out.
///
/// Wraps `HashMap::iter`, which visits every entry once, in no stated
/// order.
#[verifier::external_body]
pub(crate) fn table_entries<'a, V>(table: &'a FxHashMap<u128, V>) -> (entries: Vec<(u128, &'a V)>)
    ensures
        lists(Seq::new(entries@.len(), |i: int| (entries@[i].0, *entries@[i].1)), table@),
{
    table.iter().map(|(key, value)| (*key, value)).collect()
}

/// An empty set.
///
/// Wraps `FxHashSet::default`, which makes a set without members.
#[verifier::external_body]
pub(crate) fn set_new() -> (made: FxHashSet<u128>)
    ensures
        made@ == Set::<u128>::empty(),
{
    FxHashSet::default()
}

/// Adds `key`; says whether it was new.
///
/// Wraps `HashSet::insert`: the set then holds `key`, and the result is
/// `true` exactly when it did not before.
#[verifier::external_body]
pub(crate) fn set_insert(set: &mut FxHashSet<u128>, key: u128) -> (fresh: bool)
    ensures
        final(set)@ == old(set)@.insert(key),
        fresh == !old(set)@.contains(key),
{
    set.insert(key)
}

/// Takes `key` out; says whether it was there.
///
/// Wraps `HashSet::remove`: the set then does not hold `key`, and the
/// result is `true` exactly when it did before.
#[verifier::external_body]
pub(crate) fn set_remove(set: &mut FxHashSet<u128>, key: u128) -> (present: bool)
    ensures
        final(set)@ == old(set)@.remove(key),
        present == old(set)@.contains(key),
{
    set.remove(&key)
}

/// Whether `items` lists the members of `set`: every member once, and
/// nothing else.
pub open spec fn lists_members(items: Seq<u128>, set: Set<u128>) -> bool {
    &&& items.no_duplicates()
    &&& forall|key: u128| items.contains(key) <==> set.contains(key)
}

/// Whether `key` is a member of the set.
///
/// Wraps `HashSet::contains`.
#[verifier::external_body]
pub(crate) fn set_contains(set: &FxHashSet<u128>, key: u128) -> (present: bool)
    ensures
        present == set@.contains(key),
{
    set.contains(&key)
}

/// Whether the set has no member.
///
/// Wraps `HashSet::is_empty`.
#[verifier::external_body]
pub(crate) fn set_is_empty(set: &FxHashSet<u128>) -> (none: bool)
    ensures
        none == (set@ == Set::<u128>::empty()),
        none <==> forall|key: u128| !set@.contains(key),
{
    set.is_empty()
}

/// The members of the set, in the order in which the set hands them out.
///
/// Wraps `HashSet::iter`, which visits every member once, in no stated
/// order.
#[verifier::external_body]
pub(crate) fn set_items(set: &FxHashSet<u128>) -> (items: Vec<u128>)
    ensures
        lists_members(items@, set@),
{
    set.iter().copied().collect()
}

/// Empties the set and hands out its members, in the order in which the
/// set hands them out.
///
/// Wraps `HashSet::drain`, which removes every member and yields each
/// once, in no stated order.
#[verifier::external_body]
pub(crate) fn set_drain(set: &mut FxHashSet<u128>) -> (items: Vec<u128>)
    ensures
        lists_members(items@, old(set)@),
        final(set)@ == Set::<u128>::empty(),
{
    set.drain().collect()
}

/// Moves every member of `from` into `into`.
pub(crate) fn move_all(from: &mut FxHashSet<u128>, into: &mut FxHashSet<u128>)
    ensures
        final(from)@ == Set::<u128>::empty(),
        final(into)@ == old(into)@.union(old(from)@),
{
    let drained = set_drain(from);
    let mut i: usize = 0;
    while i < drained.len()
        invariant
            i <= drained.len(),
            forall|key: u128|
                into@.contains(key) <==> old(into)@.contains(key) || exists|j: int|
                    0 <= j < i && drained@[j] == key,
        decreases drained.len() - i,
    {
        let _ = set_insert(into, drained[i]);
        i += 1;
    }
    assert(into@ =~= old(into)@.union(old(from)@)) by {
        assert forall|key: u128| into@.contains(key) <==> old(into)@.union(old(from)@).contains(
            key,
        ) by {
            if old(from)@.contains(key) {
                assert(drained@.contains(key));
            }
        }
    }
}

} // verus!
