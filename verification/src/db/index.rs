//! Maps that remember the order in which their keys came, and what the store
//! relies on of them.
//!
//! The maps themselves are `indexmap::IndexMap`. What one holds is spoken of as
//! a sequence of pairs of key and value, in the order of the map, and the
//! functions at the end of this file say what each call does to that sequence.

use indexmap::IndexMap;
use vstd::prelude::*;

use crate::db::guest::{Guest, GuestView};
use crate::db::Group;
use crate::user::{Ident, NameKey};

verus! {

/// Whether some pair of the sequence has this key.
pub open spec fn has_key<K, V>(s: Seq<(K, V)>, k: K) -> bool {
    exists|i: int| 0 <= i < s.len() && (#[trigger] s[i]).0 == k
}

/// A place at which the key stands, where it stands anywhere.
pub open spec fn index_of<K, V>(s: Seq<(K, V)>, k: K) -> int {
    choose|i: int| 0 <= i < s.len() && (#[trigger] s[i]).0 == k
}

/// The value that stands with the key.
pub open spec fn value_of<K, V>(s: Seq<(K, V)>, k: K) -> V {
    s[index_of(s, k)].1
}

/// No key stands at two places.
pub open spec fn distinct_keys<K, V>(s: Seq<(K, V)>) -> bool {
    forall|i: int, j: int|
        0 <= i < s.len() && 0 <= j < s.len() && i != j ==> (#[trigger] s[i]).0 != (#[trigger] s[j]).0
}

/// The sequence after the value has been put under the key: in the key's place
/// where the key stands already, at the end where it does not.
pub open spec fn put<K, V>(s: Seq<(K, V)>, k: K, v: V) -> Seq<(K, V)> {
    if has_key(s, k) {
        s.update(index_of(s, k), (k, v))
    } else {
        s.push((k, v))
    }
}

/// Where a key stands, `index_of` finds a place that holds it; where the keys
/// are distinct, that place is the only one.
pub proof fn lemma_index_of<K, V>(s: Seq<(K, V)>, i: int)
    requires
        0 <= i < s.len(),
    ensures
        has_key(s, s[i].0),
        0 <= index_of(s, s[i].0) < s.len(),
        s[index_of(s, s[i].0)].0 == s[i].0,
        distinct_keys(s) ==> index_of(s, s[i].0) == i && value_of(s, s[i].0) == s[i].1,
{
}

/// A key that the sequence has stands at the place that `index_of` gives.
pub proof fn lemma_has_key<K, V>(s: Seq<(K, V)>, k: K)
    requires
        has_key(s, k),
    ensures
        0 <= index_of(s, k) < s.len(),
        s[index_of(s, k)].0 == k,
        s[index_of(s, k)].1 == value_of(s, k),
{
}

/// What `put` does to the keys and to the values, and that it keeps the keys
/// distinct.
pub proof fn lemma_put<K, V>(s: Seq<(K, V)>, k: K, v: V)
    requires
        distinct_keys(s),
    ensures
        distinct_keys(put(s, k, v)),
        has_key(put(s, k, v), k),
        value_of(put(s, k, v), k) == v,
        forall|other: K| #[trigger] has_key(put(s, k, v), other) <==> (other == k || has_key(s, other)),
        forall|other: K|
            other != k && has_key(s, other) ==> #[trigger] value_of(put(s, k, v), other)
                == value_of(s, other),
        has_key(s, k) ==> put(s, k, v).len() == s.len(),
        !has_key(s, k) ==> put(s, k, v) == s.push((k, v)),
{
    let t = put(s, k, v);
    let p = if has_key(s, k) {
        index_of(s, k)
    } else {
        s.len() as int
    };
    lemma_index_of(t, p);
    assert forall|other: K| #[trigger] has_key(t, other) <==> (other == k || has_key(s, other)) by {
        if has_key(t, other) {
            lemma_has_key(t, other);
        }
        if has_key(s, other) {
            assert(t[index_of(s, other)].0 == other);
        }
    }
    assert forall|other: K| other != k && has_key(s, other) implies #[trigger] value_of(t, other)
        == value_of(s, other) by {
        lemma_index_of(t, index_of(s, other));
    }
}

#[verifier::external_type_specification]
#[verifier::external_body]
#[verifier::reject_recursive_types(K)]
#[verifier::reject_recursive_types(V)]
#[verifier::reject_recursive_types(S)]
pub struct ExIndexMap<K, V, S>(IndexMap<K, V, S>);

/// The pairs of identifier and guest that a map of guests holds, in its order.
pub uninterp spec fn guest_entries(m: IndexMap<u128, Guest>) -> Seq<(u128, GuestView)>;

/// The pairs of group and members that a map of groups holds, in its order.
pub uninterp spec fn group_entries(m: IndexMap<Group, Vec<Ident>>) -> Seq<(Group, Seq<Ident>)>;

/// The pairs of name key and identifier that a map of names holds, in its
/// order.
pub uninterp spec fn name_entries(m: IndexMap<(String, String), Ident>) -> Seq<(NameKey, Ident)>;

/// A map of guests that holds nothing (`IndexMap::new`).
#[verifier::external_body]
pub(crate) fn guests_new() -> (m: IndexMap<u128, Guest>)
    ensures
        guest_entries(m) == Seq::<(u128, GuestView)>::empty(),
{
    IndexMap::new()
}

/// `IndexMap::insert`: a key that the map has keeps its place and gets the new
/// value; a key that it lacks comes last.
#[verifier::external_body]
pub(crate) fn guests_insert(m: &mut IndexMap<u128, Guest>, id: u128, guest: Guest)
    ensures
        guest_entries(*final(m)) == put(guest_entries(*old(m)), id, guest@),
{
    m.insert(id, guest);
}

/// `IndexMap::get`: the guest that stands with the identifier, if the map has
/// the identifier.
#[verifier::external_body]
pub(crate) fn guests_get(m: &IndexMap<u128, Guest>, id: u128) -> (r: Option<&Guest>)
    ensures
        r.is_some() == has_key(guest_entries(*m), id),
        r.is_some() ==> r.unwrap()@ == value_of(guest_entries(*m), id),
{
    m.get(&id)
}

/// `IndexMap::get_mut`: the guest that stands with the identifier, open to
/// change; what the caller leaves there is what the map then holds under the
/// identifier, and nothing else in the map changes.
#[verifier::external_body]
pub(crate) fn guests_get_mut(m: &mut IndexMap<u128, Guest>, id: u128) -> (r: Option<&mut Guest>)
    ensures
        r.is_some() == has_key(guest_entries(*old(m)), id),
        match r {
            Some(g) => (*g)@ == value_of(guest_entries(*old(m)), id) && guest_entries(*final(m))
                == put(guest_entries(*old(m)), id, (*final(g))@),
            None => guest_entries(*final(m)) == guest_entries(*old(m)),
        },
{
    m.get_mut(&id)
}

/// `IndexMap::len`: how many guests the map holds.
#[verifier::external_body]
pub(crate) fn guests_len(m: &IndexMap<u128, Guest>) -> (n: usize)
    ensures
        n == guest_entries(*m).len(),
{
    m.len()
}

/// `IndexMap::values`: the guests of the map, in its order.
#[verifier::external_body]
pub(crate) fn guests_values(m: &IndexMap<u128, Guest>) -> (r: Vec<&Guest>)
    ensures
        r@.len() == guest_entries(*m).len(),
        forall|i: int| 0 <= i < r@.len() ==> (#[trigger] r@[i])@ == guest_entries(*m)[i].1,
{
    m.values().collect()
}

/// A map of groups that holds nothing (`IndexMap::new`).
#[verifier::external_body]
pub(crate) fn groups_new() -> (m: IndexMap<Group, Vec<Ident>>)
    ensures
        group_entries(m) == Seq::<(Group, Seq<Ident>)>::empty(),
{
    IndexMap::new()
}

/// `IndexMap::entry` and `Entry::or_default`: the members that stand with the
/// group, open to change, after an empty list has been put last for a group
/// that the map lacked; what the caller leaves there is what the map then
/// holds under the group, and nothing else in the map changes.
#[verifier::external_body]
pub(crate) fn groups_entry(m: &mut IndexMap<Group, Vec<Ident>>, group: Group) -> (r: &mut Vec<
    Ident,
>)
    ensures
        r@ == if has_key(group_entries(*old(m)), group) {
            value_of(group_entries(*old(m)), group)
        } else {
            Seq::<Ident>::empty()
        },
        group_entries(*final(m)) == put(group_entries(*old(m)), group, final(r)@),
{
    m.entry(group).or_default()
}

/// `IndexMap::get`: the members that stand with the group, if the map has the
/// group.
#[verifier::external_body]
pub(crate) fn groups_get(m: &IndexMap<Group, Vec<Ident>>, group: Group) -> (r: Option<&Vec<Ident>>)
    ensures
        r.is_some() == has_key(group_entries(*m), group),
        r.is_some() ==> r.unwrap()@ == value_of(group_entries(*m), group),
{
    m.get(&group)
}

/// A map of names that holds nothing (`IndexMap::new`).
#[verifier::external_body]
pub(crate) fn names_new() -> (m: IndexMap<(String, String), Ident>)
    ensures
        name_entries(m) == Seq::<(NameKey, Ident)>::empty(),
{
    IndexMap::new()
}

/// `IndexMap::insert`: a key that the map has keeps its place and gets the new
/// identifier; a key that it lacks comes last.
#[verifier::external_body]
pub(crate) fn names_insert(m: &mut IndexMap<(String, String), Ident>, key: (String, String), id: Ident)
    ensures
        name_entries(*final(m)) == put(name_entries(*old(m)), (key.0@, key.1@), id),
{
    m.insert(key, id);
}

/// `IndexMap::get`: the identifier that stands with the key, if the map has
/// the key.
#[verifier::external_body]
pub(crate) fn names_get<'a>(m: &'a IndexMap<(String, String), Ident>, key: &(String, String)) -> (r:
    Option<&'a Ident>)
    ensures
        r.is_some() == has_key(name_entries(*m), (key.0@, key.1@)),
        r.is_some() ==> *r.unwrap() == value_of(name_entries(*m), (key.0@, key.1@)),
{
    m.get(key)
}

} // verus!
