//! What is remembered of resources, stated of calls that follow each other.

use vstd::prelude::*;

use crate::cache::{CachedItem, KindMaps, Maps};
use crate::kubeapi::{Item, Kind};
use crate::ordered::{OrderedMap, Payload};
use crate::sync_laws::{ends_in_url, url_keys_end_so};

verus! {

// ---------------------------------------------------------------------------
// Maps
// ---------------------------------------------------------------------------

/// Both are the same value, or both are none.
pub open spec fn same_value<V: Payload>(a: Option<&V>, b: Option<&V>) -> bool {
    &&& a is Some == b is Some
    &&& a is Some ==> a->0.model() == b->0.model()
}

/// What was put into a map is got back under its key; under any other key the
/// map has what it had.
pub proof fn values_are_got_back<V: Payload>(
    map: &mut OrderedMap<V>,
    key: String,
    value: V,
    name: &str,
    before: Option<&V>,
    after: Option<&V>,
    has: bool,
)
    requires
        call_ensures(OrderedMap::<V>::insert, (map, key, value), ()),
        call_ensures(OrderedMap::<V>::get, (old(map), name), before),
        call_ensures(OrderedMap::<V>::get, (final(map), name), after),
        call_ensures(OrderedMap::<V>::contains_key, (final(map), name), has),
    ensures
        name@ == key@ ==> after is Some && after->0.model() == value.model(),
        name@ != key@ ==> same_value(before, after),
        has <==> after is Some,
{
}

/// What was taken out of a map is gone; under any other key the map has what it
/// had.
pub proof fn removed_values_are_gone<V: Payload>(
    map: &mut OrderedMap<V>,
    key: &str,
    name: &str,
    before: Option<&V>,
    after: Option<&V>,
)
    requires
        call_ensures(OrderedMap::<V>::remove, (map, key), ()),
        call_ensures(OrderedMap::<V>::get, (old(map), name), before),
        call_ensures(OrderedMap::<V>::get, (final(map), name), after),
    ensures
        name@ == key@ ==> after is None,
        name@ != key@ ==> same_value(before, after),
{
}

/// An empty map has nothing.
pub proof fn new_maps_are_empty<V: Payload>(map: OrderedMap<V>, name: &str, r: Option<&V>)
    requires
        call_ensures(OrderedMap::<V>::new, (), map),
        call_ensures(OrderedMap::<V>::get, (&map, name), r),
    ensures
        r is None,
{
    if crate::ordered::has_key(map@, name@) {
        let i = choose|i: int| crate::ordered::key_at(map@, name@, i);
        assert(0 <= i < map@.len());
    }
}

// ---------------------------------------------------------------------------
// Versions
// ---------------------------------------------------------------------------

/// The version that was noted of a resource is its current one, and no other
/// is; that of other resources stays.
pub proof fn noted_version_is_current(
    maps: &mut KindMaps,
    key: &str,
    version: &str,
    other_key: &str,
    other_version: &str,
    before: bool,
    after: bool,
)
    requires
        call_ensures(KindMaps::note_version, (maps, key, version), ()),
        call_ensures(KindMaps::is_current, (old(maps), other_key, other_version), before),
        call_ensures(KindMaps::is_current, (final(maps), other_key, other_version), after),
    ensures
        other_key@ == key@ ==> (after <==> other_version@ == version@),
        other_key@ != key@ ==> after == before,
{
}

/// No version is current of a resource whose version was forgotten, or of
/// which nothing was noted; that of other resources stays.
pub proof fn forgotten_version_is_not_current(
    maps: &mut KindMaps,
    key: &str,
    other_key: &str,
    version: &str,
    before: bool,
    after: bool,
    fresh: KindMaps,
    at_first: bool,
)
    requires
        call_ensures(KindMaps::forget_version, (maps, key), ()),
        call_ensures(KindMaps::is_current, (old(maps), other_key, version), before),
        call_ensures(KindMaps::is_current, (final(maps), other_key, version), after),
        call_ensures(KindMaps::new, (), fresh),
        call_ensures(KindMaps::is_current, (&fresh, other_key, version), at_first),
    ensures
        other_key@ == key@ ==> !after,
        other_key@ != key@ ==> after == before,
        !at_first,
{
    if crate::ordered::has_key(fresh@.version, other_key@) {
        let i = choose|i: int| crate::ordered::key_at(fresh@.version, other_key@, i);
        assert(0 <= i < fresh@.version.len());
    }
}

// ---------------------------------------------------------------------------
// Items
// ---------------------------------------------------------------------------

/// The item is what is left of another one when it is to be removed: the same
/// resource with the same keys, with their values where they are URLs, and with
/// empty ones elsewhere.
pub open spec fn is_left_of(left: Item, item: Item) -> bool {
    &&& left.namespace@ == item.namespace@
    &&& left.name@ == item.name@
    &&& left@.text is Some == item@.text is Some
    &&& left@.text is Some ==> {
        let a = left@.text->0;
        let b = item@.text->0;
        &&& a.len() == b.len()
        &&& forall|i: int|
            0 <= i < a.len() ==> {
                &&& (#[trigger] a[i]).0 == b[i].0
                &&& ends_in_url(b[i].0) ==> a[i].1 == b[i].1
                &&& !ends_in_url(b[i].0) ==> a[i].1.len() == 0
            }
    }
    &&& left@.binary is Some == item@.binary is Some
    &&& left@.binary is Some ==> {
        let a = left@.binary->0;
        let b = item@.binary->0;
        &&& a.len() == b.len()
        &&& forall|i: int|
            0 <= i < a.len() ==> {
                &&& (#[trigger] a[i]).0 == b[i].0
                &&& ends_in_url(b[i].0) ==> a[i].1 == b[i].1
                &&& !ends_in_url(b[i].0) ==> a[i].1.len() == 0
            }
    }
}

proof fn left_of(item: Item, left: Item)
    requires
        left@ == crate::cache::removal(crate::cache::cached(item@)),
    ensures
        is_left_of(left, item),
{
    if item@.text is Some {
        let a = left@.text->0;
        let b = item@.text->0;
        assert forall|i: int| 0 <= i < a.len() implies {
            &&& (#[trigger] a[i]).0 == b[i].0
            &&& ends_in_url(b[i].0) ==> a[i].1 == b[i].1
            &&& !ends_in_url(b[i].0) ==> a[i].1.len() == 0
        } by {
            url_keys_end_so(b[i].0);
        }
    }
    if item@.binary is Some {
        let a = left@.binary->0;
        let b = item@.binary->0;
        assert forall|i: int| 0 <= i < a.len() implies {
            &&& (#[trigger] a[i]).0 == b[i].0
            &&& ends_in_url(b[i].0) ==> a[i].1 == b[i].1
            &&& !ends_in_url(b[i].0) ==> a[i].1.len() == 0
        } by {
            url_keys_end_so(b[i].0);
        }
    }
}

/// What is remembered of an item is enough to remove its files.
pub proof fn remembered_items_can_be_removed(item: Item, remembered: CachedItem, left: Item)
    requires
        call_ensures(CachedItem::from_item, (&item,), remembered),
        call_ensures(CachedItem::to_removal_item, (&remembered,), left),
    ensures
        is_left_of(left, item),
{
    left_of(item, left);
}

/// Of two items of one resource that are remembered one after the other, the
/// second call gives back what is left of the first, and its folder. A resource
/// that was not known gives what is left of itself, and its own folder.
pub proof fn last_item_is_given_back(
    fresh: KindMaps,
    first: &mut KindMaps,
    item: Item,
    folder: &str,
    r: (Item, String),
    second: &mut KindMaps,
    later: Item,
    later_folder: &str,
    removed: bool,
    s: (Item, String),
)
    requires
        call_ensures(KindMaps::new, (), fresh),
        *old(first) == fresh,
        call_ensures(KindMaps::remember, (first, &item, folder, false), r),
        *old(second) == *final(first),
        call_ensures(KindMaps::remember, (second, &later, later_folder, removed), s),
        later@.key() == item@.key(),
    ensures
        is_left_of(r.0, item),
        r.1@ == folder@,
        is_left_of(s.0, item),
        s.1@ == folder@,
{
    let key = item@.key();
    if crate::ordered::has_key(fresh@.object, key) {
        let i = choose|i: int| crate::ordered::key_at(fresh@.object, key, i);
        assert(0 <= i < fresh@.object.len());
    }
    if crate::ordered::has_key(fresh@.dest, key) {
        let i = choose|i: int| crate::ordered::key_at(fresh@.dest, key, i);
        assert(0 <= i < fresh@.dest.len());
    }
    left_of(item, r.0);
    left_of(item, s.0);
}

/// An item that was removed is forgotten: the next one gives what is left of
/// itself. The folder stays known.
pub proof fn removed_item_is_forgotten(
    first: &mut KindMaps,
    item: Item,
    folder: &str,
    r: (Item, String),
    second: &mut KindMaps,
    later: Item,
    later_folder: &str,
    s: (Item, String),
)
    requires
        call_ensures(KindMaps::remember, (first, &item, folder, true), r),
        *old(second) == *final(first),
        call_ensures(KindMaps::remember, (second, &later, later_folder, false), s),
        later@.key() == item@.key(),
    ensures
        is_left_of(s.0, later),
        s.1@ == r.1@ || s.1@ == later_folder@,
{
    left_of(later, s.0);
}

/// Remembering a resource changes nothing of what is remembered of others.
pub proof fn others_stay_remembered(
    a: &mut KindMaps,
    item: Item,
    folder: &str,
    removed: bool,
    r: (Item, String),
    b: &mut KindMaps,
    c: &mut KindMaps,
    other: Item,
    other_folder: &str,
    before: (Item, String),
    after: (Item, String),
)
    requires
        call_ensures(KindMaps::remember, (a, &item, folder, removed), r),
        other@.key() != item@.key(),
        *old(b) == *old(a),
        *old(c) == *final(a),
        call_ensures(KindMaps::remember, (b, &other, other_folder, false), before),
        call_ensures(KindMaps::remember, (c, &other, other_folder, false), after),
    ensures
        after.0@ == before.0@,
        after.1@ == before.1@,
{
}

/// The two kinds are remembered apart, and nothing is remembered at first.
pub proof fn kinds_are_remembered_apart(maps: Maps, kind: Kind, r: &KindMaps, key: &str, version: &str, c: bool)
    requires
        call_ensures(Maps::new, (), maps),
        call_ensures(Maps::of, (&maps, kind), r),
        call_ensures(KindMaps::is_current, (r, key, version), c),
    ensures
        !c,
        r@ == (match kind {
            Kind::ConfigMap => maps@.config_maps,
            Kind::Secret => maps@.secrets,
        }),
{
    assert(maps@.of(kind).version.len() == 0);
    if crate::ordered::has_key(r@.version, key@) {
        let i = choose|i: int| crate::ordered::key_at(r@.version, key@, i);
        assert(0 <= i < r@.version.len());
    }
}

} // verus!
