//! What is remembered of the resources synced so far: their versions, the
//! folders their files went to, and the keys of their data.

use vstd::prelude::*;

use crate::kubeapi::{Item, ItemModel, Kind};
use crate::ordered::{lookup, ordered, updated, OrderedMap, Payload};
use crate::text::{has_suffix, same, strip_suffix, views};

verus! {

/// A payload type with an empty value.
pub trait Blank: Payload {
    spec fn blank_model() -> Self::Model;

    fn blank() -> (r: Self)
        ensures
            r.model() == Self::blank_model(),
    ;
}

impl Blank for String {
    open spec fn blank_model() -> Seq<char> {
        Seq::empty()
    }

    fn blank() -> (r: Self) {
        String::new()
    }
}

impl Blank for Vec<u8> {
    open spec fn blank_model() -> Seq<u8> {
        Seq::empty()
    }

    fn blank() -> (r: Self) {
        Vec::new()
    }
}

/// Keys that end so name a URL, from which the file's content is fetched.
pub open spec fn is_url_key(key: Seq<char>) -> bool {
    has_suffix(key, ".url"@)
}

/// The value of a `*.url` key; nothing for other keys.
pub open spec fn kept_value<M>(key: Seq<char>, value: M) -> Option<M> {
    if is_url_key(key) {
        Some(value)
    } else {
        None
    }
}

/// Entries with the values of other keys than `*.url` left out.
pub open spec fn kept<M>(entries: Seq<(Seq<char>, M)>) -> Seq<(Seq<char>, Option<M>)> {
    entries.map_values(|e: (Seq<char>, M)| (e.0, kept_value(e.0, e.1)))
}

/// Entries with empty values for those that were left out.
pub open spec fn restored<V: Blank>(entries: Seq<(Seq<char>, Option<V::Model>)>) -> Seq<
    (Seq<char>, V::Model),
> {
    entries.map_values(
        |e: (Seq<char>, Option<V::Model>)|
            (
                e.0,
                match e.1 {
                    Some(v) => v,
                    None => V::blank_model(),
                },
            ),
    )
}

/// A copy of the value of a `*.url` key; nothing for other keys.
fn keep_url_value<V: Payload>(key: &str, value: &V) -> (r: Option<V>)
    ensures
        r.model() == kept_value(key@, value.model()),
{
    if strip_suffix(key, ".url").is_some() {
        Some(value.duplicate())
    } else {
        None
    }
}

fn keep_url_values<V: Payload>(map: &OrderedMap<V>) -> (r: OrderedMap<Option<V>>)
    ensures
        r@ == kept(map@),
{
    proof {
        use_type_invariant(map);
    }
    let mut out: OrderedMap<Option<V>> = OrderedMap::new();
    let mut i: usize = 0;
    while i < map.len()
        invariant
            ordered(map@),
            i <= map@.len(),
            out@ == kept(map@.take(i as int)),
        decreases map@.len() - i,
    {
        assert forall|j: int| 0 <= j < out@.len() implies #[trigger] out@[j].0 == map@[j].0 by {}
        out.push(map.key(i).clone(), keep_url_value(map.key(i).as_str(), map.value(i)));
        i += 1;
        assert(out@ =~= kept(map@.take(i as int)));
    }
    assert(map@.take(i as int) =~= map@);
    out
}

fn restore_values<V: Blank>(map: &OrderedMap<Option<V>>) -> (r: OrderedMap<V>)
    ensures
        r@ == restored::<V>(map@),
{
    proof {
        use_type_invariant(map);
    }
    let mut out: OrderedMap<V> = OrderedMap::new();
    let mut i: usize = 0;
    while i < map.len()
        invariant
            ordered(map@),
            i <= map@.len(),
            out@ == restored::<V>(map@.take(i as int)),
        decreases map@.len() - i,
    {
        assert forall|j: int| 0 <= j < out@.len() implies #[trigger] out@[j].0 == map@[j].0 by {}
        let value = match map.value(i) {
            Some(v) => v.duplicate(),
            None => V::blank(),
        };
        out.push(map.key(i).clone(), value);
        i += 1;
        assert(out@ =~= restored::<V>(map@.take(i as int)));
    }
    assert(map@.take(i as int) =~= map@);
    out
}

// ---------------------------------------------------------------------------
// Cached items
// ---------------------------------------------------------------------------

/// A synced resource reduced to what its later removal needs: the keys of its
/// data, and the values of `*.url` keys only, which are fetched even when a
/// file is removed. Other payload bytes are not kept, so that the memory in
/// use does not grow with the size of the watched resources.
pub struct CachedItem {
    namespace: String,
    name: String,
    text: Option<OrderedMap<Option<String>>>,
    binary: Option<OrderedMap<Option<Vec<u8>>>>,
}

/// What a [`CachedItem`] stands for.
pub struct CachedModel {
    pub namespace: Seq<char>,
    pub name: Seq<char>,
    pub text: Option<Seq<(Seq<char>, Option<Seq<char>>)>>,
    pub binary: Option<Seq<(Seq<char>, Option<Seq<u8>>)>>,
}

/// What is remembered of an item.
pub open spec fn cached(item: ItemModel) -> CachedModel {
    CachedModel {
        namespace: item.namespace,
        name: item.name,
        text: match item.text {
            Some(t) => Some(kept(t)),
            None => None,
        },
        binary: match item.binary {
            Some(b) => Some(kept(b)),
            None => None,
        },
    }
}

/// The item to remove, rebuilt from what is remembered of it: the same keys,
/// the values of `*.url` keys, and empty values otherwise.
pub open spec fn removal(c: CachedModel) -> ItemModel {
    ItemModel {
        namespace: c.namespace,
        name: c.name,
        resource_version: Seq::empty(),
        annotations: Seq::empty(),
        text: match c.text {
            Some(t) => Some(restored::<String>(t)),
            None => None,
        },
        binary: match c.binary {
            Some(b) => Some(restored::<Vec<u8>>(b)),
            None => None,
        },
    }
}

impl Payload for CachedItem {
    type Model = CachedModel;

    closed spec fn model(&self) -> CachedModel {
        CachedModel {
            namespace: self.namespace@,
            name: self.name@,
            text: self.text.model(),
            binary: self.binary.model(),
        }
    }

    fn duplicate(&self) -> (r: Self) {
        CachedItem {
            namespace: self.namespace.clone(),
            name: self.name.clone(),
            text: self.text.duplicate(),
            binary: self.binary.duplicate(),
        }
    }
}

impl CachedItem {
    /// What is remembered of `item`.
    pub fn from_item(item: &Item) -> (r: CachedItem)
        ensures
            r.model() == cached(item@),
    {
        CachedItem {
            namespace: item.namespace.clone(),
            name: item.name.clone(),
            text: match &item.text {
                Some(m) => Some(keep_url_values(m)),
                None => None,
            },
            binary: match &item.binary {
                Some(m) => Some(keep_url_values(m)),
                None => None,
            },
        }
    }

    /// The item to remove.
    pub fn to_removal_item(&self) -> (r: Item)
        ensures
            r@ == removal(self.model()),
    {
        let r = Item {
            namespace: self.namespace.clone(),
            name: self.name.clone(),
            resource_version: String::new(),
            annotations: OrderedMap::new(),
            text: match &self.text {
                Some(m) => Some(restore_values(m)),
                None => None,
            },
            binary: match &self.binary {
                Some(m) => Some(restore_values(m)),
                None => None,
            },
        };
        assert(r@.annotations =~= removal(self.model()).annotations);
        r
    }

    /// Whether the resource lives in `namespace`.
    fn lives_in(&self, namespace: &str) -> (r: bool)
        ensures
            r == (self.model().namespace == namespace@),
    {
        same(self.namespace.as_str(), namespace)
    }
}

// ---------------------------------------------------------------------------
// The maps
// ---------------------------------------------------------------------------

/// What is remembered of the resources of one kind, by [`Item::key`].
pub struct KindMaps {
    version: OrderedMap<String>,
    object: OrderedMap<CachedItem>,
    dest: OrderedMap<String>,
}

/// What [`KindMaps`] stands for: for each key the version processed last, the
/// item written last, and the folder it was written to.
pub struct KindModel {
    pub version: Seq<(Seq<char>, Seq<char>)>,
    pub object: Seq<(Seq<char>, CachedModel)>,
    pub dest: Seq<(Seq<char>, Seq<char>)>,
}

impl View for KindMaps {
    type V = KindModel;

    closed spec fn view(&self) -> KindModel {
        KindModel { version: self.version@, object: self.object@, dest: self.dest@ }
    }
}

/// What was remembered of `item` before it is processed; `item` itself if it
/// was not known.
pub open spec fn previous(maps: KindModel, item: ItemModel) -> CachedModel {
    match lookup(maps.object, item.key()) {
        Some(c) => c,
        None => cached(item),
    }
}

/// The folder that the item's files are in; `dest` if none is remembered.
pub open spec fn previous_folder(maps: KindModel, key: Seq<char>, dest: Seq<char>) -> Seq<char> {
    match lookup(maps.dest, key) {
        Some(d) => d,
        None => dest,
    }
}

/// How remembering (or forgetting) an item changes the maps.
pub open spec fn remembered(
    before: KindModel,
    after: KindModel,
    item: ItemModel,
    dest: Seq<char>,
    removed: bool,
) -> bool {
    &&& after.version == before.version
    &&& if removed {
        &&& updated(before.object, after.object, item.key(), None)
        &&& after.dest == before.dest
    } else {
        &&& updated(before.object, after.object, item.key(), Some(cached(item)))
        &&& updated(before.dest, after.dest, item.key(), Some(dest))
    }
}

/// The entries whose resource is gone: in scope of `namespace`, and with a key
/// that is not among `exist`.
pub open spec fn is_stale(
    e: (Seq<char>, CachedModel),
    namespace: Seq<char>,
    exist: Seq<Seq<char>>,
) -> bool {
    (namespace == "ALL"@ || e.1.namespace == namespace) && !exist.contains(e.0)
}

/// The items to remove because their resource is gone.
pub open spec fn stale_items(
    maps: KindModel,
    namespace: Seq<char>,
    exist: Seq<Seq<char>>,
) -> Seq<ItemModel> {
    maps.object.filter(|e: (Seq<char>, CachedModel)| is_stale(e, namespace, exist)).map_values(
        |e: (Seq<char>, CachedModel)| removal(e.1),
    )
}

/// The models of a list of items.
pub open spec fn item_views(items: Seq<Item>) -> Seq<ItemModel> {
    items.map_values(|i: Item| i@)
}

/// Whether `list` holds `text`.
pub fn list_contains(list: &Vec<String>, text: &str) -> (r: bool)
    ensures
        r == views(list@).contains(text@),
{
    let mut i: usize = 0;
    while i < list.len()
        invariant
            i <= list@.len(),
            forall|j: int| 0 <= j < i ==> views(list@)[j] != text@,
        decreases list@.len() - i,
    {
        if same(list[i].as_str(), text) {
            assert(views(list@)[i as int] == text@);
            return true;
        }
        i += 1;
    }
    assert(views(list@).len() == list@.len());
    false
}

impl KindMaps {
    pub fn new() -> (r: Self)
        ensures
            r@.version.len() == 0,
            r@.object.len() == 0,
            r@.dest.len() == 0,
    {
        KindMaps { version: OrderedMap::new(), object: OrderedMap::new(), dest: OrderedMap::new() }
    }

    /// Remembers `item`, or forgets it if it was removed. Returns the item and
    /// the folder that were remembered before.
    pub fn remember(&mut self, item: &Item, dest_folder: &str, is_removed: bool) -> (r: (Item, String))
        ensures
            r.0@ == removal(previous(old(self)@, item@)),
            r.1@ == previous_folder(old(self)@, item@.key(), dest_folder@),
            remembered(old(self)@, final(self)@, item@, dest_folder@, is_removed),
    {
        let key = item.key();
        let old_item = match self.object.get(key.as_str()) {
            Some(c) => c.to_removal_item(),
            None => CachedItem::from_item(item).to_removal_item(),
        };
        let old_dest = match self.dest.get(key.as_str()) {
            Some(d) => d.clone(),
            None => dest_folder.to_string(),
        };
        if is_removed {
            self.object.remove(key.as_str());
        } else {
            self.object.insert(key.clone(), CachedItem::from_item(item));
            self.dest.insert(key, dest_folder.to_string());
        }
        (old_item, old_dest)
    }

    /// Whether `version` is the version of `key` that was processed last.
    pub fn is_current(&self, key: &str, version: &str) -> (r: bool)
        ensures
            r == (lookup(self@.version, key@) == Some(version@)),
    {
        match self.version.get(key) {
            Some(v) => same(v.as_str(), version),
            None => false,
        }
    }

    /// Notes that `version` of `key` is processed.
    pub fn note_version(&mut self, key: &str, version: &str)
        ensures
            updated(old(self)@.version, final(self)@.version, key@, Some(version@)),
            final(self)@.object == old(self)@.object,
            final(self)@.dest == old(self)@.dest,
    {
        self.version.insert(key.to_string(), version.to_string());
    }

    /// Forgets which version of `key` was processed last.
    pub fn forget_version(&mut self, key: &str)
        ensures
            updated(old(self)@.version, final(self)@.version, key@, None),
            final(self)@.object == old(self)@.object,
            final(self)@.dest == old(self)@.dest,
    {
        self.version.remove(key);
    }

    /// The items to remove because their resource is gone.
    pub fn stale(&self, namespace: &str, exist: &Vec<String>) -> (r: Vec<Item>)
        ensures
            item_views(r@) == stale_items(self@, namespace@, views(exist@)),
    {
        let mut out: Vec<Item> = Vec::new();
        let mut i: usize = 0;
        let ghost gone = |e: (Seq<char>, CachedModel)| is_stale(e, namespace@, views(exist@));
        let ghost rebuilt = |e: (Seq<char>, CachedModel)| removal(e.1);
        let ghost all = self@.object;
        assert(all.take(0) =~= Seq::empty());
        proof {
            reveal(Seq::filter);
        }
        assert(item_views(out@) =~= all.take(0).filter(gone).map_values(rebuilt));
        while i < self.object.len()
            invariant
                i <= all.len(),
                all == self.object@,
                gone == (|e: (Seq<char>, CachedModel)| is_stale(e, namespace@, views(exist@))),
                rebuilt == (|e: (Seq<char>, CachedModel)| removal(e.1)),
                item_views(out@) == all.take(i as int).filter(gone).map_values(rebuilt),
            decreases all.len() - i,
        {
            let item = self.object.value(i);
            let ghost before = out@;
            let ghost kept_before = all.take(i as int).filter(gone);
            assert(all.take(i + 1).drop_last() =~= all.take(i as int));
            proof {
                reveal(Seq::filter);
            }
            if (same(namespace, "ALL") || item.lives_in(namespace)) && !list_contains(
                exist,
                self.object.key(i).as_str(),
            ) {
                out.push(item.to_removal_item());
                assert(gone(all[i as int]));
                assert(all.take(i + 1).filter(gone) == kept_before.push(all[i as int]));
                assert(item_views(out@) =~= item_views(before).push(removal(all[i as int].1)));
                assert(kept_before.push(all[i as int]).map_values(rebuilt) =~= kept_before.map_values(
                    rebuilt,
                ).push(removal(all[i as int].1)));
            } else {
                assert(!gone(all[i as int]));
                assert(all.take(i + 1).filter(gone) == kept_before);
            }
            i += 1;
        }
        assert(all.take(i as int) =~= all);
        out
    }
}

/// What is remembered of all resources, shared by all watchers.
pub struct Maps {
    config_maps: KindMaps,
    secrets: KindMaps,
}

/// What [`Maps`] stands for.
pub struct MapsModel {
    pub config_maps: KindModel,
    pub secrets: KindModel,
}

impl MapsModel {
    /// The part for one kind.
    pub open spec fn of(self, kind: Kind) -> KindModel {
        match kind {
            Kind::ConfigMap => self.config_maps,
            Kind::Secret => self.secrets,
        }
    }
}

impl View for Maps {
    type V = MapsModel;

    closed spec fn view(&self) -> MapsModel {
        MapsModel { config_maps: self.config_maps@, secrets: self.secrets@ }
    }
}

/// The maps agree on all kinds but `kind`.
pub open spec fn same_but(before: MapsModel, after: MapsModel, kind: Kind) -> bool {
    forall|k: Kind| k != kind ==> after.of(k) == before.of(k)
}

impl Maps {
    /// Maps that remember nothing.
    pub fn new() -> (r: Self)
        ensures
            forall|kind: Kind|
                #![trigger r@.of(kind)]
                r@.of(kind).version.len() == 0 && r@.of(kind).object.len() == 0 && r@.of(
                    kind,
                ).dest.len() == 0,
    {
        Maps { config_maps: KindMaps::new(), secrets: KindMaps::new() }
    }

    /// The maps of one kind.
    pub fn of(&self, kind: Kind) -> (r: &KindMaps)
        ensures
            r@ == self@.of(kind),
    {
        match kind {
            Kind::ConfigMap => &self.config_maps,
            Kind::Secret => &self.secrets,
        }
    }

    /// The maps of one kind, to be changed.
    pub fn of_mut(&mut self, kind: Kind) -> (r: &mut KindMaps)
        ensures
            r@ == old(self)@.of(kind),
            final(r)@ == final(self)@.of(kind),
            same_but(old(self)@, final(self)@, kind),
    {
        match kind {
            Kind::ConfigMap => &mut self.config_maps,
            Kind::Secret => &mut self.secrets,
        }
    }
}

} // verus!
