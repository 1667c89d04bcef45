//! What holds of the sync as a whole: which files are written and removed when
//! a resource is seen, changed, moved or gone, and what is remembered of it.

use vstd::prelude::*;

use crate::cache::{
    cached, is_stale, is_url_key, kept, previous, previous_folder, removal, remembered, restored,
    stale_items, Blank, CachedModel, KindModel, MapsModel,
};
use crate::files::{CONTENT_TYPE_BASE64_BINARY, CONTENT_TYPE_TEXT};
use crate::kubeapi::{kind_name, EventType, ItemModel, Kind};
use crate::listing::{item_keys, list_skips, listed_maps, listed_steps, removal_maps};
use crate::logger::Level;
use crate::ordered::{has_key, key_at, lookup, lookup_at, ordered};
use crate::plan::{
    file_op, file_ops, leftovers, log_step, only_if, planned, processed, section, without_common, Data,
    StepModel,
};
use crate::resources::{destination, Ctx, Scope};
use crate::watching::{event_maps, event_skips};

verus! {

// ---------------------------------------------------------------------------
// Sequences
// ---------------------------------------------------------------------------

/// A filtered sequence holds what the sequence holds and the predicate takes.
pub proof fn filter_contains<A>(s: Seq<A>, pred: spec_fn(A) -> bool, x: A)
    ensures
        s.filter(pred).contains(x) <==> s.contains(x) && pred(x),
    decreases s.len(),
{
    reveal(Seq::filter);
    if s.len() > 0 {
        let init = s.drop_last();
        filter_contains(init, pred, x);
        assert(s =~= init.push(s.last()));
        assert(s.contains(x) <==> init.contains(x) || s.last() == x) by {
            if s.contains(x) && s.last() != x {
                let i = choose|i: int| 0 <= i < s.len() && s[i] == x;
                assert(init[i] == x);
            }
            if init.contains(x) {
                let i = choose|i: int| 0 <= i < init.len() && init[i] == x;
                assert(s[i] == x);
            }
            if s.last() == x {
                assert(s[s.len() - 1] == x);
            }
        }
        let kept_init = init.filter(pred);
        if pred(s.last()) {
            let all = kept_init.push(s.last());
            assert(s.filter(pred) == all);
            assert(all.contains(x) <==> kept_init.contains(x) || s.last() == x) by {
                if all.contains(x) && s.last() != x {
                    let i = choose|i: int| 0 <= i < all.len() && all[i] == x;
                    assert(kept_init[i] == x);
                }
                if kept_init.contains(x) {
                    let i = choose|i: int| 0 <= i < kept_init.len() && kept_init[i] == x;
                    assert(all[i] == x);
                }
                if s.last() == x {
                    assert(all[all.len() - 1] == x);
                }
            }
        }
    }
}

// ---------------------------------------------------------------------------
// Which files are touched
// ---------------------------------------------------------------------------

/// A step writes (or, with `remove`, removes) the file of data key `key` in
/// `folder`, as content of the type `content_type`.
pub open spec fn is_touch(
    step: StepModel,
    key: Seq<char>,
    folder: Seq<char>,
    content_type: Seq<char>,
    remove: bool,
) -> bool {
    &&& step matches StepModel::File(op)
    &&& op.key == key
    &&& op.folder == folder
    &&& op.content_type == content_type
    &&& op.remove == remove
}

/// Some step writes (or removes) the file.
pub open spec fn touches(
    steps: Seq<StepModel>,
    key: Seq<char>,
    folder: Seq<char>,
    content_type: Seq<char>,
    remove: bool,
) -> bool {
    exists|i: int|
        0 <= i < steps.len() && is_touch(#[trigger] steps[i], key, folder, content_type, remove)
}

/// The item has `key` among its text data.
pub open spec fn text_has(item: ItemModel, key: Seq<char>) -> bool {
    item.text is Some && has_key(item.text->0, key)
}

/// The item has `key` among its binary data.
pub open spec fn binary_has(item: ItemModel, key: Seq<char>) -> bool {
    item.binary is Some && has_key(item.binary->0, key)
}

proof fn touches_concat(
    a: Seq<StepModel>,
    b: Seq<StepModel>,
    key: Seq<char>,
    folder: Seq<char>,
    content_type: Seq<char>,
    remove: bool,
)
    ensures
        touches(a + b, key, folder, content_type, remove) <==> touches(
            a,
            key,
            folder,
            content_type,
            remove,
        ) || touches(b, key, folder, content_type, remove),
{
    let ab = a + b;
    if touches(ab, key, folder, content_type, remove) {
        let i = choose|i: int|
            0 <= i < ab.len() && is_touch(#[trigger] ab[i], key, folder, content_type, remove);
        if i < a.len() {
            assert(is_touch(a[i], key, folder, content_type, remove));
        } else {
            assert(is_touch(b[i - a.len()], key, folder, content_type, remove));
        }
    }
    if touches(a, key, folder, content_type, remove) {
        let i = choose|i: int|
            0 <= i < a.len() && is_touch(#[trigger] a[i], key, folder, content_type, remove);
        assert(is_touch(ab[i], key, folder, content_type, remove));
    }
    if touches(b, key, folder, content_type, remove) {
        let i = choose|i: int|
            0 <= i < b.len() && is_touch(#[trigger] b[i], key, folder, content_type, remove);
        assert(is_touch(ab[a.len() + i], key, folder, content_type, remove));
    }
}

proof fn file_ops_touch<V: Data>(
    data: Seq<(Seq<char>, V::Model)>,
    dest: Seq<char>,
    item: ItemModel,
    kind: Kind,
    data_type: Seq<char>,
    removed: bool,
    key: Seq<char>,
    folder: Seq<char>,
    content_type: Seq<char>,
    remove: bool,
)
    ensures
        touches(
            file_ops::<V>(data, dest, item, kind, data_type, removed),
            key,
            folder,
            content_type,
            remove,
        ) <==> has_key(data, key) && folder == dest && content_type == data_type && remove == removed,
{
    let steps = file_ops::<V>(data, dest, item, kind, data_type, removed);
    if touches(steps, key, folder, content_type, remove) {
        let i = choose|i: int|
            0 <= i < steps.len() && is_touch(#[trigger] steps[i], key, folder, content_type, remove);
        assert(steps[i] == file_op::<V>(data[i], dest, item, kind, data_type, removed));
        assert(key_at(data, key, i));
    }
    if has_key(data, key) && folder == dest && content_type == data_type && remove == removed {
        let i = choose|i: int| key_at(data, key, i);
        assert(steps[i] == file_op::<V>(data[i], dest, item, kind, data_type, removed));
        assert(is_touch(steps[i], key, folder, content_type, remove));
    }
}

proof fn leftovers_keys<M>(
    before: Seq<(Seq<char>, M)>,
    now: Option<Seq<(Seq<char>, M)>>,
    moved: bool,
    key: Seq<char>,
)
    ensures
        has_key(leftovers(before, now, moved), key) <==> has_key(before, key) && (moved || !(now is Some
            && has_key(now->0, key))),
{
    if !moved {
        let gone = |e: (Seq<char>, M)| !(now is Some && has_key(now->0, e.0));
        let rest = without_common(before, now);
        assert(rest == before.filter(gone));
        if has_key(rest, key) {
            let i = choose|i: int| key_at(rest, key, i);
            filter_contains(before, gone, rest[i]);
            assert(rest.contains(rest[i]));
            let j = choose|j: int| 0 <= j < before.len() && before[j] == rest[i];
            assert(key_at(before, key, j));
        }
        if has_key(before, key) && !(now is Some && has_key(now->0, key)) {
            let j = choose|j: int| key_at(before, key, j);
            filter_contains(before, gone, before[j]);
            assert(before.contains(before[j]));
            let i = choose|i: int| 0 <= i < rest.len() && rest[i] == before[j];
            assert(key_at(rest, key, i));
        }
    }
}

proof fn section_touch<V: Data>(
    kind: Kind,
    item: ItemModel,
    old_item: ItemModel,
    now: Option<Seq<(Seq<char>, V::Model)>>,
    before: Option<Seq<(Seq<char>, V::Model)>>,
    found: Seq<StepModel>,
    dest: Seq<char>,
    old_dest: Seq<char>,
    data_type: Seq<char>,
    removed: bool,
    key: Seq<char>,
    folder: Seq<char>,
    content_type: Seq<char>,
    remove: bool,
)
    requires
        forall|i: int| 0 <= i < found.len() ==> (#[trigger] found[i]) is Log,
    ensures
        touches(
            section::<V>(kind, item, old_item, now, before, found, dest, old_dest, data_type, removed),
            key,
            folder,
            content_type,
            remove,
        ) <==> content_type == data_type && {
            ||| now is Some && has_key(now->0, key) && folder == dest && remove == removed
            ||| before is Some && has_key(before->0, key) && !removed && (old_dest != dest || !(now is Some
                && has_key(now->0, key))) && folder == old_dest && remove
        },
{
    let first = match now {
        Some(data) => found + file_ops::<V>(data, dest, item, kind, data_type, removed),
        None => Seq::empty(),
    };
    let second = match before {
        Some(data) if !removed => file_ops::<V>(
            leftovers(data, now, old_dest != dest),
            old_dest,
            old_item,
            kind,
            data_type,
            true,
        ),
        _ => Seq::empty(),
    };
    touches_concat(first, second, key, folder, content_type, remove);
    if now is Some {
        let ops = file_ops::<V>(now->0, dest, item, kind, data_type, removed);
        touches_concat(found, ops, key, folder, content_type, remove);
        file_ops_touch::<V>(
            now->0,
            dest,
            item,
            kind,
            data_type,
            removed,
            key,
            folder,
            content_type,
            remove,
        );
    }
    if before is Some && !removed {
        let rest = leftovers(before->0, now, old_dest != dest);
        file_ops_touch::<V>(
            rest,
            old_dest,
            old_item,
            kind,
            data_type,
            true,
            key,
            folder,
            content_type,
            remove,
        );
        leftovers_keys(before->0, now, old_dest != dest, key);
    }
}

/// Which files are written and removed for a resource, exactly. A file of a
/// data section (text data of a ConfigMap, binary data of either kind) is
/// written in the folder of the resource if the resource is there and the
/// section has its key; it is removed there if the resource is gone and the
/// section has its key; and it is removed from the previous folder if the
/// resource is there and the section had its key, but has it no more or in
/// another folder.
pub proof fn planned_touches(
    kind: Kind,
    item: ItemModel,
    old_item: ItemModel,
    dest: Seq<char>,
    old_dest: Seq<char>,
    removed: bool,
    key: Seq<char>,
    folder: Seq<char>,
    remove: bool,
)
    ensures
        ({
            let steps = planned(kind, item, old_item, dest, old_dest, removed);
            &&& touches(steps, key, folder, CONTENT_TYPE_TEXT@, remove) <==> kind == Kind::ConfigMap && {
                ||| text_has(item, key) && folder == dest && remove == removed
                ||| text_has(old_item, key) && !removed && (old_dest != dest || !text_has(item, key))
                    && folder == old_dest && remove
            }
            &&& touches(steps, key, folder, CONTENT_TYPE_BASE64_BINARY@, remove) <==> {
                ||| binary_has(item, key) && folder == dest && remove == removed
                ||| binary_has(old_item, key) && !removed && (old_dest != dest || !binary_has(
                    item,
                    key,
                )) && folder == old_dest && remove
            }
        }),
{
    reveal_strlit("ascii");
    reveal_strlit("binary");
    assert(CONTENT_TYPE_TEXT@.len() == 5 && CONTENT_TYPE_BASE64_BINARY@.len() == 6);
    both_types(kind, item, old_item, dest, old_dest, removed, key, folder, CONTENT_TYPE_TEXT@, remove);
    both_types(
        kind,
        item,
        old_item,
        dest,
        old_dest,
        removed,
        key,
        folder,
        CONTENT_TYPE_BASE64_BINARY@,
        remove,
    );
}

proof fn both_types(
    kind: Kind,
    item: ItemModel,
    old_item: ItemModel,
    dest: Seq<char>,
    old_dest: Seq<char>,
    removed: bool,
    key: Seq<char>,
    folder: Seq<char>,
    content_type: Seq<char>,
    remove: bool,
)
    ensures
        touches(
            planned(kind, item, old_item, dest, old_dest, removed),
            key,
            folder,
            content_type,
            remove,
        ) <==> {
            ||| kind == Kind::ConfigMap && content_type == CONTENT_TYPE_TEXT@ && {
                ||| text_has(item, key) && folder == dest && remove == removed
                ||| text_has(old_item, key) && !removed && (old_dest != dest || !text_has(item, key))
                    && folder == old_dest && remove
            }
            ||| content_type == CONTENT_TYPE_BASE64_BINARY@ && {
                ||| binary_has(item, key) && folder == dest && remove == removed
                ||| binary_has(old_item, key) && !removed && (old_dest != dest || !binary_has(
                    item,
                    key,
                )) && folder == old_dest && remove
            }
        },
{
    let debug = |text: Seq<char>| seq![log_step(Level::Debug, text + kind_name(kind))];
    match kind {
        Kind::ConfigMap => {
            let warn = only_if(
                item.text is None && item.binary is None,
                log_step(Level::Warning, "No data/binaryData field in "@ + kind_name(kind)),
            );
            let found_text = debug("Found 'data' on "@);
            let found_binary = debug("Found 'binary_data' on "@);
            let text = section::<String>(
                kind,
                item,
                old_item,
                item.text,
                old_item.text,
                found_text,
                dest,
                old_dest,
                CONTENT_TYPE_TEXT@,
                removed,
            );
            let binary = section::<Vec<u8>>(
                kind,
                item,
                old_item,
                item.binary,
                old_item.binary,
                found_binary,
                dest,
                old_dest,
                CONTENT_TYPE_BASE64_BINARY@,
                removed,
            );
            assert(planned(kind, item, old_item, dest, old_dest, removed) == warn + text + binary);
            touches_concat(warn + text, binary, key, folder, content_type, remove);
            touches_concat(warn, text, key, folder, content_type, remove);
            section_touch::<String>(
                kind,
                item,
                old_item,
                item.text,
                old_item.text,
                found_text,
                dest,
                old_dest,
                CONTENT_TYPE_TEXT@,
                removed,
                key,
                folder,
                content_type,
                remove,
            );
            section_touch::<Vec<u8>>(
                kind,
                item,
                old_item,
                item.binary,
                old_item.binary,
                found_binary,
                dest,
                old_dest,
                CONTENT_TYPE_BASE64_BINARY@,
                removed,
                key,
                folder,
                content_type,
                remove,
            );
        },
        Kind::Secret => {
            let warn = only_if(
                item.binary is None,
                log_step(Level::Warning, "No data field in "@ + kind_name(kind)),
            );
            let none = Seq::<StepModel>::empty();
            let binary = section::<Vec<u8>>(
                kind,
                item,
                old_item,
                item.binary,
                old_item.binary,
                none,
                dest,
                old_dest,
                CONTENT_TYPE_BASE64_BINARY@,
                removed,
            );
            assert(planned(kind, item, old_item, dest, old_dest, removed) == warn + binary);
            touches_concat(warn, binary, key, folder, content_type, remove);
            section_touch::<Vec<u8>>(
                kind,
                item,
                old_item,
                item.binary,
                old_item.binary,
                none,
                dest,
                old_dest,
                CONTENT_TYPE_BASE64_BINARY@,
                removed,
                key,
                folder,
                content_type,
                remove,
            );
        },
    }
}

// ---------------------------------------------------------------------------
// What is remembered
// ---------------------------------------------------------------------------

proof fn kept_keys<M>(entries: Seq<(Seq<char>, M)>, key: Seq<char>)
    ensures
        has_key(kept(entries), key) <==> has_key(entries, key),
{
    if has_key(entries, key) {
        let i = choose|i: int| key_at(entries, key, i);
        assert(key_at(kept(entries), key, i));
    }
    if has_key(kept(entries), key) {
        let i = choose|i: int| key_at(kept(entries), key, i);
        assert(key_at(entries, key, i));
    }
}

proof fn restored_keys<V: Blank>(entries: Seq<(Seq<char>, Option<V::Model>)>, key: Seq<char>)
    ensures
        has_key(restored::<V>(entries), key) <==> has_key(entries, key),
{
    if has_key(entries, key) {
        let i = choose|i: int| key_at(entries, key, i);
        assert(key_at(restored::<V>(entries), key, i));
    }
    if has_key(restored::<V>(entries), key) {
        let i = choose|i: int| key_at(restored::<V>(entries), key, i);
        assert(key_at(entries, key, i));
    }
}

/// The remembered resource has `key` among its text data.
pub open spec fn cached_text_has(c: CachedModel, key: Seq<char>) -> bool {
    c.text is Some && has_key(c.text->0, key)
}

/// The remembered resource has `key` among its binary data.
pub open spec fn cached_binary_has(c: CachedModel, key: Seq<char>) -> bool {
    c.binary is Some && has_key(c.binary->0, key)
}

/// Remembering an item keeps its name, which data sections it has, and which
/// keys they have; and the item to remove that is rebuilt from it has the same.
pub proof fn remembering_keeps_keys(item: ItemModel, c: CachedModel, key: Seq<char>)
    ensures
        cached_text_has(cached(item), key) <==> text_has(item, key),
        cached_binary_has(cached(item), key) <==> binary_has(item, key),
        cached(item).text is Some <==> item.text is Some,
        cached(item).binary is Some <==> item.binary is Some,
        removal(cached(item)).key() == item.key(),
        text_has(removal(c), key) <==> cached_text_has(c, key),
        binary_has(removal(c), key) <==> cached_binary_has(c, key),
        removal(c).text is Some <==> c.text is Some,
        removal(c).binary is Some <==> c.binary is Some,
{
    if item.text is Some {
        kept_keys(item.text->0, key);
    }
    if item.binary is Some {
        kept_keys(item.binary->0, key);
    }
    if c.text is Some {
        restored_keys::<String>(c.text->0, key);
    }
    if c.binary is Some {
        restored_keys::<Vec<u8>>(c.binary->0, key);
    }
}

/// Of the data of an item nothing is remembered but the keys and the values of
/// `*.url` keys, so what is remembered does not grow with the payload.
pub proof fn remembering_drops_payload(item: ItemModel, i: int)
    ensures
        item.text is Some && 0 <= i < item.text->0.len() ==> {
            let e = cached(item).text->0[i];
            e.0 == item.text->0[i].0 && e.1 == (if is_url_key(e.0) {
                Some(item.text->0[i].1)
            } else {
                None
            })
        },
        item.binary is Some && 0 <= i < item.binary->0.len() ==> {
            let e = cached(item).binary->0[i];
            e.0 == item.binary->0[i].0 && e.1 == (if is_url_key(e.0) {
                Some(item.binary->0[i].1)
            } else {
                None
            })
        },
{
}

/// The item to remove has the values of `*.url` keys as they were, which are
/// fetched even when the file is removed, and empty values otherwise.
pub proof fn removal_restores_urls(item: ItemModel, i: int)
    ensures
        item.text is Some && 0 <= i < item.text->0.len() ==> {
            let e = removal(cached(item)).text->0[i];
            e.0 == item.text->0[i].0 && e.1 == (if is_url_key(e.0) {
                item.text->0[i].1
            } else {
                Seq::empty()
            })
        },
        item.binary is Some && 0 <= i < item.binary->0.len() ==> {
            let e = removal(cached(item)).binary->0[i];
            e.0 == item.binary->0[i].0 && e.1 == (if is_url_key(e.0) {
                item.binary->0[i].1
            } else {
                Seq::empty()
            })
        },
{
}

// ---------------------------------------------------------------------------
// Resources that change, move and go
// ---------------------------------------------------------------------------

/// Deleting a data key from a resource deletes its file: what the resource
/// was remembered with and no longer has is removed from the folder it was in.
pub proof fn vanished_key_is_removed(
    maps: MapsModel,
    kind: Kind,
    item: ItemModel,
    dest: Seq<char>,
    key: Seq<char>,
)
    ensures
        ({
            let before = lookup(maps.of(kind).object, item.key());
            let folder = previous_folder(maps.of(kind), item.key(), dest);
            let steps = processed(maps, kind, item, dest, false);
            &&& kind == Kind::ConfigMap && before is Some && cached_text_has(before->0, key)
                && !text_has(item, key) ==> touches(steps, key, folder, CONTENT_TYPE_TEXT@, true)
            &&& before is Some && cached_binary_has(before->0, key) && !binary_has(item, key)
                ==> touches(steps, key, folder, CONTENT_TYPE_BASE64_BINARY@, true)
        }),
{
    let c = previous(maps.of(kind), item);
    let folder = previous_folder(maps.of(kind), item.key(), dest);
    remembering_keeps_keys(item, c, key);
    planned_touches(kind, item, removal(c), dest, folder, false, key, folder, true);
}

/// A data key that a resource still has, in the folder that it had it in, is
/// written there, and the file of its section is not removed.
pub proof fn kept_key_is_not_removed(
    maps: MapsModel,
    kind: Kind,
    item: ItemModel,
    dest: Seq<char>,
    key: Seq<char>,
)
    requires
        previous_folder(maps.of(kind), item.key(), dest) == dest,
    ensures
        ({
            let steps = processed(maps, kind, item, dest, false);
            &&& kind == Kind::ConfigMap && text_has(item, key) ==> touches(
                steps,
                key,
                dest,
                CONTENT_TYPE_TEXT@,
                false,
            ) && !touches(steps, key, dest, CONTENT_TYPE_TEXT@, true)
            &&& binary_has(item, key) ==> touches(steps, key, dest, CONTENT_TYPE_BASE64_BINARY@, false)
                && !touches(steps, key, dest, CONTENT_TYPE_BASE64_BINARY@, true)
        }),
{
    let c = previous(maps.of(kind), item);
    remembering_keeps_keys(item, c, key);
    planned_touches(kind, item, removal(c), dest, dest, false, key, dest, true);
    planned_touches(kind, item, removal(c), dest, dest, false, key, dest, false);
}

/// Changing the folder of a resource deletes every file that it had from the
/// old folder, writes every file that it has to the new one, and removes
/// nothing there.
pub proof fn moved_resource(
    maps: MapsModel,
    kind: Kind,
    item: ItemModel,
    dest: Seq<char>,
    key: Seq<char>,
)
    requires
        previous_folder(maps.of(kind), item.key(), dest) != dest,
    ensures
        ({
            let before = previous(maps.of(kind), item);
            let folder = previous_folder(maps.of(kind), item.key(), dest);
            let steps = processed(maps, kind, item, dest, false);
            &&& kind == Kind::ConfigMap && cached_text_has(before, key) ==> touches(
                steps,
                key,
                folder,
                CONTENT_TYPE_TEXT@,
                true,
            )
            &&& cached_binary_has(before, key) ==> touches(
                steps,
                key,
                folder,
                CONTENT_TYPE_BASE64_BINARY@,
                true,
            )
            &&& kind == Kind::ConfigMap && text_has(item, key) ==> touches(
                steps,
                key,
                dest,
                CONTENT_TYPE_TEXT@,
                false,
            )
            &&& binary_has(item, key) ==> touches(steps, key, dest, CONTENT_TYPE_BASE64_BINARY@, false)
            &&& !touches(steps, key, dest, CONTENT_TYPE_TEXT@, true)
            &&& !touches(steps, key, dest, CONTENT_TYPE_BASE64_BINARY@, true)
        }),
{
    let c = previous(maps.of(kind), item);
    let folder = previous_folder(maps.of(kind), item.key(), dest);
    remembering_keeps_keys(item, c, key);
    planned_touches(kind, item, removal(c), dest, folder, false, key, folder, true);
    planned_touches(kind, item, removal(c), dest, folder, false, key, dest, false);
    planned_touches(kind, item, removal(c), dest, folder, false, key, dest, true);
}

/// A resource that is gone has the files of its keys removed from the folder
/// they are in; nothing is written, and nothing is removed elsewhere.
pub proof fn gone_resource_is_removed(
    maps: MapsModel,
    kind: Kind,
    item: ItemModel,
    dest: Seq<char>,
    key: Seq<char>,
    folder: Seq<char>,
)
    ensures
        ({
            let at = previous_folder(maps.of(kind), item.key(), dest);
            let steps = processed(maps, kind, item, dest, true);
            &&& touches(steps, key, folder, CONTENT_TYPE_TEXT@, true) <==> kind == Kind::ConfigMap
                && text_has(item, key) && folder == at
            &&& touches(steps, key, folder, CONTENT_TYPE_BASE64_BINARY@, true) <==> binary_has(item, key)
                && folder == at
            &&& !touches(steps, key, folder, CONTENT_TYPE_TEXT@, false)
            &&& !touches(steps, key, folder, CONTENT_TYPE_BASE64_BINARY@, false)
        }),
{
    let c = previous(maps.of(kind), item);
    let at = previous_folder(maps.of(kind), item.key(), dest);
    planned_touches(kind, item, removal(c), at, at, true, key, folder, true);
    planned_touches(kind, item, removal(c), at, at, true, key, folder, false);
}

/// A resource that comes again as it was processed last has no file removed.
pub proof fn unchanged_resource_removes_nothing(
    before: MapsModel,
    after: MapsModel,
    kind: Kind,
    item: ItemModel,
    dest: Seq<char>,
    key: Seq<char>,
    folder: Seq<char>,
)
    requires
        remembered(before.of(kind), after.of(kind), item, dest, false),
    ensures
        !touches(processed(after, kind, item, dest, false), key, folder, CONTENT_TYPE_TEXT@, true),
        !touches(
            processed(after, kind, item, dest, false),
            key,
            folder,
            CONTENT_TYPE_BASE64_BINARY@,
            true,
        ),
{
    assert(lookup(after.of(kind).object, item.key()) == Some(cached(item)));
    assert(lookup(after.of(kind).dest, item.key()) == Some(dest));
    remembering_keeps_keys(item, cached(item), key);
    planned_touches(kind, item, removal(cached(item)), dest, dest, false, key, folder, true);
}

/// After a resource is processed it is remembered with what it is and where
/// it went, whatever was remembered before; after it is gone, it is forgotten.
/// What is remembered of other resources does not change.
pub proof fn processing_is_remembered(
    before: KindModel,
    after: KindModel,
    item: ItemModel,
    dest: Seq<char>,
    removed: bool,
    other: Seq<char>,
)
    requires
        remembered(before, after, item, dest, removed),
    ensures
        lookup(after.object, item.key()) == (if removed {
            None
        } else {
            Some(cached(item))
        }),
        !removed ==> previous_folder(after, item.key(), Seq::empty()) == dest,
        other != item.key() ==> lookup(after.object, other) == lookup(before.object, other) && lookup(
            after.dest,
            other,
        ) == lookup(before.dest, other),
{
}

// ---------------------------------------------------------------------------
// Stale resources
// ---------------------------------------------------------------------------

/// A sync removes the resources that are remembered in its scope and were not
/// listed, and no others: none that was listed, and none of another namespace
/// (unless the scope is all namespaces).
pub proof fn stale_items_exact(
    maps: KindModel,
    namespace: Seq<char>,
    exist: Seq<Seq<char>>,
    item: ItemModel,
)
    ensures
        stale_items(maps, namespace, exist).contains(item) <==> exists|i: int|
            0 <= i < maps.object.len() && is_stale(#[trigger] maps.object[i], namespace, exist)
                && removal(maps.object[i].1) == item,
        stale_items(maps, namespace, exist).contains(item) ==> namespace == "ALL"@ || item.namespace
            == namespace,
{
    let gone = |e: (Seq<char>, CachedModel)| is_stale(e, namespace, exist);
    let entries = maps.object.filter(gone);
    let items = stale_items(maps, namespace, exist);
    if items.contains(item) {
        let j = choose|j: int| 0 <= j < items.len() && items[j] == item;
        filter_contains(maps.object, gone, entries[j]);
        assert(entries.contains(entries[j]));
        let i = choose|i: int| 0 <= i < maps.object.len() && maps.object[i] == entries[j];
        assert(is_stale(maps.object[i], namespace, exist));
    }
    if exists|i: int|
        0 <= i < maps.object.len() && is_stale(#[trigger] maps.object[i], namespace, exist) && removal(
            maps.object[i].1,
        ) == item {
        let i = choose|i: int|
            0 <= i < maps.object.len() && is_stale(#[trigger] maps.object[i], namespace, exist)
                && removal(maps.object[i].1) == item;
        filter_contains(maps.object, gone, maps.object[i]);
        assert(maps.object.contains(maps.object[i]));
        let j = choose|j: int| 0 <= j < entries.len() && entries[j] == maps.object[i];
        assert(items[j] == item);
    }
}

/// As every resource is remembered under its own key, no resource that was
/// listed is removed as stale.
pub proof fn listed_is_not_stale(
    maps: KindModel,
    namespace: Seq<char>,
    exist: Seq<Seq<char>>,
    item: ItemModel,
)
    requires
        keyed(maps),
        exist.contains(item.key()),
    ensures
        !stale_items(maps, namespace, exist).contains(item),
{
    stale_items_exact(maps, namespace, exist, item);
}

/// Every resource is remembered once, and under its own key.
pub open spec fn keyed(maps: KindModel) -> bool {
    &&& ordered(maps.object)
    &&& forall|i: int|
        0 <= i < maps.object.len() ==> (#[trigger] maps.object[i]).0 == maps.object[i].1.namespace
            + maps.object[i].1.name
}

/// Where nothing is remembered, every resource is, once and under its own key.
pub proof fn nothing_is_keyed(maps: KindModel)
    requires
        maps.object.len() == 0,
    ensures
        keyed(maps),
{
}

/// That every resource is remembered once, and under its own key, is kept by
/// processing.
pub proof fn keyed_is_kept(
    before: KindModel,
    after: KindModel,
    item: ItemModel,
    dest: Seq<char>,
    removed: bool,
)
    requires
        keyed(before),
        remembered(before, after, item, dest, removed),
    ensures
        keyed(after),
{
    assert forall|i: int| 0 <= i < after.object.len() implies (#[trigger] after.object[i]).0
        == after.object[i].1.namespace + after.object[i].1.name by {
        let k = after.object[i].0;
        lookup_at(after.object, i);
        if k != item.key() || removed {
            assert(lookup(before.object, k) == Some(after.object[i].1));
            let j = choose|j: int| key_at(before.object, k, j);
            assert(before.object[j].0 == k);
        }
    }
}

/// A resource that was removed as stale is not stale any more.
pub proof fn removed_is_not_stale_again(
    before: MapsModel,
    after: MapsModel,
    kind: Kind,
    item: ItemModel,
    namespace: Seq<char>,
    exist: Seq<Seq<char>>,
)
    requires
        keyed(before.of(kind)),
        removal_maps(before, after, kind, item),
    ensures
        !stale_items(after.of(kind), namespace, exist).contains(item),
{
    let maps = after.of(kind);
    keyed_is_kept(before.of(kind), maps, item, Seq::empty(), true);
    stale_items_exact(maps, namespace, exist, item);
    if stale_items(maps, namespace, exist).contains(item) {
        let i = choose|i: int|
            0 <= i < maps.object.len() && is_stale(#[trigger] maps.object[i], namespace, exist)
                && removal(maps.object[i].1) == item;
        lookup_at(maps.object, i);
        assert(lookup(maps.object, item.key()) is None);
    }
}

// ---------------------------------------------------------------------------
// A whole sync
// ---------------------------------------------------------------------------

/// What is remembered while the listed resources are processed, from before
/// the first one until after the last one.
pub open spec fn listing_run(
    states: Seq<MapsModel>,
    ctx: Ctx,
    scope: Scope,
    items: Seq<ItemModel>,
) -> bool {
    &&& states.len() == items.len() + 1
    &&& forall|i: int, j: int|
        0 <= i < items.len() && j == i + 1 ==> listed_maps(
            #[trigger] states[i],
            #[trigger] states[j],
            ctx,
            scope,
            items[i],
        )
}

/// What is remembered while stale resources are removed, from before the
/// first one until after the last one.
pub open spec fn cleaning_run(states: Seq<MapsModel>, kind: Kind, stale: Seq<ItemModel>) -> bool {
    &&& states.len() == stale.len() + 1
    &&& forall|i: int, j: int|
        0 <= i < stale.len() && j == i + 1 ==> removal_maps(
            #[trigger] states[i],
            #[trigger] states[j],
            kind,
            stale[i],
        )
}

proof fn listing_keeps_keyed(states: Seq<MapsModel>, ctx: Ctx, scope: Scope, items: Seq<ItemModel>, n: int)
    requires
        listing_run(states, ctx, scope, items),
        keyed(states[0].of(scope.kind)),
        0 <= n <= items.len(),
    ensures
        keyed(states[n].of(scope.kind)),
    decreases n,
{
    if n > 0 {
        listing_keeps_keyed(states, ctx, scope, items, n - 1);
        let before = states[n - 1].of(scope.kind);
        let after = states[n].of(scope.kind);
        assert(listed_maps(states[n - 1], states[n], ctx, scope, items[n - 1]));
        if !list_skips(states[n - 1], scope, items[n - 1]) {
            let noted = KindModel { version: after.version, object: before.object, dest: before.dest };
            keyed_is_kept(noted, after, items[n - 1], destination(ctx, items[n - 1]), false);
        }
    }
}

proof fn listing_remembers(
    states: Seq<MapsModel>,
    ctx: Ctx,
    scope: Scope,
    items: Seq<ItemModel>,
    n: int,
    i: int,
)
    requires
        listing_run(states, ctx, scope, items),
        !scope.ignore_already_processed,
        0 <= i < n <= items.len(),
    ensures
        lookup(states[n].of(scope.kind).object, items[i].key()) is Some,
    decreases n,
{
    assert(listed_maps(states[n - 1], states[n], ctx, scope, items[n - 1]));
    let after = states[n].of(scope.kind);
    assert(lookup(after.object, items[n - 1].key()) == Some(cached(items[n - 1])));
    if i < n - 1 && items[i].key() != items[n - 1].key() {
        listing_remembers(states, ctx, scope, items, n - 1, i);
        assert(lookup(after.object, items[i].key()) == lookup(
            states[n - 1].of(scope.kind).object,
            items[i].key(),
        ));
    }
}

proof fn cleaning_forgets(states: Seq<MapsModel>, kind: Kind, stale: Seq<ItemModel>, n: int, key: Seq<char>)
    requires
        cleaning_run(states, kind, stale),
        keyed(states[0].of(kind)),
        0 <= n <= stale.len(),
    ensures
        keyed(states[n].of(kind)),
        lookup(states[n].of(kind).object, key) == (if exists|i: int|
            0 <= i < n && (#[trigger] stale[i]).key() == key {
            None
        } else {
            lookup(states[0].of(kind).object, key)
        }),
    decreases n,
{
    if n > 0 {
        cleaning_forgets(states, kind, stale, n - 1, key);
        assert(removal_maps(states[n - 1], states[n], kind, stale[n - 1]));
        keyed_is_kept(states[n - 1].of(kind), states[n].of(kind), stale[n - 1], Seq::empty(), true);
        assert(lookup(states[n].of(kind).object, key) == (if key == stale[n - 1].key() {
            None
        } else {
            lookup(states[n - 1].of(kind).object, key)
        }));
        if exists|i: int| 0 <= i < n - 1 && (#[trigger] stale[i]).key() == key {
            let i = choose|i: int| 0 <= i < n - 1 && (#[trigger] stale[i]).key() == key;
            assert(0 <= i < n && stale[i].key() == key);
        }
        if exists|i: int| 0 <= i < n && (#[trigger] stale[i]).key() == key {
            let i = choose|i: int| 0 <= i < n && (#[trigger] stale[i]).key() == key;
            if i < n - 1 {
                assert(0 <= i < n - 1 && stale[i].key() == key);
            }
        } else {
            assert(stale[n - 1].key() != key);
        }
    }
}

/// After a whole sync from a list, what is remembered in its scope was listed:
/// nothing stale is left. Removing what was stale leaves alone what is
/// remembered of other namespaces. And unless versions matter, everything that
/// was listed is remembered.
pub proof fn list_sync_is_complete(
    listing: Seq<MapsModel>,
    cleaning: Seq<MapsModel>,
    ctx: Ctx,
    scope: Scope,
    items: Seq<ItemModel>,
    i: int,
    j: int,
)
    requires
        keyed(listing[0].of(scope.kind)),
        listing_run(listing, ctx, scope, items),
        cleaning.len() > 0,
        cleaning[0] == listing.last(),
        cleaning_run(
            cleaning,
            scope.kind,
            stale_items(listing.last().of(scope.kind), scope.namespace@, item_keys(items)),
        ),
    ensures
        ({
            let after = cleaning.last().of(scope.kind).object;
            let between = listing.last().of(scope.kind).object;
            &&& 0 <= i < after.len() && (scope.namespace@ == "ALL"@ || after[i].1.namespace
                == scope.namespace@) ==> item_keys(items).contains(after[i].0)
            &&& 0 <= i < between.len() && scope.namespace@ != "ALL"@ && between[i].1.namespace
                != scope.namespace@ ==> lookup(after, between[i].0) == Some(between[i].1)
            &&& !scope.ignore_already_processed && 0 <= j < items.len() ==> lookup(
                after,
                items[j].key(),
            ) is Some
        }),
{
    let kind = scope.kind;
    let exist = item_keys(items);
    let between = listing.last().of(kind);
    let stale = stale_items(between, scope.namespace@, exist);
    let n = stale.len() as int;
    let after = cleaning.last().of(kind);
    listing_keeps_keyed(listing, ctx, scope, items, items.len() as int);
    assert(listing.last() == listing[items.len() as int]);
    assert(cleaning.last() == cleaning[n]);
    cleaning_forgets(cleaning, kind, stale, n, Seq::empty());
    if 0 <= i < after.object.len() && (scope.namespace@ == "ALL"@ || after.object[i].1.namespace
        == scope.namespace@) {
        let key = after.object[i].0;
        if !exist.contains(key) {
            lookup_at(after.object, i);
            cleaning_forgets(cleaning, kind, stale, n, key);
            let p = choose|p: int| key_at(between.object, key, p);
            lookup_at(between.object, p);
            assert(is_stale(between.object[p], scope.namespace@, exist));
            let gone = removal(between.object[p].1);
            stale_items_exact(between, scope.namespace@, exist, gone);
            let q = choose|q: int| 0 <= q < stale.len() && stale[q] == gone;
            assert(stale[q].key() == key);
        }
    }
    if 0 <= i < between.object.len() && scope.namespace@ != "ALL"@ && between.object[i].1.namespace
        != scope.namespace@ {
        let key = between.object[i].0;
        lookup_at(between.object, i);
        cleaning_forgets(cleaning, kind, stale, n, key);
        assert forall|q: int| 0 <= q < n implies (#[trigger] stale[q]).key() != key by {
            stale_key(between, scope.namespace@, exist, q);
        }
    }
    if !scope.ignore_already_processed && 0 <= j < items.len() {
        let key = items[j].key();
        assert(exist[j] == key);
        listing_remembers(listing, ctx, scope, items, items.len() as int, j);
        cleaning_forgets(cleaning, kind, stale, n, key);
        assert forall|q: int| 0 <= q < n implies (#[trigger] stale[q]).key() != key by {
            stale_key(between, scope.namespace@, exist, q);
        }
    }
}

proof fn stale_key(maps: KindModel, namespace: Seq<char>, exist: Seq<Seq<char>>, q: int)
    requires
        keyed(maps),
        0 <= q < stale_items(maps, namespace, exist).len(),
    ensures
        ({
            let item = stale_items(maps, namespace, exist)[q];
            &&& !exist.contains(item.key())
            &&& namespace == "ALL"@ || item.namespace == namespace
            &&& exists|p: int|
                0 <= p < maps.object.len() && (#[trigger] maps.object[p]).0 == item.key() && removal(
                    maps.object[p].1,
                ) == item
            &&& forall|p: int|
                key_at(maps.object, item.key(), p) ==> maps.object[p].1.namespace == item.namespace
        }),
{
    let items = stale_items(maps, namespace, exist);
    let item = items[q];
    stale_items_exact(maps, namespace, exist, item);
    assert(items.contains(item));
    let p = choose|p: int|
        0 <= p < maps.object.len() && is_stale(#[trigger] maps.object[p], namespace, exist)
            && removal(maps.object[p].1) == item;
    lookup_at(maps.object, p);
}

// ---------------------------------------------------------------------------
// Versions
// ---------------------------------------------------------------------------

/// If versions matter, a resource that was listed is passed over in the same
/// version, be it listed again or reported by a watch connection.
pub proof fn listed_version_is_skipped(
    before: MapsModel,
    after: MapsModel,
    ctx: Ctx,
    scope: Scope,
    item: ItemModel,
    event: EventType,
)
    requires
        scope.ignore_already_processed,
        listed_maps(before, after, ctx, scope, item),
    ensures
        list_skips(after, scope, item),
        event != EventType::Deleted ==> event_skips(after, scope, event, item),
{
    assert(lookup(after.of(scope.kind).version, item.key()) == Some(item.resource_version));
}

/// If versions matter, a resource that a watch connection has reported is
/// passed over in the same version, unless it was deleted; then it is not.
pub proof fn reported_version_is_skipped(
    before: MapsModel,
    after: MapsModel,
    ctx: Ctx,
    scope: Scope,
    item: ItemModel,
    event: EventType,
)
    requires
        scope.ignore_already_processed,
        event_maps(before, after, ctx, scope, event, item),
    ensures
        list_skips(after, scope, item) <==> event != EventType::Deleted,
{
}

/// A resource that is passed over has none of its files touched, and what is
/// remembered does not change.
pub proof fn skipped_resource_is_left_alone(
    before: MapsModel,
    after: MapsModel,
    ctx: Ctx,
    scope: Scope,
    item: ItemModel,
    i: int,
)
    requires
        list_skips(before, scope, item),
        listed_maps(before, after, ctx, scope, item),
    ensures
        forall|kind: Kind| after.of(kind) == before.of(kind),
        0 <= i < listed_steps(before, ctx, scope, item).len() ==> listed_steps(
            before,
            ctx,
            scope,
            item,
        )[i] is Log,
{
}

/// Unless versions matter, every resource is processed whenever it is seen.
pub proof fn nothing_is_skipped_by_default(
    maps: MapsModel,
    scope: Scope,
    event: EventType,
    item: ItemModel,
)
    requires
        !scope.ignore_already_processed,
    ensures
        !list_skips(maps, scope, item),
        !event_skips(maps, scope, event, item),
{
}

/// What a sync of one kind does leaves what is remembered of the other kind.
pub proof fn kinds_are_kept_apart(
    before: MapsModel,
    after: MapsModel,
    ctx: Ctx,
    scope: Scope,
    event: EventType,
    item: ItemModel,
    other: Kind,
)
    requires
        other != scope.kind,
        listed_maps(before, after, ctx, scope, item) || removal_maps(before, after, scope.kind, item)
            || event_maps(before, after, ctx, scope, event, item),
    ensures
        after.of(other) == before.of(other),
{
}

} // verus!
