//! What a sync does to files and to what is remembered, stated of the functions
//! that run it: whatever they are called with and whatever they give back, this
//! holds of it.

use vstd::prelude::*;

use crate::cache::{
    cached, is_stale, is_url_key, item_views, previous, previous_folder, remembered, removal,
    stale_items, CachedModel, KindModel, Maps, MapsModel,
};
use crate::effect::{
    binary_op, every_key_is_planned, every_vanished_key_is_planned, is_binary_now, is_binary_old,
    is_text_now, is_text_old, planned_ops, text_op,
};
use crate::files::{CONTENT_TYPE_BASE64_BINARY, CONTENT_TYPE_TEXT};
use crate::health::Health;
use crate::kubeapi::{EventType, Item, ItemModel, Kind, KubeError, WatchEvent};
use crate::laws::{
    binary_has, cached_binary_has, cached_text_has, remembering_keeps_keys, stale_items_exact,
    text_has,
};
use crate::listing::{
    item_keys, list_resources, list_skips, listed_steps, removal_maps, removal_steps, syncs,
    with_found, Cleaning, ListStep, Paging, Reading, Syncing,
};
use crate::logger::LogEntry;
use crate::ordered::{key_at, lookup};
use crate::plan::{
    process_resource, processed, step_views, ContentModel, FileOpModel, Step, StepModel,
};
use crate::resources::{any_change, destination, resource_names, Ctx, Notice, Scope, WErr};
use crate::text::views;
use crate::watching::{event_skips, WatchStep, Watched, Watching};

verus! {

// ---------------------------------------------------------------------------
// Which steps bring files in step with a resource
// ---------------------------------------------------------------------------

/// The step that writes or removes the file of a text key.
pub open spec fn text_file(
    kind: Kind,
    namespace: Seq<char>,
    name: Seq<char>,
    key: Seq<char>,
    value: Seq<char>,
    folder: Seq<char>,
    remove: bool,
) -> StepModel {
    StepModel::File(
        FileOpModel {
            key,
            content: ContentModel::Text(value),
            folder,
            namespace,
            name,
            kind,
            content_type: "ascii"@,
            remove,
        },
    )
}

/// The step that writes or removes the file of a binary key.
pub open spec fn binary_file(
    kind: Kind,
    namespace: Seq<char>,
    name: Seq<char>,
    key: Seq<char>,
    value: Seq<u8>,
    folder: Seq<char>,
    remove: bool,
) -> StepModel {
    StepModel::File(
        FileOpModel {
            key,
            content: ContentModel::Bin(value),
            folder,
            namespace,
            name,
            kind,
            content_type: "binary"@,
            remove,
        },
    )
}

/// A value, or an empty one.
pub open spec fn or_nothing<A>(value: Option<Seq<A>>) -> Seq<A> {
    match value {
        Some(v) => v,
        None => Seq::empty(),
    }
}

/// The steps write (or, with `remove`, remove) the file of each key of the
/// resource in a folder, with its value.
pub open spec fn does_every_key(
    steps: Seq<StepModel>,
    kind: Kind,
    item: ItemModel,
    folder: Seq<char>,
    remove: bool,
) -> bool {
    &&& kind == Kind::ConfigMap && item.text is Some ==> forall|p: int|
        0 <= p < item.text->0.len() ==> steps.contains(
            text_file(
                kind,
                item.namespace,
                item.name,
                (#[trigger] item.text->0[p]).0,
                item.text->0[p].1,
                folder,
                remove,
            ),
        )
    &&& item.binary is Some ==> forall|p: int|
        0 <= p < item.binary->0.len() ==> steps.contains(
            binary_file(
                kind,
                item.namespace,
                item.name,
                (#[trigger] item.binary->0[p]).0,
                item.binary->0[p].1,
                folder,
                remove,
            ),
        )
}

/// A step is on a key of the resource, in a folder, with its value.
pub open spec fn is_on_a_key(
    step: StepModel,
    kind: Kind,
    item: ItemModel,
    folder: Seq<char>,
    remove: bool,
) -> bool {
    ||| kind == Kind::ConfigMap && item.text is Some && exists|p: int|
        0 <= p < item.text->0.len() && step == text_file(
            kind,
            item.namespace,
            item.name,
            (#[trigger] item.text->0[p]).0,
            item.text->0[p].1,
            folder,
            remove,
        )
    ||| item.binary is Some && exists|p: int|
        0 <= p < item.binary->0.len() && step == binary_file(
            kind,
            item.namespace,
            item.name,
            (#[trigger] item.binary->0[p]).0,
            item.binary->0[p].1,
            folder,
            remove,
        )
}

/// The steps remove the file of each key that was known of the resource, and
/// that it has no more or in another folder, from the folder that it was in.
pub open spec fn removes_vanished_keys(
    steps: Seq<StepModel>,
    kind: Kind,
    item: ItemModel,
    folder: Seq<char>,
    known: CachedModel,
    known_folder: Seq<char>,
) -> bool {
    &&& kind == Kind::ConfigMap && known.text is Some ==> forall|q: int|
        0 <= q < known.text->0.len() && (known_folder != folder || !text_has(
            item,
            (#[trigger] known.text->0[q]).0,
        )) ==> steps.contains(
            text_file(
                kind,
                known.namespace,
                known.name,
                known.text->0[q].0,
                or_nothing(known.text->0[q].1),
                known_folder,
                true,
            ),
        )
    &&& known.binary is Some ==> forall|q: int|
        0 <= q < known.binary->0.len() && (known_folder != folder || !binary_has(
            item,
            (#[trigger] known.binary->0[q]).0,
        )) ==> steps.contains(
            binary_file(
                kind,
                known.namespace,
                known.name,
                known.binary->0[q].0,
                or_nothing(known.binary->0[q].1),
                known_folder,
                true,
            ),
        )
}

/// A step removes the file of a key that was known of the resource (or, if
/// nothing was known of it, that it has), and that it has no more or in
/// another folder.
pub open spec fn is_on_a_vanished_key(
    step: StepModel,
    kind: Kind,
    item: ItemModel,
    folder: Seq<char>,
    known: Option<CachedModel>,
    known_folder: Seq<char>,
) -> bool {
    &&& step matches StepModel::File(op)
    &&& op.remove
    &&& op.folder == known_folder
    &&& op.kind == kind
    &&& {
        ||| kind == Kind::ConfigMap && op.content_type == "ascii"@ && (known_folder != folder || !text_has(
            item,
            op.key,
        )) && (match known {
            Some(c) => cached_text_has(c, op.key),
            None => text_has(item, op.key),
        })
        ||| op.content_type == "binary"@ && (known_folder != folder || !binary_has(item, op.key)) && (
        match known {
            Some(c) => cached_binary_has(c, op.key),
            None => binary_has(item, op.key),
        })
    }
}

/// The file steps are those that bring the files in step with a resource that
/// is there: each of its keys is written in its folder, with its value; each
/// key that was known of it and is gone, or in another folder, has its file
/// removed from where it was; and nothing else is done to files.
pub open spec fn brings_in_step(
    steps: Seq<StepModel>,
    maps: MapsModel,
    kind: Kind,
    item: ItemModel,
    folder: Seq<char>,
) -> bool {
    let known = lookup(maps.of(kind).object, item.namespace + item.name);
    let remembered_folder = lookup(maps.of(kind).dest, item.namespace + item.name);
    let known_folder = match remembered_folder {
        Some(f) => f,
        None => folder,
    };
    &&& does_every_key(steps, kind, item, folder, false)
    &&& known is Some ==> removes_vanished_keys(steps, kind, item, folder, known->0, known_folder)
    &&& forall|i: int|
        0 <= i < steps.len() && (#[trigger] steps[i]) is File ==> {
            ||| is_on_a_key(steps[i], kind, item, folder, false)
            ||| is_on_a_vanished_key(steps[i], kind, item, folder, known, known_folder)
        }
}

/// The file steps are those that take away a resource that is gone: each of
/// its keys has its file removed from the folder that is remembered of it (or,
/// if none is, from `folder`), and nothing else is done to files.
pub open spec fn takes_away(
    steps: Seq<StepModel>,
    maps: MapsModel,
    kind: Kind,
    item: ItemModel,
    folder: Seq<char>,
) -> bool {
    let remembered_folder = lookup(maps.of(kind).dest, item.namespace + item.name);
    let known_folder = match remembered_folder {
        Some(f) => f,
        None => folder,
    };
    &&& does_every_key(steps, kind, item, known_folder, true)
    &&& forall|i: int|
        0 <= i < steps.len() && (#[trigger] steps[i]) is File ==> is_on_a_key(
            steps[i],
            kind,
            item,
            known_folder,
            true,
        )
}

/// No step is on a file.
pub open spec fn touches_no_file(steps: Seq<StepModel>) -> bool {
    forall|i: int| 0 <= i < steps.len() ==> (#[trigger] steps[i]) is Log
}

proof fn content_types()
    ensures
        CONTENT_TYPE_TEXT@ == "ascii"@,
        CONTENT_TYPE_BASE64_BINARY@ == "binary"@,
        "ascii"@ != "binary"@,
{
    reveal_strlit("ascii");
    reveal_strlit("binary");
    assert("ascii"@.len() == 5 && "binary"@.len() == 6);
}

/// What is planned for a resource that is there brings its files in step with
/// it.
pub proof fn processing_brings_in_step(maps: MapsModel, kind: Kind, item: ItemModel, folder: Seq<char>)
    ensures
        brings_in_step(processed(maps, kind, item, folder, false), maps, kind, item, folder),
{
    content_types();
    let steps = processed(maps, kind, item, folder, false);
    let c = previous(maps.of(kind), item);
    let old_item = removal(c);
    let old_folder = previous_folder(maps.of(kind), item.key(), folder);
    let known = lookup(maps.of(kind).object, item.namespace + item.name);
    if item.text is Some {
        assert forall|p: int| kind == Kind::ConfigMap && 0 <= p < item.text->0.len() implies steps.contains(
            text_file(
                kind,
                item.namespace,
                item.name,
                (#[trigger] item.text->0[p]).0,
                item.text->0[p].1,
                folder,
                false,
            ),
        ) by {
            every_key_is_planned(kind, item, old_item, folder, old_folder, false, p);
        }
    }
    if item.binary is Some {
        assert forall|p: int| 0 <= p < item.binary->0.len() implies steps.contains(
            binary_file(
                kind,
                item.namespace,
                item.name,
                (#[trigger] item.binary->0[p]).0,
                item.binary->0[p].1,
                folder,
                false,
            ),
        ) by {
            every_key_is_planned(kind, item, old_item, folder, old_folder, false, p);
        }
    }
    if known is Some {
        if c.text is Some {
            assert forall|q: int|
                kind == Kind::ConfigMap && 0 <= q < c.text->0.len() && (old_folder != folder || !text_has(
                    item,
                    (#[trigger] c.text->0[q]).0,
                )) implies steps.contains(
                text_file(
                    kind,
                    c.namespace,
                    c.name,
                    c.text->0[q].0,
                    or_nothing(c.text->0[q].1),
                    old_folder,
                    true,
                ),
            ) by {
                every_vanished_key_is_planned(kind, item, old_item, folder, old_folder, q);
            }
        }
        if c.binary is Some {
            assert forall|q: int|
                0 <= q < c.binary->0.len() && (old_folder != folder || !binary_has(
                    item,
                    (#[trigger] c.binary->0[q]).0,
                )) implies steps.contains(
                binary_file(
                    kind,
                    c.namespace,
                    c.name,
                    c.binary->0[q].0,
                    or_nothing(c.binary->0[q].1),
                    old_folder,
                    true,
                ),
            ) by {
                every_vanished_key_is_planned(kind, item, old_item, folder, old_folder, q);
            }
        }
    }
    assert forall|i: int| 0 <= i < steps.len() && (#[trigger] steps[i]) is File implies {
        ||| is_on_a_key(steps[i], kind, item, folder, false)
        ||| is_on_a_vanished_key(steps[i], kind, item, folder, known, old_folder)
    } by {
        let op = steps[i]->File_0;
        assert(steps.contains(StepModel::File(op)));
        planned_ops(kind, item, old_item, folder, old_folder, false, op);
        remembering_keeps_keys(item, c, op.key);
        op_is_on_a_key(kind, item, folder, false, op);
        if is_text_old(item, old_item, kind, folder, old_folder, op) {
            let p = choose|p: int|
                0 <= p < old_item.text->0.len() && op == text_op(
                    old_item,
                    kind,
                    #[trigger] old_item.text->0[p],
                    old_folder,
                    true,
                );
            assert(key_at(old_item.text->0, op.key, p));
        }
        if is_binary_old(item, old_item, kind, folder, old_folder, op) {
            let p = choose|p: int|
                0 <= p < old_item.binary->0.len() && op == binary_op(
                    old_item,
                    kind,
                    #[trigger] old_item.binary->0[p],
                    old_folder,
                    true,
                );
            assert(key_at(old_item.binary->0, op.key, p));
        }
    }
}

proof fn op_is_on_a_key(kind: Kind, item: ItemModel, folder: Seq<char>, removed: bool, op: FileOpModel)
    ensures
        is_text_now(item, kind, folder, removed, op) || is_binary_now(item, kind, folder, removed, op)
            ==> is_on_a_key(StepModel::File(op), kind, item, folder, removed),
{
    content_types();
    if is_text_now(item, kind, folder, removed, op) {
        let p = choose|p: int|
            0 <= p < item.text->0.len() && op == text_op(
                item,
                kind,
                #[trigger] item.text->0[p],
                folder,
                removed,
            );
        assert(StepModel::File(op) == text_file(
            kind,
            item.namespace,
            item.name,
            item.text->0[p].0,
            item.text->0[p].1,
            folder,
            removed,
        ));
    }
    if is_binary_now(item, kind, folder, removed, op) {
        let p = choose|p: int|
            0 <= p < item.binary->0.len() && op == binary_op(
                item,
                kind,
                #[trigger] item.binary->0[p],
                folder,
                removed,
            );
        assert(StepModel::File(op) == binary_file(
            kind,
            item.namespace,
            item.name,
            item.binary->0[p].0,
            item.binary->0[p].1,
            folder,
            removed,
        ));
    }
}

/// What is planned for a resource that is gone takes it away.
pub proof fn processing_takes_away(maps: MapsModel, kind: Kind, item: ItemModel, folder: Seq<char>)
    ensures
        takes_away(processed(maps, kind, item, folder, true), maps, kind, item, folder),
{
    content_types();
    let steps = processed(maps, kind, item, folder, true);
    let old_item = removal(previous(maps.of(kind), item));
    let old_folder = previous_folder(maps.of(kind), item.key(), folder);
    if item.text is Some {
        assert forall|p: int| kind == Kind::ConfigMap && 0 <= p < item.text->0.len() implies steps.contains(
            text_file(
                kind,
                item.namespace,
                item.name,
                (#[trigger] item.text->0[p]).0,
                item.text->0[p].1,
                old_folder,
                true,
            ),
        ) by {
            every_key_is_planned(kind, item, old_item, old_folder, old_folder, true, p);
        }
    }
    if item.binary is Some {
        assert forall|p: int| 0 <= p < item.binary->0.len() implies steps.contains(
            binary_file(
                kind,
                item.namespace,
                item.name,
                (#[trigger] item.binary->0[p]).0,
                item.binary->0[p].1,
                old_folder,
                true,
            ),
        ) by {
            every_key_is_planned(kind, item, old_item, old_folder, old_folder, true, p);
        }
    }
    assert forall|i: int| 0 <= i < steps.len() && (#[trigger] steps[i]) is File implies is_on_a_key(
        steps[i],
        kind,
        item,
        old_folder,
        true,
    ) by {
        let op = steps[i]->File_0;
        assert(steps.contains(StepModel::File(op)));
        planned_ops(kind, item, old_item, old_folder, old_folder, true, op);
        op_is_on_a_key(kind, item, old_folder, true, op);
    }
}

proof fn after_logs_contains(logs: Seq<StepModel>, rest: Seq<StepModel>, step: StepModel)
    requires
        rest.contains(step),
    ensures
        (logs + rest).contains(step),
{
    let i = choose|i: int| 0 <= i < rest.len() && rest[i] == step;
    assert((logs + rest)[logs.len() + i] == step);
}

/// Messages before the steps do not matter.
pub proof fn logs_do_not_matter(
    logs: Seq<StepModel>,
    rest: Seq<StepModel>,
    maps: MapsModel,
    kind: Kind,
    item: ItemModel,
    folder: Seq<char>,
)
    requires
        touches_no_file(logs),
    ensures
        brings_in_step(rest, maps, kind, item, folder) ==> brings_in_step(
            logs + rest,
            maps,
            kind,
            item,
            folder,
        ),
        takes_away(rest, maps, kind, item, folder) ==> takes_away(logs + rest, maps, kind, item, folder),
{
    let steps = logs + rest;
    assert forall|step: StepModel| rest.contains(step) implies #[trigger] steps.contains(step) by {
        after_logs_contains(logs, rest, step);
    }
    assert forall|i: int| 0 <= i < steps.len() && (#[trigger] steps[i]) is File implies i >= logs.len()
        && steps[i] == rest[i - logs.len()] by {
        if i < logs.len() {
            assert(logs[i] is Log);
        }
    }
}

// ---------------------------------------------------------------------------
// What is remembered
// ---------------------------------------------------------------------------

/// Of a resource its names are remembered, which data sections it has, and
/// their keys in their order, with the values of those that end in `.url` and
/// of no others; and the folder that its files are in.
pub open spec fn knows(maps: MapsModel, kind: Kind, item: ItemModel, folder: Seq<char>) -> bool {
    &&& lookup(maps.of(kind).dest, item.namespace + item.name) == Some(folder)
    &&& lookup(maps.of(kind).object, item.namespace + item.name) matches Some(c)
    &&& c.namespace == item.namespace
    &&& c.name == item.name
    &&& c.text is Some == item.text is Some
    &&& c.text is Some ==> c.text->0.len() == item.text->0.len() && forall|i: int|
        0 <= i < c.text->0.len() ==> {
            let e = item.text->0[i];
            (#[trigger] c.text->0[i]) == (e.0, if ends_in_url(e.0) {
                Some(e.1)
            } else {
                None
            })
        }
    &&& c.binary is Some == item.binary is Some
    &&& c.binary is Some ==> c.binary->0.len() == item.binary->0.len() && forall|i: int|
        0 <= i < c.binary->0.len() ==> {
            let e = item.binary->0[i];
            (#[trigger] c.binary->0[i]) == (e.0, if ends_in_url(e.0) {
                Some(e.1)
            } else {
                None
            })
        }
}

/// The last four characters are `.url`.
pub open spec fn ends_in_url(key: Seq<char>) -> bool {
    let n = key.len() as int;
    n >= 4 && key[n - 4] == '.' && key[n - 3] == 'u' && key[n - 2] == 'r' && key[n - 1] == 'l'
}

/// A key counts as that of a URL if its last four characters are `.url`.
pub proof fn url_keys_end_so(key: Seq<char>)
    ensures
        is_url_key(key) == ends_in_url(key),
{
    reveal_strlit(".url");
    let n = key.len() as int;
    if ends_in_url(key) {
        assert(key.skip(n - 4) =~= ".url"@);
    }
    if is_url_key(key) {
        let tail = key.skip(n - 4);
        assert(tail[0] == '.' && tail[1] == 'u' && tail[2] == 'r' && tail[3] == 'l');
    }
}

/// Nothing changes of what is remembered of other resources.
pub open spec fn others_stay(before: MapsModel, after: MapsModel, kind: Kind, item: ItemModel) -> bool {
    &&& forall|other: Kind| other != kind ==> after.of(other) == before.of(other)
    &&& forall|key: Seq<char>|
        key != item.namespace + item.name ==> #[trigger] lookup(after.of(kind).object, key) == lookup(
            before.of(kind).object,
            key,
        )
    &&& forall|key: Seq<char>|
        key != item.namespace + item.name ==> #[trigger] lookup(after.of(kind).dest, key) == lookup(
            before.of(kind).dest,
            key,
        )
    &&& forall|key: Seq<char>|
        key != item.namespace + item.name ==> #[trigger] lookup(after.of(kind).version, key) == lookup(
            before.of(kind).version,
            key,
        )
}

proof fn remembering_is_knowing(
    before: KindModel,
    after: MapsModel,
    kind: Kind,
    item: ItemModel,
    folder: Seq<char>,
)
    requires
        remembered(before, after.of(kind), item, folder, false),
    ensures
        knows(after, kind, item, folder),
{
    let c = cached(item);
    assert(lookup(after.of(kind).object, item.key()) == Some(c));
    assert(lookup(after.of(kind).dest, item.key()) == Some(folder));
    if c.text is Some {
        assert forall|i: int| 0 <= i < c.text->0.len() implies {
            let e = item.text->0[i];
            (#[trigger] c.text->0[i]) == (e.0, if ends_in_url(e.0) {
                Some(e.1)
            } else {
                None
            })
        } by {
            url_keys_end_so(item.text->0[i].0);
        }
    }
    if c.binary is Some {
        assert forall|i: int| 0 <= i < c.binary->0.len() implies {
            let e = item.binary->0[i];
            (#[trigger] c.binary->0[i]) == (e.0, if ends_in_url(e.0) {
                Some(e.1)
            } else {
                None
            })
        } by {
            url_keys_end_so(item.binary->0[i].0);
        }
    }
}

/// Processing a resource brings its files in step with it, and remembers it; or
/// takes it away and forgets it, if it is gone.
pub proof fn process_resource_law(
    maps: &mut Maps,
    kind: Kind,
    item: &Item,
    folder: &str,
    removed: bool,
    r: Vec<Step>,
)
    requires
        call_ensures(process_resource, (maps, kind, item, Some(folder), removed), r),
    ensures
        others_stay(old(maps)@, final(maps)@, kind, item@),
        final(maps)@.of(kind).version == old(maps)@.of(kind).version,
        !removed ==> {
            &&& brings_in_step(step_views(r@), old(maps)@, kind, item@, folder@)
            &&& knows(final(maps)@, kind, item@, folder@)
        },
        removed ==> {
            &&& takes_away(step_views(r@), old(maps)@, kind, item@, folder@)
            &&& lookup(final(maps)@.of(kind).object, item@.namespace + item@.name) is None
        },
{
    processing_brings_in_step(old(maps)@, kind, item@, folder@);
    processing_takes_away(old(maps)@, kind, item@, folder@);
    if !removed {
        remembering_is_knowing(old(maps)@.of(kind), final(maps)@, kind, item@, folder@);
    } else {
        assert(lookup(final(maps)@.of(kind).object, item@.key()) is None);
    }
}

// ---------------------------------------------------------------------------
// Watch connections
// ---------------------------------------------------------------------------

/// An event that is not passed over brings the files in step with the resource
/// in its folder, or takes it away if it was deleted; and it is remembered, or
/// forgotten. It is passed over only if versions matter, it is no deletion, and
/// its version is the one that was noted last; then nothing is done at all.
pub proof fn event_law(
    watching: Watching,
    maps: &mut Maps,
    ctx: &Ctx,
    health: &mut Health,
    now_ms: u64,
    event: EventType,
    item: Item,
    r: WatchStep,
)
    requires
        call_ensures(
            Watching::event,
            (watching, maps, ctx, health, now_ms, Some(Ok((event, item)))),
            r,
        ),
    ensures
        ({
            let kind = watching.scope.kind;
            let key = item@.namespace + item@.name;
            let folder = destination(*ctx, item@);
            let noted = lookup(old(maps)@.of(kind).version, key);
            let versions_matter = watching.scope.ignore_already_processed;
            let passed_over = versions_matter && event != EventType::Deleted && noted == Some(
                item@.resource_version,
            );
            let after = final(maps)@;
            &&& r matches WatchStep::Apply(w)
            &&& w.scope == watching.scope
            &&& passed_over ==> touches_no_file(step_views(w.steps@)) && after.of(Kind::ConfigMap)
                == old(maps)@.of(Kind::ConfigMap) && after.of(Kind::Secret) == old(maps)@.of(
                Kind::Secret,
            )
            &&& !passed_over && event != EventType::Deleted ==> {
                &&& brings_in_step(step_views(w.steps@), old(maps)@, kind, item@, folder)
                &&& knows(after, kind, item@, folder)
                &&& lookup(after.of(kind).version, key) == (if versions_matter {
                    Some(item@.resource_version)
                } else {
                    noted
                })
            }
            &&& event == EventType::Deleted ==> {
                &&& takes_away(step_views(w.steps@), old(maps)@, kind, item@, folder)
                &&& lookup(after.of(kind).object, key) is None
                &&& lookup(after.of(kind).version, key) == (if versions_matter && noted == Some(
                    item@.resource_version,
                ) {
                    None
                } else {
                    noted
                })
            }
            &&& others_stay(old(maps)@, after, kind, item@)
        }),
{
    let kind = watching.scope.kind;
    let folder = destination(*ctx, item@);
    let before = old(maps)@;
    let after = final(maps)@;
    let w = r->Apply_0;
    let steps = step_views(w.steps@);
    let removed = event == EventType::Deleted;
    if !event_skips(before, watching.scope, event, item@) {
        let rest = processed(before, kind, item@, folder, removed);
        let logs = steps.take(steps.len() - rest.len());
        assert(steps =~= logs + rest);
        assert(touches_no_file(logs));
        processing_brings_in_step(before, kind, item@, folder);
        processing_takes_away(before, kind, item@, folder);
        logs_do_not_matter(logs, rest, before, kind, item@, folder);
        if !removed {
            let noted = KindModel {
                version: after.of(kind).version,
                object: before.of(kind).object,
                dest: before.of(kind).dest,
            };
            remembering_is_knowing(noted, after, kind, item@, folder);
        } else {
            assert(lookup(after.of(kind).object, item@.key()) is None);
        }
    }
}

/// With the first event of a connection the sidecar is ready, and it stays so;
/// and with each event Kubernetes was heard of. The watchers do not change.
pub proof fn event_is_a_sign_of_life(
    watching: Watching,
    maps: &mut Maps,
    ctx: &Ctx,
    health: &mut Health,
    now_ms: u64,
    event: EventType,
    item: Item,
    r: WatchStep,
)
    requires
        call_ensures(
            Watching::event,
            (watching, maps, ctx, health, now_ms, Some(Ok((event, item)))),
            r,
        ),
    ensures
        watching.first_event ==> final(health).ready,
        old(health).ready ==> final(health).ready,
        final(health).ready ==> watching.first_event || old(health).ready,
        final(health).last_contact_ms == now_ms,
        final(health).watchers@ == old(health).watchers@,
{
}

/// A connection that ends or fails does nothing to what is remembered, nor to
/// the health; its end is no failure, and its failure is handed on.
pub proof fn lost_connection_changes_nothing(
    watching: Watching,
    maps: &mut Maps,
    ctx: &Ctx,
    health: &mut Health,
    now_ms: u64,
    event: Option<WatchEvent>,
    r: WatchStep,
)
    requires
        call_ensures(Watching::event, (watching, maps, ctx, health, now_ms, event), r),
        !(event matches Some(Ok(_))),
    ensures
        final(maps)@ == old(maps)@,
        *final(health) == *old(health),
        r is Finished,
        event is None <==> r->Finished_0 is Ok,
        event matches Some(Err(e)) ==> r->Finished_0->Err_0 == WErr::Kube(e),
{
}

/// After a change the script is run if there is one, and then the URL is
/// requested if there is one, each once; without a change neither is. Then the
/// connection goes on, unless the script could not be started.
pub proof fn event_is_followed(
    watched: Watched,
    ctx: &Ctx,
    results: &Vec<bool>,
    first: WatchStep,
    notice: Notice,
    watching: Watching,
    outcome: Result<(), String>,
    second: WatchStep,
)
    requires
        call_ensures(Watched::applied, (watched, ctx, results), first),
        first is Notify ==> first == WatchStep::Notify(notice, watching),
        call_ensures(WatchStep::notified, (notice, watching, outcome), second),
    ensures
        ({
            let changed = exists|i: int| 0 <= i < results@.len() && #[trigger] results@[i];
            let url = watched.scope.request_url;
            &&& !changed || (ctx.script is None && url is None) ==> first == WatchStep::Next(
                (Watching { scope: watched.scope, first_event: false }),
            )
            &&& changed && ctx.script is Some ==> {
                &&& first is Notify
                &&& watching == (Watching { scope: watched.scope, first_event: false })
                &&& notice matches Notice::Script { path, .. }
                &&& path@ == ctx.script->0@
                &&& outcome is Err ==> second == WatchStep::Finished(
                    Err(WErr::Other(outcome->Err_0)),
                )
                &&& outcome is Ok && url is Some ==> {
                    &&& second matches WatchStep::Notify(next, after)
                    &&& next matches Notice::Request { url: asked }
                    &&& asked@ == url->0@
                    &&& after == watching
                }
                &&& outcome is Ok && url is None ==> second == WatchStep::Next(watching)
            }
            &&& changed && ctx.script is None && url is Some ==> {
                &&& first is Notify
                &&& watching == (Watching { scope: watched.scope, first_event: false })
                &&& notice matches Notice::Request { url: asked }
                &&& asked@ == url->0@
                &&& second == WatchStep::Next(watching)
            }
        }),
{
}

// ---------------------------------------------------------------------------
// Lists
// ---------------------------------------------------------------------------

/// The keys of the resources that are listed hold `key`.
pub open spec fn lists_key(items: Seq<ItemModel>, key: Seq<char>) -> bool {
    exists|i: int| 0 <= i < items.len() && (#[trigger] items[i]).namespace + items[i].name == key
}

/// The remembered resource at position `p` is in the scope of the sync, and was
/// not listed.
pub open spec fn is_unlisted(maps: MapsModel, scope: Scope, items: Seq<ItemModel>, p: int) -> bool {
    let objects = maps.of(scope.kind).object;
    &&& 0 <= p < objects.len()
    &&& scope.namespace@ == "ALL"@ || objects[p].1.namespace == scope.namespace@
    &&& !lists_key(items, objects[p].0)
}

/// The item is rebuilt from what is remembered: it has the same names, sections
/// and keys, with the values that are remembered, and empty ones otherwise.
pub open spec fn is_rebuilt(item: ItemModel, c: CachedModel) -> bool {
    &&& item.namespace == c.namespace
    &&& item.name == c.name
    &&& item.text is Some == c.text is Some
    &&& item.text is Some ==> item.text->0.len() == c.text->0.len() && forall|i: int|
        0 <= i < item.text->0.len() ==> (#[trigger] item.text->0[i]) == (
            c.text->0[i].0,
            or_nothing(c.text->0[i].1),
        )
    &&& item.binary is Some == c.binary is Some
    &&& item.binary is Some ==> item.binary->0.len() == c.binary->0.len() && forall|i: int|
        0 <= i < item.binary->0.len() ==> (#[trigger] item.binary->0[i]) == (
            c.binary->0[i].0,
            or_nothing(c.binary->0[i].1),
        )
}

/// One of the items is rebuilt from what is remembered.
#[verifier::opaque]
pub open spec fn holds_rebuilt(items: Seq<ItemModel>, c: CachedModel) -> bool {
    exists|q: int| 0 <= q < items.len() && is_rebuilt(#[trigger] items[q], c)
}

/// The item is rebuilt from what is remembered of an unlisted resource.
#[verifier::opaque]
pub open spec fn is_of_unlisted(
    maps: MapsModel,
    scope: Scope,
    items: Seq<ItemModel>,
    item: ItemModel,
) -> bool {
    exists|p: int| #[trigger]
        is_unlisted(maps, scope, items, p) && is_rebuilt(item, maps.of(scope.kind).object[p].1)
}

/// The sync ends: after a change the script is run if there is one, or else the
/// URL requested if there is one; and otherwise it is over.
pub open spec fn ends_sync(ctx: Ctx, scope: Scope, changed: bool, step: ListStep) -> bool {
    &&& !changed || (ctx.script is None && scope.request_url is None) ==> step == ListStep::Finished(
        Ok(()),
    )
    &&& changed && ctx.script is Some ==> {
        &&& step matches ListStep::Notify(Notice::Script { path, request_url })
        &&& path@ == ctx.script->0@
        &&& request_url is Some == scope.request_url is Some
        &&& request_url is Some ==> request_url->0@ == scope.request_url->0@
    }
    &&& changed && ctx.script is None && scope.request_url is Some ==> {
        &&& step matches ListStep::Notify(Notice::Request { url })
        &&& url@ == scope.request_url->0@
    }
}

/// The stale resource `item` is taken away, and forgotten.
pub open spec fn takes_away_stale(
    before: MapsModel,
    after: MapsModel,
    kind: Kind,
    item: ItemModel,
    steps: Seq<StepModel>,
) -> bool {
    &&& takes_away(steps, before, kind, item, Seq::empty())
    &&& lookup(after.of(kind).object, item.namespace + item.name) is None
    &&& after.of(kind).version == before.of(kind).version
    &&& others_stay(before, after, kind, item)
}

/// What follows when all listed resources have been processed: those that are
/// remembered in the scope of the sync and were not listed are taken away, from
/// the first one on; and if there are none, the sync ends.
pub open spec fn goes_on_to_clean(
    before: MapsModel,
    after: MapsModel,
    ctx: Ctx,
    scope: Scope,
    items: Seq<ItemModel>,
    changed: bool,
    step: ListStep,
) -> bool {
    if exists|p: int| is_unlisted(before, scope, items, p) {
        &&& step matches ListStep::Clean(c)
        &&& c@.scope == scope
        &&& c@.changed == changed
        &&& c@.next == 1
        &&& c@.stale.len() > 0
        &&& forall|p: int| #[trigger]
            is_unlisted(before, scope, items, p) ==> holds_rebuilt(
                c@.stale,
                before.of(scope.kind).object[p].1,
            )
        &&& forall|q: int|
            0 <= q < c@.stale.len() ==> is_of_unlisted(
                before,
                scope,
                items,
                #[trigger] c@.stale[q],
            )
        &&& takes_away_stale(before, after, scope.kind, c@.stale[0], c@.steps)
    } else {
        &&& after == before
        &&& ends_sync(ctx, scope, changed, step)
    }
}

/// What follows when `next` of the listed resources have been processed: the
/// next one is, unless it is passed over for its version.
pub open spec fn goes_on_to_sync(
    before: MapsModel,
    after: MapsModel,
    ctx: Ctx,
    scope: Scope,
    items: Seq<ItemModel>,
    next: int,
    changed: bool,
    step: ListStep,
) -> bool {
    if next < items.len() {
        let kind = scope.kind;
        let item = items[next];
        let key = item.namespace + item.name;
        let folder = destination(ctx, item);
        let noted = lookup(before.of(kind).version, key);
        &&& step matches ListStep::Apply(s)
        &&& s@.scope == scope
        &&& s@.items == items
        &&& s@.next == next + 1
        &&& s@.changed == changed
        &&& if scope.ignore_already_processed && noted == Some(item.resource_version) {
            &&& touches_no_file(s@.steps)
            &&& after.of(Kind::ConfigMap) == before.of(Kind::ConfigMap)
            &&& after.of(Kind::Secret) == before.of(Kind::Secret)
        } else {
            &&& brings_in_step(s@.steps, before, kind, item, folder)
            &&& knows(after, kind, item, folder)
            &&& lookup(after.of(kind).version, key) == (if scope.ignore_already_processed {
                Some(item.resource_version)
            } else {
                noted
            })
        }
        &&& others_stay(before, after, kind, item)
    } else {
        goes_on_to_clean(before, after, ctx, scope, items, changed, step)
    }
}

proof fn listed_keys(items: Seq<ItemModel>, key: Seq<char>)
    ensures
        item_keys(items).contains(key) == lists_key(items, key),
{
    let keys = item_keys(items);
    if keys.contains(key) {
        let i = choose|i: int| 0 <= i < keys.len() && keys[i] == key;
        assert(items[i].namespace + items[i].name == key);
    }
    if lists_key(items, key) {
        let i = choose|i: int|
            0 <= i < items.len() && (#[trigger] items[i]).namespace + items[i].name == key;
        assert(keys[i] == key);
    }
}

proof fn rebuilt_is_rebuilt(c: CachedModel)
    ensures
        is_rebuilt(removal(c), c),
{
}

proof fn stale_is_taken_away(before: MapsModel, after: MapsModel, kind: Kind, item: ItemModel)
    requires
        removal_maps(before, after, kind, item),
    ensures
        takes_away_stale(before, after, kind, item, removal_steps(before, kind, item)),
{
    let steps = removal_steps(before, kind, item);
    let rest = processed(before, kind, item, Seq::empty(), true);
    let logs = steps.take(1);
    assert(steps =~= logs + rest);
    assert(touches_no_file(logs));
    processing_takes_away(before, kind, item, Seq::empty());
    logs_do_not_matter(logs, rest, before, kind, item, Seq::empty());
    assert(lookup(after.of(kind).object, item.key()) is None);
}

/// An unlisted resource is among the stale ones.
proof fn unlisted_is_stale(before: MapsModel, scope: Scope, items: Seq<ItemModel>, p: int) -> (q: int)
    requires
        is_unlisted(before, scope, items, p),
    ensures
        ({
            let stale = stale_items(before.of(scope.kind), scope.namespace@, item_keys(items));
            0 <= q < stale.len() && is_rebuilt(stale[q], before.of(scope.kind).object[p].1)
        }),
{
    let objects = before.of(scope.kind).object;
    let keys = item_keys(items);
    let stale = stale_items(before.of(scope.kind), scope.namespace@, keys);
    listed_keys(items, objects[p].0);
    let item = removal(objects[p].1);
    rebuilt_is_rebuilt(objects[p].1);
    assert(is_stale(objects[p], scope.namespace@, keys));
    stale_items_exact(before.of(scope.kind), scope.namespace@, keys, item);
    choose|q: int| 0 <= q < stale.len() && stale[q] == item
}

/// A stale resource is an unlisted one.
proof fn stale_is_unlisted(before: MapsModel, scope: Scope, items: Seq<ItemModel>, q: int) -> (p: int)
    requires
        0 <= q < stale_items(before.of(scope.kind), scope.namespace@, item_keys(items)).len(),
    ensures
        ({
            let stale = stale_items(before.of(scope.kind), scope.namespace@, item_keys(items));
            is_unlisted(before, scope, items, p) && is_rebuilt(
                stale[q],
                before.of(scope.kind).object[p].1,
            )
        }),
{
    let objects = before.of(scope.kind).object;
    let keys = item_keys(items);
    let stale = stale_items(before.of(scope.kind), scope.namespace@, keys);
    stale_items_exact(before.of(scope.kind), scope.namespace@, keys, stale[q]);
    assert(stale.contains(stale[q]));
    let p = choose|p: int|
        0 <= p < objects.len() && is_stale(#[trigger] objects[p], scope.namespace@, keys) && removal(
            objects[p].1,
        ) == stale[q];
    listed_keys(items, objects[p].0);
    rebuilt_is_rebuilt(objects[p].1);
    p
}

proof fn cleaning_goes_on(
    before: MapsModel,
    after: MapsModel,
    ctx: Ctx,
    scope: Scope,
    items: Seq<ItemModel>,
    changed: bool,
    step: ListStep,
)
    requires
        syncs(before, after, ctx, scope, items, items.len() as int, changed, step),
    ensures
        goes_on_to_clean(before, after, ctx, scope, items, changed, step),
{
    let objects = before.of(scope.kind).object;
    let stale = stale_items(before.of(scope.kind), scope.namespace@, item_keys(items));
    if exists|p: int| is_unlisted(before, scope, items, p) {
        let p = choose|p: int| is_unlisted(before, scope, items, p);
        let q = unlisted_is_stale(before, scope, items, p);
        stale_is_taken_away(before, after, scope.kind, stale[0]);
        let c = step->Clean_0;
        assert(c@.stale == stale);
        assert forall|p: int| #[trigger] is_unlisted(before, scope, items, p) implies holds_rebuilt(
            c@.stale,
            objects[p].1,
        ) by {
            reveal(holds_rebuilt);
            let q = unlisted_is_stale(before, scope, items, p);
            assert(is_rebuilt(c@.stale[q], objects[p].1));
        }
        assert forall|q: int| 0 <= q < c@.stale.len() implies is_of_unlisted(
            before,
            scope,
            items,
            #[trigger] c@.stale[q],
        ) by {
            reveal(is_of_unlisted);
            let p = stale_is_unlisted(before, scope, items, q);
            assert(is_unlisted(before, scope, items, p));
        }
    } else if stale.len() > 0 {
        let p = stale_is_unlisted(before, scope, items, 0);
        assert(is_unlisted(before, scope, items, p));
    }
}

proof fn syncing_goes_on(
    before: MapsModel,
    after: MapsModel,
    ctx: Ctx,
    scope: Scope,
    items: Seq<ItemModel>,
    next: int,
    changed: bool,
    step: ListStep,
)
    requires
        0 <= next <= items.len(),
        syncs(before, after, ctx, scope, items, next, changed, step),
    ensures
        goes_on_to_sync(before, after, ctx, scope, items, next, changed, step),
{
    if next < items.len() {
        let kind = scope.kind;
        let item = items[next];
        let folder = destination(ctx, item);
        let steps = listed_steps(before, ctx, scope, item);
        if !list_skips(before, scope, item) {
            let rest = processed(before, kind, item, folder, false);
            let logs = steps.take(steps.len() - rest.len());
            assert(steps =~= logs + rest);
            assert(touches_no_file(logs));
            processing_brings_in_step(before, kind, item, folder);
            logs_do_not_matter(logs, rest, before, kind, item, folder);
            let noted = KindModel {
                version: after.of(kind).version,
                object: before.of(kind).object,
                dest: before.of(kind).dest,
            };
            remembering_is_knowing(noted, after, kind, item, folder);
        }
    } else {
        cleaning_goes_on(before, after, ctx, scope, items, changed, step);
    }
}

/// When the steps for a listed resource are done, the next one is processed,
/// and after the last one those that were not listed are taken away. That a
/// file has changed is not forgotten on the way.
pub proof fn every_listed_resource_is_synced(
    syncing: Syncing,
    maps: &mut Maps,
    ctx: &Ctx,
    results: &Vec<bool>,
    r: ListStep,
)
    requires
        call_ensures(Syncing::applied, (syncing, maps, ctx, results), r),
        0 <= syncing@.next <= syncing@.items.len(),
    ensures
        goes_on_to_sync(
            old(maps)@,
            final(maps)@,
            *ctx,
            syncing@.scope,
            syncing@.items,
            syncing@.next,
            syncing@.changed || exists|i: int| 0 <= i < results@.len() && #[trigger] results@[i],
            r,
        ),
{
    syncing_goes_on(
        old(maps)@,
        final(maps)@,
        *ctx,
        syncing@.scope,
        syncing@.items,
        syncing@.next,
        syncing@.changed || any_change(results@),
        r,
    );
}

/// When the steps for a stale resource are done, the next one is taken away,
/// and after the last one the sync ends. That a file has changed is not
/// forgotten on the way.
pub proof fn every_stale_resource_is_taken_away(
    cleaning: Cleaning,
    maps: &mut Maps,
    ctx: &Ctx,
    results: &Vec<bool>,
    r: ListStep,
)
    requires
        call_ensures(Cleaning::applied, (cleaning, maps, ctx, results), r),
        0 <= cleaning@.next <= cleaning@.stale.len(),
    ensures
        ({
            let changed = cleaning@.changed || exists|i: int|
                0 <= i < results@.len() && #[trigger] results@[i];
            if cleaning@.next < cleaning@.stale.len() {
                &&& r matches ListStep::Clean(c)
                &&& c@.scope == cleaning@.scope
                &&& c@.stale == cleaning@.stale
                &&& c@.next == cleaning@.next + 1
                &&& c@.changed == changed
                &&& takes_away_stale(
                    old(maps)@,
                    final(maps)@,
                    cleaning@.scope.kind,
                    cleaning@.stale[cleaning@.next],
                    c@.steps,
                )
            } else {
                &&& final(maps)@ == old(maps)@
                &&& ends_sync(*ctx, cleaning@.scope, changed, r)
            }
        }),
{
    if cleaning@.next < cleaning@.stale.len() {
        stale_is_taken_away(
            old(maps)@,
            final(maps)@,
            cleaning@.scope.kind,
            cleaning@.stale[cleaning@.next],
        );
    }
}

/// No page is lost: what was read before stays, in its order, and the page
/// comes after it. As long as there is a token the next page is read by it,
/// with everything else as before; then the resources are processed, from the
/// first one on. A failure ends the sync with nothing done.
pub proof fn every_page_is_read(
    paging: Paging,
    maps: &mut Maps,
    ctx: &Ctx,
    outcome: Result<(Vec<Item>, Option<String>), KubeError>,
    r: ListStep,
)
    requires
        call_ensures(Paging::read, (paging, maps, ctx, outcome), r),
    ensures
        match outcome {
            Err(e) => r == ListStep::Finished(Err(WErr::Kube(e))) && final(maps)@ == old(maps)@,
            Ok((page, Some(token))) => {
                let n = paging.items@.len();
                &&& final(maps)@ == old(maps)@
                &&& r matches ListStep::Page(q)
                &&& q.token == Some(token)
                &&& q.scope == paging.scope
                &&& q.selector@ == paging.selector@
                &&& q.limit == paging.limit
                &&& q.items@.len() == n + page@.len()
                &&& forall|i: int| 0 <= i < n ==> (#[trigger] q.items@[i])@ == paging.items@[i]@
                &&& forall|i: int| 0 <= i < page@.len() ==> q.items@[n + i]@ == (#[trigger] page@[i])@
            },
            Ok((page, None)) => exists|items: Seq<ItemModel>|
                {
                    let n = paging.items@.len();
                    &&& #[trigger] goes_on_to_sync(
                        old(maps)@,
                        final(maps)@,
                        *ctx,
                        paging.scope,
                        items,
                        0,
                        false,
                        r,
                    )
                    &&& items.len() == n + page@.len()
                    &&& forall|i: int| 0 <= i < n ==> (#[trigger] items[i]) == paging.items@[i]@
                    &&& forall|i: int| 0 <= i < page@.len() ==> items[n + i] == (#[trigger] page@[i])@
                },
        },
{
    match outcome {
        Err(_) => {},
        Ok((page, token)) => {
            let items = item_views(paging.items@) + item_views(page@);
            let n = paging.items@.len();
            if token is Some {
                let q = r->Page_0;
                assert(item_views(q.items@) == items);
                assert(item_views(q.items@).len() == q.items@.len());
                assert forall|i: int| 0 <= i < n implies (#[trigger] q.items@[i])@ == paging.items@[i]@ by {
                    assert(item_views(q.items@)[i] == items[i]);
                }
                assert forall|i: int| 0 <= i < page@.len() implies q.items@[n + i]@ == (#[trigger] page@[i])@ by {
                    assert(item_views(q.items@)[n + i] == items[n + i]);
                }
            } else {
                syncing_goes_on(
                    old(maps)@,
                    final(maps)@,
                    *ctx,
                    paging.scope,
                    items,
                    0,
                    false,
                    r,
                );
            }
        },
    }
}

/// Every wanted name is read, one after the other; a resource that is found
/// comes after those found before, and one that is not is passed over. Then the
/// resources are processed, from the first one on. A failure ends the sync with
/// nothing done.
pub proof fn every_name_is_read(
    reading: Reading,
    maps: &mut Maps,
    ctx: &Ctx,
    outcome: Result<Option<Item>, KubeError>,
    r: ListStep,
)
    requires
        call_ensures(Reading::read, (reading, maps, ctx, outcome), r),
    ensures
        match outcome {
            Err(e) => r == ListStep::Finished(Err(WErr::Kube(e))) && final(maps)@ == old(maps)@,
            Ok(found) => {
                let n = reading.items@.len();
                let more = if found is Some {
                    1int
                } else {
                    0int
                };
                if reading.next + 1 < reading.names@.len() {
                    &&& final(maps)@ == old(maps)@
                    &&& r matches ListStep::Read(q)
                    &&& q.scope == reading.scope
                    &&& q.names == reading.names
                    &&& q.next == reading.next + 1
                    &&& q.items@.len() == n + more
                    &&& forall|i: int| 0 <= i < n ==> (#[trigger] q.items@[i])@ == reading.items@[i]@
                    &&& found is Some ==> q.items@[n as int]@ == found->0@
                } else {
                    exists|items: Seq<ItemModel>|
                        {
                            &&& #[trigger] goes_on_to_sync(
                                old(maps)@,
                                final(maps)@,
                                *ctx,
                                reading.scope,
                                items,
                                0,
                                false,
                                r,
                            )
                            &&& items.len() == n + more
                            &&& forall|i: int|
                                0 <= i < n ==> (#[trigger] items[i]) == reading.items@[i]@
                            &&& found is Some ==> items[n as int] == found->0@
                        }
                }
            },
        },
{
    if let Ok(found) = outcome {
        let items = with_found(item_views(reading.items@), found);
        let n = reading.items@.len();
        if reading.next + 1 < reading.names@.len() {
            let q = r->Read_0;
            assert(item_views(q.items@) == items);
            assert(item_views(q.items@).len() == q.items@.len());
            assert forall|i: int| 0 <= i < n implies (#[trigger] q.items@[i])@ == reading.items@[i]@ by {
                assert(item_views(q.items@)[i] == items[i]);
            }
            if found is Some {
                assert(item_views(q.items@)[n as int] == items[n as int]);
            }
        } else {
            syncing_goes_on(old(maps)@, final(maps)@, *ctx, reading.scope, items, 0, false, r);
        }
    }
}

/// A sync begins with the names that are wanted, if there are any, and reads
/// them from the first one on; and otherwise with the first page of all that
/// the label selects, five at a time.
pub proof fn list_begins(
    ctx: &Ctx,
    kind: Kind,
    namespace: &str,
    request_url: Option<String>,
    ignore_already_processed: bool,
    r: (LogEntry, ListStep),
    wanted: &str,
    names: Vec<String>,
)
    requires
        call_ensures(
            list_resources,
            (ctx, kind, namespace, request_url, ignore_already_processed),
            r,
        ),
        wanted@ == ctx.resource_name@,
        call_ensures(resource_names, (wanted, namespace, kind), names),
    ensures
        ({
            let scope = match r.1 {
                ListStep::Read(reading) => reading.scope,
                ListStep::Page(paging) => paging.scope,
                _ => arbitrary(),
            };
            &&& scope.kind == kind
            &&& scope.namespace@ == namespace@
            &&& scope.ignore_already_processed == ignore_already_processed
            &&& scope.request_url is Some == request_url is Some
            &&& request_url is Some ==> scope.request_url->0@ == request_url->0@
        }),
        names@.len() > 0 ==> {
            &&& r.1 matches ListStep::Read(reading)
            &&& reading.next == 0
            &&& reading.items@.len() == 0
            &&& reading.names@.len() == names@.len()
            &&& forall|i: int| 0 <= i < names@.len() ==> (#[trigger] reading.names@[i])@ == names@[i]@
        },
        names@.len() == 0 ==> {
            &&& r.1 matches ListStep::Page(paging)
            &&& paging.token is None
            &&& paging.items@.len() == 0
            &&& paging.limit == 5
            &&& ctx.label_value is None ==> paging.selector@ == ctx.label@
            &&& ctx.label_value is Some ==> paging.selector@ == ctx.label@.push('=')
                + ctx.label_value->0@
        },
{
    reveal_strlit("=");
    assert(views(names@).len() == names@.len());
    if names@.len() > 0 {
        let reading = r.1->Read_0;
        assert(views(reading.names@).len() == reading.names@.len());
        assert forall|i: int| 0 <= i < names@.len() implies (#[trigger] reading.names@[i])@ == names@[i]@ by {
            assert(views(reading.names@)[i] == views(names@)[i]);
        }
    } else {
        let paging = r.1->Page_0;
        if ctx.label_value is Some {
            assert(paging.selector@ =~= ctx.label@.push('=') + ctx.label_value->0@);
        }
    }
}

/// After a list has changed files the script is run, and then the URL requested
/// if there is one; a script that could not be started ends the sync as a
/// failure, and a request ends it well, however it went.
pub proof fn list_notice_is_followed(notice: Notice, outcome: Result<(), String>, r: ListStep)
    requires
        call_ensures(ListStep::notified, (notice, outcome), r),
    ensures
        match notice {
            Notice::Script { request_url, .. } => {
                &&& outcome is Err ==> r == ListStep::Finished(Err(WErr::Other(outcome->Err_0)))
                &&& outcome is Ok && request_url is None ==> r == ListStep::Finished(Ok(()))
                &&& outcome is Ok && request_url is Some ==> {
                    &&& r matches ListStep::Notify(Notice::Request { url })
                    &&& url@ == request_url->0@
                }
            },
            Notice::Request { .. } => r == ListStep::Finished(Ok(())),
        },
{
}

} // verus!
