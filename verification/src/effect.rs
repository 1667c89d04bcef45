//! What the steps of a sync do to the files, if nothing fails: which file each
//! step works on, what it leaves there, and what a folder holds afterwards.

use vstd::prelude::*;

use crate::cache::{
    cached, is_url_key, previous, previous_folder, remembered, removal, MapsModel,
};
use crate::files::{
    after_reading, after_writing, asked_for, file_mode, is_removed, path_in, removal_entry,
    unique_name, unique_names_keep_files_apart, WriteError, WriteStep, WriteTask,
    CONTENT_TYPE_BASE64_BINARY, CONTENT_TYPE_TEXT,
};
use crate::http::content_of;
use crate::kubeapi::{kind_name, ItemModel, Kind};
use crate::laws::{binary_has, filter_contains, remembering_keeps_keys, text_has};
use crate::logger::{held, Level};
use crate::ordered::{has_key, key_at, lookup, lookup_at, ordered};
use crate::outside::sha256;
use crate::plan::{
    file_op, file_ops, leftovers, log_step, only_if, planned, processed, section, working_folder,
    ContentModel, Data, FileOpModel, StepModel,
};
use crate::resources::{
    any_change, base_name, bytes_of, carries_out, file_name, filled, follow_up, updates, url_of,
    FileAction, Update,
};

verus! {

// ---------------------------------------------------------------------------
// Steps and files
// ---------------------------------------------------------------------------

/// What the files hold, by their paths.
pub type Files = Map<Seq<char>, Seq<u8>>;

/// The path of the file that an operation works on.
pub open spec fn op_path(op: FileOpModel, unique_filenames: bool) -> Seq<char> {
    path_in(op.folder, file_name(op, unique_filenames))
}

/// What an operation writes, given what is fetched from URLs; nothing if the
/// URL is no text, so that the operation fails.
pub open spec fn op_content(op: FileOpModel, fetched: spec_fn(Seq<char>) -> Seq<u8>) -> Option<Seq<u8>> {
    if is_url_key(op.key) {
        match url_of(op.content) {
            Some(url) => Some(fetched(url)),
            None => None,
        }
    } else {
        Some(bytes_of(op.content))
    }
}

/// The files after `data` is written to a path, unless it has the digest of
/// what is there.
pub open spec fn written(files: Files, path: Seq<char>, data: Seq<u8>) -> Files {
    if files.contains_key(path) && sha256(data) == sha256(files[path]) {
        files
    } else {
        files.insert(path, data)
    }
}

/// The files after an operation.
pub open spec fn op_done(
    files: Files,
    op: FileOpModel,
    unique_filenames: bool,
    fetched: spec_fn(Seq<char>) -> Seq<u8>,
) -> Files {
    let path = op_path(op, unique_filenames);
    match op_content(op, fetched) {
        None => files,
        Some(data) => if op.remove {
            files.remove(path)
        } else {
            written(files, path, data)
        },
    }
}

/// The files after a step.
pub open spec fn step_done(
    files: Files,
    step: StepModel,
    unique_filenames: bool,
    fetched: spec_fn(Seq<char>) -> Seq<u8>,
) -> Files {
    match step {
        StepModel::Log(_) => files,
        StepModel::File(op) => op_done(files, op, unique_filenames, fetched),
    }
}

/// The files after all steps.
pub open spec fn steps_done(
    files: Files,
    steps: Seq<StepModel>,
    unique_filenames: bool,
    fetched: spec_fn(Seq<char>) -> Seq<u8>,
) -> Files
    decreases steps.len(),
{
    if steps.len() == 0 {
        files
    } else {
        step_done(
            steps_done(files, steps.drop_last(), unique_filenames, fetched),
            steps.last(),
            unique_filenames,
            fetched,
        )
    }
}

/// An operation changes its file: one that is there is removed, or something
/// is written that has not the digest of what is there.
pub open spec fn op_changes(
    files: Files,
    op: FileOpModel,
    unique_filenames: bool,
    fetched: spec_fn(Seq<char>) -> Seq<u8>,
) -> bool {
    let path = op_path(op, unique_filenames);
    match op_content(op, fetched) {
        None => false,
        Some(data) => if op.remove {
            files.contains_key(path)
        } else {
            !(files.contains_key(path) && sha256(data) == sha256(files[path]))
        },
    }
}

/// A step changes a file.
pub open spec fn step_changes(
    files: Files,
    step: StepModel,
    unique_filenames: bool,
    fetched: spec_fn(Seq<char>) -> Seq<u8>,
) -> bool {
    step matches StepModel::File(op) && op_changes(files, op, unique_filenames, fetched)
}

/// One of the steps, done one after the other, changes a file.
pub open spec fn steps_change(
    files: Files,
    steps: Seq<StepModel>,
    unique_filenames: bool,
    fetched: spec_fn(Seq<char>) -> Seq<u8>,
) -> bool
    decreases steps.len(),
{
    if steps.len() == 0 {
        false
    } else {
        steps_change(files, steps.drop_last(), unique_filenames, fetched) || step_changes(
            steps_done(files, steps.drop_last(), unique_filenames, fetched),
            steps.last(),
            unique_filenames,
            fetched,
        )
    }
}

/// Steps that change no file leave all files as they are.
pub proof fn no_change_keeps_files(
    files: Files,
    steps: Seq<StepModel>,
    unique_filenames: bool,
    fetched: spec_fn(Seq<char>) -> Seq<u8>,
)
    ensures
        !steps_change(files, steps, unique_filenames, fetched) ==> steps_done(
            files,
            steps,
            unique_filenames,
            fetched,
        ) == files,
    decreases steps.len(),
{
    if steps.len() > 0 && !steps_change(files, steps, unique_filenames, fetched) {
        no_change_keeps_files(files, steps.drop_last(), unique_filenames, fetched);
        if let StepModel::File(op) = steps.last() {
            if op.remove && op_content(op, fetched) is Some {
                assert(files.remove(op_path(op, unique_filenames)) =~= files);
            }
        }
    }
}

/// A step works on the file at a path.
pub open spec fn works_on(step: StepModel, path: Seq<char>, unique_filenames: bool) -> bool {
    step matches StepModel::File(op) && op_path(op, unique_filenames) == path
}

/// Every step that works on the file of an operation is that operation.
pub open spec fn only_op(steps: Seq<StepModel>, op: FileOpModel, unique_filenames: bool) -> bool {
    forall|i: int|
        0 <= i < steps.len() && works_on(
            #[trigger] steps[i],
            op_path(op, unique_filenames),
            unique_filenames,
        ) ==> steps[i] == StepModel::File(op)
}

/// What an operation leaves of its file: nothing if it removes it, and else
/// something with the digest of what it writes.
pub open spec fn leaves(
    op: FileOpModel,
    fetched: spec_fn(Seq<char>) -> Seq<u8>,
    left: Option<Seq<u8>>,
) -> bool {
    if op.remove {
        left is None
    } else {
        left is Some && sha256(left->0) == sha256(op_content(op, fetched)->0)
    }
}

/// A file that no step works on is left as it is.
pub proof fn other_files_are_kept(
    files: Files,
    steps: Seq<StepModel>,
    unique_filenames: bool,
    fetched: spec_fn(Seq<char>) -> Seq<u8>,
    path: Seq<char>,
)
    requires
        forall|i: int| 0 <= i < steps.len() ==> !works_on(#[trigger] steps[i], path, unique_filenames),
    ensures
        held(steps_done(files, steps, unique_filenames, fetched), path) == held(files, path),
    decreases steps.len(),
{
    if steps.len() > 0 {
        let init = steps.drop_last();
        assert forall|i: int| 0 <= i < init.len() implies !works_on(
            #[trigger] init[i],
            path,
            unique_filenames,
        ) by {
            assert(init[i] == steps[i]);
        }
        other_files_are_kept(files, init, unique_filenames, fetched, path);
        assert(!works_on(steps[steps.len() - 1], path, unique_filenames));
    }
}

/// The last step that works on a file decides on it: after a removal it is
/// gone, and after a write it has the digest of what was written.
pub proof fn last_step_decides(
    files: Files,
    steps: Seq<StepModel>,
    unique_filenames: bool,
    fetched: spec_fn(Seq<char>) -> Seq<u8>,
    i: int,
    op: FileOpModel,
)
    requires
        0 <= i < steps.len(),
        steps[i] == StepModel::File(op),
        op_content(op, fetched) is Some,
        forall|j: int|
            i < j < steps.len() ==> !works_on(
                #[trigger] steps[j],
                op_path(op, unique_filenames),
                unique_filenames,
            ),
    ensures
        leaves(
            op,
            fetched,
            held(
                steps_done(files, steps, unique_filenames, fetched),
                op_path(op, unique_filenames),
            ),
        ),
    decreases steps.len(),
{
    let path = op_path(op, unique_filenames);
    let init = steps.drop_last();
    if i < steps.len() - 1 {
        assert(init[i] == steps[i]);
        assert forall|j: int| i < j < init.len() implies !works_on(
            #[trigger] init[j],
            path,
            unique_filenames,
        ) by {
            assert(init[j] == steps[j]);
        }
        last_step_decides(files, init, unique_filenames, fetched, i, op);
        assert(!works_on(steps[steps.len() - 1], path, unique_filenames));
    }
}

/// An operation that no other step interferes with leaves what it should.
pub proof fn only_op_decides(
    files: Files,
    steps: Seq<StepModel>,
    unique_filenames: bool,
    fetched: spec_fn(Seq<char>) -> Seq<u8>,
    op: FileOpModel,
)
    requires
        steps.contains(StepModel::File(op)),
        op_content(op, fetched) is Some,
        only_op(steps, op, unique_filenames),
    ensures
        leaves(
            op,
            fetched,
            held(
                steps_done(files, steps, unique_filenames, fetched),
                op_path(op, unique_filenames),
            ),
        ),
    decreases steps.len(),
{
    let path = op_path(op, unique_filenames);
    let last = steps.len() - 1;
    let init = steps.drop_last();
    if steps[last] == StepModel::File(op) {
        last_step_decides(files, steps, unique_filenames, fetched, last, op);
    } else {
        let i = choose|i: int| 0 <= i < steps.len() && steps[i] == StepModel::File(op);
        assert(init[i] == steps[i]);
        assert forall|j: int| 0 <= j < init.len() && works_on(
            #[trigger] init[j],
            path,
            unique_filenames,
        ) implies init[j] == StepModel::File(op) by {
            assert(init[j] == steps[j]);
        }
        only_op_decides(files, init, unique_filenames, fetched, op);
        assert(!works_on(steps[last], path, unique_filenames));
    }
}

// ---------------------------------------------------------------------------
// The steps for a resource
// ---------------------------------------------------------------------------

proof fn concat_contains<A>(a: Seq<A>, b: Seq<A>, x: A)
    ensures
        (a + b).contains(x) <==> a.contains(x) || b.contains(x),
{
    if a.contains(x) {
        let i = choose|i: int| 0 <= i < a.len() && a[i] == x;
        assert((a + b)[i] == x);
    }
    if b.contains(x) {
        let i = choose|i: int| 0 <= i < b.len() && b[i] == x;
        assert((a + b)[a.len() + i] == x);
    }
    if (a + b).contains(x) {
        let i = choose|i: int| 0 <= i < (a + b).len() && (a + b)[i] == x;
        if i < a.len() {
            assert(a[i] == x);
        } else {
            assert(b[i - a.len()] == x);
        }
    }
}

/// A section has a file step for each entry, and one for each leftover.
proof fn section_contains<V: Data>(
    kind: Kind,
    item: ItemModel,
    old_item: ItemModel,
    now: Option<Seq<(Seq<char>, V::Model)>>,
    before: Option<Seq<(Seq<char>, V::Model)>>,
    found: Seq<StepModel>,
    dest: Seq<char>,
    old_dest: Seq<char>,
    content_type: Seq<char>,
    removed: bool,
    p: int,
)
    ensures
        ({
            let steps = section::<V>(
                kind,
                item,
                old_item,
                now,
                before,
                found,
                dest,
                old_dest,
                content_type,
                removed,
            );
            &&& now is Some && 0 <= p < now->0.len() ==> steps.contains(
                file_op::<V>(now->0[p], dest, item, kind, content_type, removed),
            )
            &&& before is Some && !removed && 0 <= p < leftovers(before->0, now, old_dest != dest).len()
                ==> steps.contains(
                file_op::<V>(
                    leftovers(before->0, now, old_dest != dest)[p],
                    old_dest,
                    old_item,
                    kind,
                    content_type,
                    true,
                ),
            )
        }),
{
    let first = match now {
        Some(data) => found + file_ops::<V>(data, dest, item, kind, content_type, removed),
        None => Seq::empty(),
    };
    let second = match before {
        Some(data) if !removed => file_ops::<V>(
            leftovers(data, now, old_dest != dest),
            old_dest,
            old_item,
            kind,
            content_type,
            true,
        ),
        _ => Seq::empty(),
    };
    if now is Some && 0 <= p < now->0.len() {
        let op = file_op::<V>(now->0[p], dest, item, kind, content_type, removed);
        let ops = file_ops::<V>(now->0, dest, item, kind, content_type, removed);
        assert(ops[p] == op);
        concat_contains(found, ops, op);
        concat_contains(first, second, op);
    }
    if before is Some && !removed && 0 <= p < leftovers(before->0, now, old_dest != dest).len() {
        let op = file_op::<V>(
            leftovers(before->0, now, old_dest != dest)[p],
            old_dest,
            old_item,
            kind,
            content_type,
            true,
        );
        assert(second[p] == op);
        concat_contains(first, second, op);
    }
}

/// The steps for a resource hold the steps of its text section, if it is a
/// ConfigMap, and those of its binary section.
proof fn planned_contains(
    kind: Kind,
    item: ItemModel,
    old_item: ItemModel,
    dest: Seq<char>,
    old_dest: Seq<char>,
    removed: bool,
    x: StepModel,
)
    ensures
        ({
            let steps = planned(kind, item, old_item, dest, old_dest, removed);
            &&& kind == Kind::ConfigMap && text_section(
                kind,
                item,
                old_item,
                dest,
                old_dest,
                removed,
            ).contains(x) ==> steps.contains(x)
            &&& binary_section(kind, item, old_item, dest, old_dest, removed).contains(x)
                ==> steps.contains(x)
        }),
{
    let text = text_section(kind, item, old_item, dest, old_dest, removed);
    let binary = binary_section(kind, item, old_item, dest, old_dest, removed);
    match kind {
        Kind::ConfigMap => {
            let warn = only_if(
                item.text is None && item.binary is None,
                log_step(Level::Warning, "No data/binaryData field in "@ + kind_name(kind)),
            );
            assert(planned(kind, item, old_item, dest, old_dest, removed) == warn + text + binary);
            concat_contains(warn, text, x);
            concat_contains(warn + text, binary, x);
        },
        Kind::Secret => {
            let warn = only_if(
                item.binary is None,
                log_step(Level::Warning, "No data field in "@ + kind_name(kind)),
            );
            assert(planned(kind, item, old_item, dest, old_dest, removed) == warn + binary);
            concat_contains(warn, binary, x);
        },
    }
}

spec fn text_section(
    kind: Kind,
    item: ItemModel,
    old_item: ItemModel,
    dest: Seq<char>,
    old_dest: Seq<char>,
    removed: bool,
) -> Seq<StepModel> {
    section::<String>(
        kind,
        item,
        old_item,
        item.text,
        old_item.text,
        seq![log_step(Level::Debug, "Found 'data' on "@ + kind_name(kind))],
        dest,
        old_dest,
        CONTENT_TYPE_TEXT@,
        removed,
    )
}

spec fn binary_section(
    kind: Kind,
    item: ItemModel,
    old_item: ItemModel,
    dest: Seq<char>,
    old_dest: Seq<char>,
    removed: bool,
) -> Seq<StepModel> {
    section::<Vec<u8>>(
        kind,
        item,
        old_item,
        item.binary,
        old_item.binary,
        match kind {
            Kind::ConfigMap => seq![log_step(Level::Debug, "Found 'binary_data' on "@ + kind_name(kind))],
            Kind::Secret => Seq::empty(),
        },
        dest,
        old_dest,
        CONTENT_TYPE_BASE64_BINARY@,
        removed,
    )
}

/// `x` is a step for one of the entries.
spec fn is_entry_step<V: Data>(
    x: StepModel,
    data: Seq<(Seq<char>, V::Model)>,
    folder: Seq<char>,
    item: ItemModel,
    kind: Kind,
    content_type: Seq<char>,
    remove: bool,
) -> bool {
    exists|p: int|
        0 <= p < data.len() && x == file_op::<V>(
            #[trigger] data[p],
            folder,
            item,
            kind,
            content_type,
            remove,
        )
}

/// A section has no other file steps than those for its entries and leftovers.
proof fn section_contains_only<V: Data>(
    kind: Kind,
    item: ItemModel,
    old_item: ItemModel,
    now: Option<Seq<(Seq<char>, V::Model)>>,
    before: Option<Seq<(Seq<char>, V::Model)>>,
    found: Seq<StepModel>,
    dest: Seq<char>,
    old_dest: Seq<char>,
    content_type: Seq<char>,
    removed: bool,
    x: StepModel,
)
    requires
        x is File,
        forall|i: int| 0 <= i < found.len() ==> (#[trigger] found[i]) is Log,
        section::<V>(
            kind,
            item,
            old_item,
            now,
            before,
            found,
            dest,
            old_dest,
            content_type,
            removed,
        ).contains(x),
    ensures
        (now is Some && is_entry_step::<V>(x, now->0, dest, item, kind, content_type, removed)) || (before is Some
            && !removed && is_entry_step::<V>(
            x,
            leftovers(before->0, now, old_dest != dest),
            old_dest,
            old_item,
            kind,
            content_type,
            true,
        )),
{
    let first = match now {
        Some(data) => found + file_ops::<V>(data, dest, item, kind, content_type, removed),
        None => Seq::empty(),
    };
    let second = match before {
        Some(data) if !removed => file_ops::<V>(
            leftovers(data, now, old_dest != dest),
            old_dest,
            old_item,
            kind,
            content_type,
            true,
        ),
        _ => Seq::empty(),
    };
    concat_contains(first, second, x);
    if first.contains(x) {
        let ops = file_ops::<V>(now->0, dest, item, kind, content_type, removed);
        concat_contains(found, ops, x);
        let p = choose|p: int| 0 <= p < ops.len() && ops[p] == x;
        assert(x == file_op::<V>(now->0[p], dest, item, kind, content_type, removed));
    } else {
        let rest = leftovers(before->0, now, old_dest != dest);
        let p = choose|p: int| 0 <= p < second.len() && second[p] == x;
        assert(x == file_op::<V>(rest[p], old_dest, old_item, kind, content_type, true));
    }
}

/// A file step of a resource is one of a section.
proof fn planned_contains_only(
    kind: Kind,
    item: ItemModel,
    old_item: ItemModel,
    dest: Seq<char>,
    old_dest: Seq<char>,
    removed: bool,
    x: StepModel,
)
    requires
        x is File,
        planned(kind, item, old_item, dest, old_dest, removed).contains(x),
    ensures
        (kind == Kind::ConfigMap && text_section(kind, item, old_item, dest, old_dest, removed).contains(x))
            || binary_section(kind, item, old_item, dest, old_dest, removed).contains(x),
{
    let text = text_section(kind, item, old_item, dest, old_dest, removed);
    let binary = binary_section(kind, item, old_item, dest, old_dest, removed);
    match kind {
        Kind::ConfigMap => {
            let warn = only_if(
                item.text is None && item.binary is None,
                log_step(Level::Warning, "No data/binaryData field in "@ + kind_name(kind)),
            );
            assert(planned(kind, item, old_item, dest, old_dest, removed) == warn + text + binary);
            concat_contains(warn, text, x);
            concat_contains(warn + text, binary, x);
        },
        Kind::Secret => {
            let warn = only_if(
                item.binary is None,
                log_step(Level::Warning, "No data field in "@ + kind_name(kind)),
            );
            assert(planned(kind, item, old_item, dest, old_dest, removed) == warn + binary);
            concat_contains(warn, binary, x);
        },
    }
}

// ---------------------------------------------------------------------------
// What a folder holds after a resource is processed
// ---------------------------------------------------------------------------

/// The operation on the file of a text key.
pub open spec fn text_op(
    item: ItemModel,
    kind: Kind,
    entry: (Seq<char>, Seq<char>),
    folder: Seq<char>,
    remove: bool,
) -> FileOpModel {
    FileOpModel {
        key: entry.0,
        content: ContentModel::Text(entry.1),
        folder,
        namespace: item.namespace,
        name: item.name,
        kind,
        content_type: CONTENT_TYPE_TEXT@,
        remove,
    }
}

/// The operation on the file of a binary key.
pub open spec fn binary_op(
    item: ItemModel,
    kind: Kind,
    entry: (Seq<char>, Seq<u8>),
    folder: Seq<char>,
    remove: bool,
) -> FileOpModel {
    FileOpModel {
        key: entry.0,
        content: ContentModel::Bin(entry.1),
        folder,
        namespace: item.namespace,
        name: item.name,
        kind,
        content_type: CONTENT_TYPE_BASE64_BINARY@,
        remove,
    }
}

/// There is an operation for each key of a resource.
pub proof fn every_key_is_planned(
    kind: Kind,
    item: ItemModel,
    old_item: ItemModel,
    folder: Seq<char>,
    old_dest: Seq<char>,
    removed: bool,
    p: int,
)
    ensures
        ({
            let steps = planned(kind, item, old_item, folder, old_dest, removed);
            &&& kind == Kind::ConfigMap && item.text is Some && 0 <= p < item.text->0.len()
                ==> steps.contains(
                StepModel::File(text_op(item, kind, item.text->0[p], folder, removed)),
            )
            &&& item.binary is Some && 0 <= p < item.binary->0.len() ==> steps.contains(
                StepModel::File(binary_op(item, kind, item.binary->0[p], folder, removed)),
            )
        }),
{
    if kind == Kind::ConfigMap && item.text is Some && 0 <= p < item.text->0.len() {
        let x = StepModel::File(text_op(item, kind, item.text->0[p], folder, removed));
        section_contains::<String>(
            kind,
            item,
            old_item,
            item.text,
            old_item.text,
            seq![log_step(Level::Debug, "Found 'data' on "@ + kind_name(kind))],
            folder,
            old_dest,
            CONTENT_TYPE_TEXT@,
            removed,
            p,
        );
        assert(x == file_op::<String>(item.text->0[p], folder, item, kind, CONTENT_TYPE_TEXT@, removed));
        planned_contains(kind, item, old_item, folder, old_dest, removed, x);
    }
    if item.binary is Some && 0 <= p < item.binary->0.len() {
        let x = StepModel::File(binary_op(item, kind, item.binary->0[p], folder, removed));
        section_contains::<Vec<u8>>(
            kind,
            item,
            old_item,
            item.binary,
            old_item.binary,
            match kind {
                Kind::ConfigMap => seq![
                    log_step(Level::Debug, "Found 'binary_data' on "@ + kind_name(kind)),
                ],
                Kind::Secret => Seq::empty(),
            },
            folder,
            old_dest,
            CONTENT_TYPE_BASE64_BINARY@,
            removed,
            p,
        );
        assert(x == file_op::<Vec<u8>>(
            item.binary->0[p],
            folder,
            item,
            kind,
            CONTENT_TYPE_BASE64_BINARY@,
            removed,
        ));
        planned_contains(kind, item, old_item, folder, old_dest, removed, x);
    }
}

/// After a resource is processed, the file of each of its keys holds the value
/// of the key, or what was fetched from it (something with its digest, to be
/// exact), and is gone if the resource is; unless another step for the
/// resource works on the same file, or a URL is no text.
pub proof fn keys_become_files(
    maps: MapsModel,
    kind: Kind,
    item: ItemModel,
    dest: Seq<char>,
    removed: bool,
    files: Files,
    unique_filenames: bool,
    fetched: spec_fn(Seq<char>) -> Seq<u8>,
    p: int,
)
    ensures
        ({
            let folder = working_folder(previous_folder(maps.of(kind), item.key(), dest), dest, removed);
            let steps = processed(maps, kind, item, dest, removed);
            let after = steps_done(files, steps, unique_filenames, fetched);
            &&& kind == Kind::ConfigMap && item.text is Some && 0 <= p < item.text->0.len() ==> {
                let op = text_op(item, kind, item.text->0[p], folder, removed);
                only_op(steps, op, unique_filenames) ==> leaves(
                    op,
                    fetched,
                    held(after, op_path(op, unique_filenames)),
                )
            }
            &&& item.binary is Some && 0 <= p < item.binary->0.len() ==> {
                let op = binary_op(item, kind, item.binary->0[p], folder, removed);
                only_op(steps, op, unique_filenames) && op_content(op, fetched) is Some ==> leaves(
                    op,
                    fetched,
                    held(after, op_path(op, unique_filenames)),
                )
            }
        }),
{
    let old_dest = previous_folder(maps.of(kind), item.key(), dest);
    let folder = working_folder(old_dest, dest, removed);
    let old_item = removal(previous(maps.of(kind), item));
    let steps = processed(maps, kind, item, dest, removed);
    every_key_is_planned(kind, item, old_item, folder, old_dest, removed, p);
    if kind == Kind::ConfigMap && item.text is Some && 0 <= p < item.text->0.len() {
        let op = text_op(item, kind, item.text->0[p], folder, removed);
        if only_op(steps, op, unique_filenames) {
            only_op_decides(files, steps, unique_filenames, fetched, op);
        }
    }
    if item.binary is Some && 0 <= p < item.binary->0.len() {
        let op = binary_op(item, kind, item.binary->0[p], folder, removed);
        if only_op(steps, op, unique_filenames) && op_content(op, fetched) is Some {
            only_op_decides(files, steps, unique_filenames, fetched, op);
        }
    }
}

/// The entries that are removed hold each entry that vanished, and all of them
/// if the folder has changed.
proof fn leftovers_contain<M>(
    before: Seq<(Seq<char>, M)>,
    now: Option<Seq<(Seq<char>, M)>>,
    moved: bool,
    entry: (Seq<char>, M),
)
    ensures
        leftovers(before, now, moved).contains(entry) <==> before.contains(entry) && (moved || !(now is Some
            && has_key(now->0, entry.0))),
{
    if !moved {
        filter_contains(
            before,
            |e: (Seq<char>, M)| !(now is Some && has_key(now->0, e.0)),
            entry,
        );
    }
}

/// There is an operation for each key that a resource had, and has no more or
/// in another folder.
pub proof fn every_vanished_key_is_planned(
    kind: Kind,
    item: ItemModel,
    old_item: ItemModel,
    dest: Seq<char>,
    old_dest: Seq<char>,
    p: int,
)
    ensures
        ({
            let steps = planned(kind, item, old_item, dest, old_dest, false);
            &&& kind == Kind::ConfigMap && old_item.text is Some && 0 <= p < old_item.text->0.len() && (old_dest
                != dest || !text_has(item, old_item.text->0[p].0)) ==> steps.contains(
                StepModel::File(text_op(old_item, kind, old_item.text->0[p], old_dest, true)),
            )
            &&& old_item.binary is Some && 0 <= p < old_item.binary->0.len() && (old_dest != dest
                || !binary_has(item, old_item.binary->0[p].0)) ==> steps.contains(
                StepModel::File(binary_op(old_item, kind, old_item.binary->0[p], old_dest, true)),
            )
        }),
{
    let moved = old_dest != dest;
    if kind == Kind::ConfigMap && old_item.text is Some && 0 <= p < old_item.text->0.len() && (moved
        || !text_has(item, old_item.text->0[p].0)) {
        let entry = old_item.text->0[p];
        let x = StepModel::File(text_op(old_item, kind, entry, old_dest, true));
        assert(old_item.text->0.contains(entry));
        leftovers_contain(old_item.text->0, item.text, moved, entry);
        let rest = leftovers(old_item.text->0, item.text, moved);
        let q = choose|q: int| 0 <= q < rest.len() && rest[q] == entry;
        section_contains::<String>(
            kind,
            item,
            old_item,
            item.text,
            old_item.text,
            seq![log_step(Level::Debug, "Found 'data' on "@ + kind_name(kind))],
            dest,
            old_dest,
            CONTENT_TYPE_TEXT@,
            false,
            q,
        );
        assert(x == file_op::<String>(entry, old_dest, old_item, kind, CONTENT_TYPE_TEXT@, true));
        planned_contains(kind, item, old_item, dest, old_dest, false, x);
    }
    if old_item.binary is Some && 0 <= p < old_item.binary->0.len() && (moved || !binary_has(
        item,
        old_item.binary->0[p].0,
    )) {
        let entry = old_item.binary->0[p];
        let x = StepModel::File(binary_op(old_item, kind, entry, old_dest, true));
        assert(old_item.binary->0.contains(entry));
        leftovers_contain(old_item.binary->0, item.binary, moved, entry);
        let rest = leftovers(old_item.binary->0, item.binary, moved);
        let q = choose|q: int| 0 <= q < rest.len() && rest[q] == entry;
        section_contains::<Vec<u8>>(
            kind,
            item,
            old_item,
            item.binary,
            old_item.binary,
            match kind {
                Kind::ConfigMap => seq![
                    log_step(Level::Debug, "Found 'binary_data' on "@ + kind_name(kind)),
                ],
                Kind::Secret => Seq::empty(),
            },
            dest,
            old_dest,
            CONTENT_TYPE_BASE64_BINARY@,
            false,
            q,
        );
        assert(x == file_op::<Vec<u8>>(
            entry,
            old_dest,
            old_item,
            kind,
            CONTENT_TYPE_BASE64_BINARY@,
            true,
        ));
        planned_contains(kind, item, old_item, dest, old_dest, false, x);
    }
}

/// After a resource is processed, the file of each key that it had, and has no
/// more or in another folder, is gone from the folder it was in; unless
/// another step for the resource works on the same file, or a URL is no text.
pub proof fn vanished_keys_lose_their_files(
    maps: MapsModel,
    kind: Kind,
    item: ItemModel,
    dest: Seq<char>,
    files: Files,
    unique_filenames: bool,
    fetched: spec_fn(Seq<char>) -> Seq<u8>,
    p: int,
)
    ensures
        ({
            let old_item = removal(previous(maps.of(kind), item));
            let old_dest = previous_folder(maps.of(kind), item.key(), dest);
            let steps = processed(maps, kind, item, dest, false);
            let after = steps_done(files, steps, unique_filenames, fetched);
            &&& kind == Kind::ConfigMap && old_item.text is Some && 0 <= p < old_item.text->0.len() && (old_dest
                != dest || !text_has(item, old_item.text->0[p].0)) ==> {
                let op = text_op(old_item, kind, old_item.text->0[p], old_dest, true);
                only_op(steps, op, unique_filenames) ==> held(after, op_path(op, unique_filenames)) is None
            }
            &&& old_item.binary is Some && 0 <= p < old_item.binary->0.len() && (old_dest != dest
                || !binary_has(item, old_item.binary->0[p].0)) ==> {
                let op = binary_op(old_item, kind, old_item.binary->0[p], old_dest, true);
                only_op(steps, op, unique_filenames) && op_content(op, fetched) is Some ==> held(
                    after,
                    op_path(op, unique_filenames),
                ) is None
            }
        }),
{
    let old_item = removal(previous(maps.of(kind), item));
    let old_dest = previous_folder(maps.of(kind), item.key(), dest);
    let steps = processed(maps, kind, item, dest, false);
    let moved = old_dest != dest;
    every_vanished_key_is_planned(kind, item, old_item, dest, old_dest, p);
    if kind == Kind::ConfigMap && old_item.text is Some && 0 <= p < old_item.text->0.len() && (moved
        || !text_has(item, old_item.text->0[p].0)) {
        let op = text_op(old_item, kind, old_item.text->0[p], old_dest, true);
        if only_op(steps, op, unique_filenames) {
            only_op_decides(files, steps, unique_filenames, fetched, op);
        }
    }
    if old_item.binary is Some && 0 <= p < old_item.binary->0.len() && (moved || !binary_has(
        item,
        old_item.binary->0[p].0,
    )) {
        let op = binary_op(old_item, kind, old_item.binary->0[p], old_dest, true);
        if only_op(steps, op, unique_filenames) && op_content(op, fetched) is Some {
            only_op_decides(files, steps, unique_filenames, fetched, op);
        }
    }
}

// ---------------------------------------------------------------------------
// Tidy resources
// ---------------------------------------------------------------------------

/// A folder name with a slash at its end, unless it is empty.
pub open spec fn slashed(folder: Seq<char>) -> Seq<char> {
    if folder.len() == 0 || folder.last() == '/' {
        folder
    } else {
        folder + "/"@
    }
}

/// The resource has or had `key`.
pub open spec fn ever_has(item: ItemModel, old_item: ItemModel, key: Seq<char>) -> bool {
    ||| text_has(item, key)
    ||| text_has(old_item, key)
    ||| binary_has(item, key)
    ||| binary_has(old_item, key)
}

/// The keys of each section ascend.
pub open spec fn sections_ordered(item: ItemModel) -> bool {
    (item.text is Some ==> ordered(item.text->0)) && (item.binary is Some ==> ordered(item.binary->0))
}

/// The files of a resource do not get into each other's way: names hold no
/// slash; no two keys have the same file; no key is or was in both sections;
/// and the folder has changed for good, or not at all.
pub open spec fn tidy(item: ItemModel, old_item: ItemModel, dest: Seq<char>, old_dest: Seq<char>) -> bool {
    &&& sections_ordered(item)
    &&& sections_ordered(old_item)
    &&& old_item.namespace == item.namespace
    &&& old_item.name == item.name
    &&& !item.namespace.contains('/')
    &&& !item.name.contains('/')
    &&& old_dest == dest || slashed(old_dest) != slashed(dest)
    &&& forall|key: Seq<char>| #[trigger]
        ever_has(item, old_item, key) ==> !base_name(key).contains('/')
    &&& forall|a: Seq<char>, b: Seq<char>| #[trigger]
        ever_has(item, old_item, a) && #[trigger] ever_has(item, old_item, b) && base_name(a) == base_name(b)
            ==> a == b
    &&& forall|key: Seq<char>|
        !((text_has(item, key) || text_has(old_item, key)) && (binary_has(item, key) || binary_has(
            old_item,
            key,
        )))
}

/// Folder and file name can be told from a path, up to a slash at the end of
/// the folder.
pub proof fn paths_tell_names(f1: Seq<char>, n1: Seq<char>, f2: Seq<char>, n2: Seq<char>)
    requires
        !n1.contains('/'),
        !n2.contains('/'),
        path_in(f1, n1) == path_in(f2, n2),
    ensures
        slashed(f1) == slashed(f2),
        n1 == n2,
{
    reveal_strlit("/");
    assert("/"@ =~= seq!['/']);
    let a1 = slashed(f1);
    let a2 = slashed(f2);
    assert(n1.len() > 0 ==> n1[0] != '/');
    assert(n2.len() > 0 ==> n2[0] != '/');
    let s = path_in(f1, n1);
    assert(s =~= a1 + n1);
    assert(s =~= a2 + n2);
    if a1.len() < a2.len() {
        assert(s[a2.len() - 1] == '/');
        assert(n1[a2.len() - 1 - a1.len()] == '/');
    } else if a2.len() < a1.len() {
        assert(s[a1.len() - 1] == '/');
        assert(n2[a1.len() - 1 - a2.len()] == '/');
    }
    assert(s.take(a1.len() as int) =~= a1);
    assert(s.take(a2.len() as int) =~= a2);
    assert(s.skip(a1.len() as int) =~= n1);
    assert(s.skip(a2.len() as int) =~= n2);
}

proof fn concat_avoids(a: Seq<char>, b: Seq<char>, c: char)
    requires
        !a.contains(c),
        !b.contains(c),
    ensures
        !(a + b).contains(c),
{
    concat_contains(a, b, c);
}

/// A unique file name holds no slash, if its parts do not.
proof fn unique_name_has_no_slash(file: Seq<char>, namespace: Seq<char>, kind: Kind, name: Seq<char>)
    requires
        !file.contains('/'),
        !namespace.contains('/'),
        !name.contains('/'),
    ensures
        !unique_name(file, namespace, kind_name(kind), name).contains('/'),
{
    reveal_strlit("namespace_");
    reveal_strlit(".");
    reveal_strlit("_");
    reveal_strlit("configmap");
    reveal_strlit("secret");
    let resource = kind_name(kind);
    assert(!resource.contains('/'));
    let a = "namespace_"@ + namespace;
    let b = a + "."@;
    let c = b + resource;
    let d = c + "_"@;
    let e = d + name;
    let f = e + "."@;
    concat_avoids("namespace_"@, namespace, '/');
    concat_avoids(a, "."@, '/');
    concat_avoids(b, resource, '/');
    concat_avoids(c, "_"@, '/');
    concat_avoids(d, name, '/');
    concat_avoids(e, "."@, '/');
    concat_avoids(f, file, '/');
}

/// Two operations for a tidy resource that work on the same file are for the
/// same key, and in the same folder.
proof fn same_file_same_key(
    item: ItemModel,
    old_item: ItemModel,
    dest: Seq<char>,
    old_dest: Seq<char>,
    kind: Kind,
    unique_filenames: bool,
    x: FileOpModel,
    y: FileOpModel,
)
    requires
        tidy(item, old_item, dest, old_dest),
        ever_has(item, old_item, x.key),
        ever_has(item, old_item, y.key),
        x.kind == kind && y.kind == kind,
        x.namespace == item.namespace && y.namespace == item.namespace,
        x.name == item.name && y.name == item.name,
        x.folder == dest || x.folder == old_dest,
        y.folder == dest || y.folder == old_dest,
        op_path(x, unique_filenames) == op_path(y, unique_filenames),
    ensures
        x.key == y.key,
        x.folder == y.folder,
{
    let nx = file_name(x, unique_filenames);
    let ny = file_name(y, unique_filenames);
    if unique_filenames {
        unique_name_has_no_slash(base_name(x.key), item.namespace, kind, item.name);
        unique_name_has_no_slash(base_name(y.key), item.namespace, kind, item.name);
    }
    paths_tell_names(x.folder, nx, y.folder, ny);
    if unique_filenames {
        unique_names_keep_files_apart(
            base_name(x.key),
            base_name(y.key),
            item.namespace,
            kind_name(kind),
            item.name,
        );
    }
}

/// The operation writes (or removes, if the resource is removed) the file of a
/// text key that the resource has.
pub open spec fn is_text_now(
    item: ItemModel,
    kind: Kind,
    dest: Seq<char>,
    removed: bool,
    op: FileOpModel,
) -> bool {
    kind == Kind::ConfigMap && item.text is Some && exists|p: int|
        0 <= p < item.text->0.len() && op == text_op(item, kind, #[trigger] item.text->0[p], dest, removed)
}

/// The operation removes the file of a text key that the resource had.
pub open spec fn is_text_old(
    item: ItemModel,
    old_item: ItemModel,
    kind: Kind,
    dest: Seq<char>,
    old_dest: Seq<char>,
    op: FileOpModel,
) -> bool {
    kind == Kind::ConfigMap && old_item.text is Some && (old_dest != dest || !text_has(item, op.key))
        && exists|p: int|
        0 <= p < old_item.text->0.len() && op == text_op(
            old_item,
            kind,
            #[trigger] old_item.text->0[p],
            old_dest,
            true,
        )
}

/// The operation writes (or removes, if the resource is removed) the file of a
/// binary key that the resource has.
pub open spec fn is_binary_now(
    item: ItemModel,
    kind: Kind,
    dest: Seq<char>,
    removed: bool,
    op: FileOpModel,
) -> bool {
    item.binary is Some && exists|p: int|
        0 <= p < item.binary->0.len() && op == binary_op(
            item,
            kind,
            #[trigger] item.binary->0[p],
            dest,
            removed,
        )
}

/// The operation removes the file of a binary key that the resource had.
pub open spec fn is_binary_old(
    item: ItemModel,
    old_item: ItemModel,
    kind: Kind,
    dest: Seq<char>,
    old_dest: Seq<char>,
    op: FileOpModel,
) -> bool {
    old_item.binary is Some && (old_dest != dest || !binary_has(item, op.key)) && exists|p: int|
        0 <= p < old_item.binary->0.len() && op == binary_op(
            old_item,
            kind,
            #[trigger] old_item.binary->0[p],
            old_dest,
            true,
        )
}

/// The operations for a resource.
pub open spec fn is_planned(
    kind: Kind,
    item: ItemModel,
    old_item: ItemModel,
    dest: Seq<char>,
    old_dest: Seq<char>,
    removed: bool,
    op: FileOpModel,
) -> bool {
    ||| is_text_now(item, kind, dest, removed, op)
    ||| is_binary_now(item, kind, dest, removed, op)
    ||| !removed && is_text_old(item, old_item, kind, dest, old_dest, op)
    ||| !removed && is_binary_old(item, old_item, kind, dest, old_dest, op)
}

/// There is no other operation for a resource.
pub proof fn planned_ops(
    kind: Kind,
    item: ItemModel,
    old_item: ItemModel,
    dest: Seq<char>,
    old_dest: Seq<char>,
    removed: bool,
    op: FileOpModel,
)
    requires
        planned(kind, item, old_item, dest, old_dest, removed).contains(StepModel::File(op)),
    ensures
        is_planned(kind, item, old_item, dest, old_dest, removed, op),
{
    let x = StepModel::File(op);
    let moved = old_dest != dest;
    planned_contains_only(kind, item, old_item, dest, old_dest, removed, x);
    if kind == Kind::ConfigMap && text_section(kind, item, old_item, dest, old_dest, removed).contains(x) {
        section_contains_only::<String>(
            kind,
            item,
            old_item,
            item.text,
            old_item.text,
            seq![log_step(Level::Debug, "Found 'data' on "@ + kind_name(kind))],
            dest,
            old_dest,
            CONTENT_TYPE_TEXT@,
            removed,
            x,
        );
        if item.text is Some && is_entry_step::<String>(
            x,
            item.text->0,
            dest,
            item,
            kind,
            CONTENT_TYPE_TEXT@,
            removed,
        ) {
            let p = choose|p: int|
                0 <= p < item.text->0.len() && x == file_op::<String>(
                    #[trigger] item.text->0[p],
                    dest,
                    item,
                    kind,
                    CONTENT_TYPE_TEXT@,
                    removed,
                );
            assert(op == text_op(item, kind, item.text->0[p], dest, removed));
        } else {
            let rest = leftovers(old_item.text->0, item.text, moved);
            let q = choose|q: int|
                0 <= q < rest.len() && x == file_op::<String>(
                    #[trigger] rest[q],
                    old_dest,
                    old_item,
                    kind,
                    CONTENT_TYPE_TEXT@,
                    true,
                );
            leftovers_contain(old_item.text->0, item.text, moved, rest[q]);
            assert(rest.contains(rest[q]));
            let p = choose|p: int| 0 <= p < old_item.text->0.len() && old_item.text->0[p] == rest[q];
            assert(op == text_op(old_item, kind, old_item.text->0[p], old_dest, true));
        }
    } else {
        section_contains_only::<Vec<u8>>(
            kind,
            item,
            old_item,
            item.binary,
            old_item.binary,
            match kind {
                Kind::ConfigMap => seq![
                    log_step(Level::Debug, "Found 'binary_data' on "@ + kind_name(kind)),
                ],
                Kind::Secret => Seq::empty(),
            },
            dest,
            old_dest,
            CONTENT_TYPE_BASE64_BINARY@,
            removed,
            x,
        );
        if item.binary is Some && is_entry_step::<Vec<u8>>(
            x,
            item.binary->0,
            dest,
            item,
            kind,
            CONTENT_TYPE_BASE64_BINARY@,
            removed,
        ) {
            let p = choose|p: int|
                0 <= p < item.binary->0.len() && x == file_op::<Vec<u8>>(
                    #[trigger] item.binary->0[p],
                    dest,
                    item,
                    kind,
                    CONTENT_TYPE_BASE64_BINARY@,
                    removed,
                );
            assert(op == binary_op(item, kind, item.binary->0[p], dest, removed));
        } else {
            let rest = leftovers(old_item.binary->0, item.binary, moved);
            let q = choose|q: int|
                0 <= q < rest.len() && x == file_op::<Vec<u8>>(
                    #[trigger] rest[q],
                    old_dest,
                    old_item,
                    kind,
                    CONTENT_TYPE_BASE64_BINARY@,
                    true,
                );
            leftovers_contain(old_item.binary->0, item.binary, moved, rest[q]);
            assert(rest.contains(rest[q]));
            let p = choose|p: int| 0 <= p < old_item.binary->0.len() && old_item.binary->0[p] == rest[q];
            assert(op == binary_op(old_item, kind, old_item.binary->0[p], old_dest, true));
        }
    }
}

/// The key of an operation for a resource is one that the resource has or had.
proof fn planned_key(
    kind: Kind,
    item: ItemModel,
    old_item: ItemModel,
    dest: Seq<char>,
    old_dest: Seq<char>,
    removed: bool,
    op: FileOpModel,
)
    requires
        is_planned(kind, item, old_item, dest, old_dest, removed, op),
        old_item.namespace == item.namespace,
        old_item.name == item.name,
    ensures
        is_text_now(item, kind, dest, removed, op) ==> text_has(item, op.key) && op.folder == dest,
        is_text_old(item, old_item, kind, dest, old_dest, op) ==> text_has(old_item, op.key) && op.folder
            == old_dest,
        is_binary_now(item, kind, dest, removed, op) ==> binary_has(item, op.key) && op.folder == dest,
        is_binary_old(item, old_item, kind, dest, old_dest, op) ==> binary_has(old_item, op.key)
            && op.folder == old_dest,
        ever_has(item, old_item, op.key),
        op.kind == kind,
        op.namespace == item.namespace,
        op.name == item.name,
        op.folder == dest || op.folder == old_dest,
{
    if is_text_now(item, kind, dest, removed, op) {
        let p = choose|p: int|
            0 <= p < item.text->0.len() && op == text_op(item, kind, #[trigger] item.text->0[p], dest, removed);
        assert(key_at(item.text->0, op.key, p));
    }
    if is_text_old(item, old_item, kind, dest, old_dest, op) {
        let p = choose|p: int|
            0 <= p < old_item.text->0.len() && op == text_op(
                old_item,
                kind,
                #[trigger] old_item.text->0[p],
                old_dest,
                true,
            );
        assert(key_at(old_item.text->0, op.key, p));
    }
    if is_binary_now(item, kind, dest, removed, op) {
        let p = choose|p: int|
            0 <= p < item.binary->0.len() && op == binary_op(
                item,
                kind,
                #[trigger] item.binary->0[p],
                dest,
                removed,
            );
        assert(key_at(item.binary->0, op.key, p));
    }
    if is_binary_old(item, old_item, kind, dest, old_dest, op) {
        let p = choose|p: int|
            0 <= p < old_item.binary->0.len() && op == binary_op(
                old_item,
                kind,
                #[trigger] old_item.binary->0[p],
                old_dest,
                true,
            );
        assert(key_at(old_item.binary->0, op.key, p));
    }
}

/// Two operations for a tidy resource that work on the same file are the same.
proof fn same_file_same_op(
    kind: Kind,
    item: ItemModel,
    old_item: ItemModel,
    dest: Seq<char>,
    old_dest: Seq<char>,
    removed: bool,
    unique_filenames: bool,
    x: FileOpModel,
    y: FileOpModel,
)
    requires
        tidy(item, old_item, dest, old_dest),
        is_planned(kind, item, old_item, dest, old_dest, removed, x),
        is_planned(kind, item, old_item, dest, old_dest, removed, y),
        op_path(x, unique_filenames) == op_path(y, unique_filenames),
    ensures
        x == y,
{
    planned_key(kind, item, old_item, dest, old_dest, removed, x);
    planned_key(kind, item, old_item, dest, old_dest, removed, y);
    same_file_same_key(item, old_item, dest, old_dest, kind, unique_filenames, x, y);
    let key = x.key;
    if is_text_now(item, kind, dest, removed, x) && is_text_now(item, kind, dest, removed, y) {
        let p = choose|p: int|
            0 <= p < item.text->0.len() && x == text_op(item, kind, #[trigger] item.text->0[p], dest, removed);
        let q = choose|q: int|
            0 <= q < item.text->0.len() && y == text_op(item, kind, #[trigger] item.text->0[q], dest, removed);
        lookup_at(item.text->0, p);
        assert(key_at(item.text->0, key, q));
    }
    if is_text_old(item, old_item, kind, dest, old_dest, x) && is_text_old(
        item,
        old_item,
        kind,
        dest,
        old_dest,
        y,
    ) {
        let p = choose|p: int|
            0 <= p < old_item.text->0.len() && x == text_op(
                old_item,
                kind,
                #[trigger] old_item.text->0[p],
                old_dest,
                true,
            );
        let q = choose|q: int|
            0 <= q < old_item.text->0.len() && y == text_op(
                old_item,
                kind,
                #[trigger] old_item.text->0[q],
                old_dest,
                true,
            );
        lookup_at(old_item.text->0, p);
        assert(key_at(old_item.text->0, key, q));
    }
    if is_binary_now(item, kind, dest, removed, x) && is_binary_now(item, kind, dest, removed, y) {
        let p = choose|p: int|
            0 <= p < item.binary->0.len() && x == binary_op(
                item,
                kind,
                #[trigger] item.binary->0[p],
                dest,
                removed,
            );
        let q = choose|q: int|
            0 <= q < item.binary->0.len() && y == binary_op(
                item,
                kind,
                #[trigger] item.binary->0[q],
                dest,
                removed,
            );
        lookup_at(item.binary->0, p);
        assert(key_at(item.binary->0, key, q));
    }
    if is_binary_old(item, old_item, kind, dest, old_dest, x) && is_binary_old(
        item,
        old_item,
        kind,
        dest,
        old_dest,
        y,
    ) {
        let p = choose|p: int|
            0 <= p < old_item.binary->0.len() && x == binary_op(
                old_item,
                kind,
                #[trigger] old_item.binary->0[p],
                old_dest,
                true,
            );
        let q = choose|q: int|
            0 <= q < old_item.binary->0.len() && y == binary_op(
                old_item,
                kind,
                #[trigger] old_item.binary->0[q],
                old_dest,
                true,
            );
        lookup_at(old_item.binary->0, p);
        assert(key_at(old_item.binary->0, key, q));
    }
}

/// No step for a tidy resource interferes with another.
proof fn tidy_ops_are_alone(
    kind: Kind,
    item: ItemModel,
    old_item: ItemModel,
    dest: Seq<char>,
    old_dest: Seq<char>,
    removed: bool,
    unique_filenames: bool,
    op: FileOpModel,
)
    requires
        tidy(item, old_item, dest, old_dest),
        is_planned(kind, item, old_item, dest, old_dest, removed, op),
    ensures
        only_op(planned(kind, item, old_item, dest, old_dest, removed), op, unique_filenames),
{
    let steps = planned(kind, item, old_item, dest, old_dest, removed);
    assert forall|i: int| 0 <= i < steps.len() && works_on(
        #[trigger] steps[i],
        op_path(op, unique_filenames),
        unique_filenames,
    ) implies steps[i] == StepModel::File(op) by {
        let other = steps[i]->File_0;
        assert(steps.contains(StepModel::File(other)));
        planned_ops(kind, item, old_item, dest, old_dest, removed, other);
        same_file_same_op(kind, item, old_item, dest, old_dest, removed, unique_filenames, op, other);
    }
}

/// After a tidy resource is processed, its folder is in step with it: the file
/// of every key that it has holds the value of the key, or what was fetched
/// from it (something with its digest, to be exact), and is gone if the
/// resource is; and the file of every key that it had, and has no more or in
/// another folder, is gone. A URL that is no text is left out.
pub proof fn tidy_resource_is_in_step(
    maps: MapsModel,
    kind: Kind,
    item: ItemModel,
    dest: Seq<char>,
    removed: bool,
    files: Files,
    unique_filenames: bool,
    fetched: spec_fn(Seq<char>) -> Seq<u8>,
    p: int,
)
    requires
        ({
            let old_dest = previous_folder(maps.of(kind), item.key(), dest);
            let folder = working_folder(old_dest, dest, removed);
            tidy(item, removal(previous(maps.of(kind), item)), folder, old_dest)
        }),
    ensures
        ({
            let old_item = removal(previous(maps.of(kind), item));
            let old_dest = previous_folder(maps.of(kind), item.key(), dest);
            let folder = working_folder(old_dest, dest, removed);
            let steps = processed(maps, kind, item, dest, removed);
            let after = steps_done(files, steps, unique_filenames, fetched);
            &&& kind == Kind::ConfigMap && item.text is Some && 0 <= p < item.text->0.len() ==> {
                let op = text_op(item, kind, item.text->0[p], folder, removed);
                leaves(op, fetched, held(after, op_path(op, unique_filenames)))
            }
            &&& item.binary is Some && 0 <= p < item.binary->0.len() ==> {
                let op = binary_op(item, kind, item.binary->0[p], folder, removed);
                op_content(op, fetched) is Some ==> leaves(
                    op,
                    fetched,
                    held(after, op_path(op, unique_filenames)),
                )
            }
            &&& !removed && kind == Kind::ConfigMap && old_item.text is Some && 0 <= p
                < old_item.text->0.len() && (old_dest != dest || !text_has(item, old_item.text->0[p].0))
                ==> {
                let op = text_op(old_item, kind, old_item.text->0[p], old_dest, true);
                held(after, op_path(op, unique_filenames)) is None
            }
            &&& !removed && old_item.binary is Some && 0 <= p < old_item.binary->0.len() && (old_dest
                != dest || !binary_has(item, old_item.binary->0[p].0)) ==> {
                let op = binary_op(old_item, kind, old_item.binary->0[p], old_dest, true);
                op_content(op, fetched) is Some ==> held(after, op_path(op, unique_filenames)) is None
            }
        }),
{
    let old_item = removal(previous(maps.of(kind), item));
    let old_dest = previous_folder(maps.of(kind), item.key(), dest);
    let folder = working_folder(old_dest, dest, removed);
    keys_become_files(maps, kind, item, dest, removed, files, unique_filenames, fetched, p);
    if kind == Kind::ConfigMap && item.text is Some && 0 <= p < item.text->0.len() {
        let op = text_op(item, kind, item.text->0[p], folder, removed);
        assert(is_text_now(item, kind, folder, removed, op));
        tidy_ops_are_alone(kind, item, old_item, folder, old_dest, removed, unique_filenames, op);
    }
    if item.binary is Some && 0 <= p < item.binary->0.len() {
        let op = binary_op(item, kind, item.binary->0[p], folder, removed);
        assert(is_binary_now(item, kind, folder, removed, op));
        tidy_ops_are_alone(kind, item, old_item, folder, old_dest, removed, unique_filenames, op);
    }
    if !removed {
        vanished_keys_lose_their_files(maps, kind, item, dest, files, unique_filenames, fetched, p);
        if kind == Kind::ConfigMap && old_item.text is Some && 0 <= p < old_item.text->0.len() && (old_dest
            != dest || !text_has(item, old_item.text->0[p].0)) {
            let op = text_op(old_item, kind, old_item.text->0[p], old_dest, true);
            assert(is_text_old(item, old_item, kind, folder, old_dest, op));
            tidy_ops_are_alone(kind, item, old_item, folder, old_dest, removed, unique_filenames, op);
        }
        if old_item.binary is Some && 0 <= p < old_item.binary->0.len() && (old_dest != dest || !binary_has(
            item,
            old_item.binary->0[p].0,
        )) {
            let op = binary_op(old_item, kind, old_item.binary->0[p], old_dest, true);
            assert(is_binary_old(item, old_item, kind, folder, old_dest, op));
            tidy_ops_are_alone(kind, item, old_item, folder, old_dest, removed, unique_filenames, op);
        }
    }
}

// ---------------------------------------------------------------------------
// Syncing again
// ---------------------------------------------------------------------------

/// A file has the digest of what an operation writes.
spec fn is_settled(
    files: Files,
    op: FileOpModel,
    unique_filenames: bool,
    fetched: spec_fn(Seq<char>) -> Seq<u8>,
) -> bool {
    !op.remove && (op_content(op, fetched) is Some ==> leaves(
        op,
        fetched,
        held(files, op_path(op, unique_filenames)),
    ))
}

/// Two operations write what has the same digest, unless one of them fails.
pub open spec fn write_alike(
    x: FileOpModel,
    y: FileOpModel,
    fetched: spec_fn(Seq<char>) -> Seq<u8>,
) -> bool {
    op_content(x, fetched) is Some && op_content(y, fetched) is Some ==> !x.remove && !y.remove && sha256(
        op_content(x, fetched)->0,
    ) == sha256(op_content(y, fetched)->0)
}

/// Wherever a step of the one works on the same file as a step of the other,
/// both write alike.
pub open spec fn agree(
    first: Seq<StepModel>,
    second: Seq<StepModel>,
    unique_filenames: bool,
    fetched: spec_fn(Seq<char>) -> Seq<u8>,
) -> bool {
    forall|i: int, j: int|
        0 <= i < first.len() && 0 <= j < second.len() && second[j] is File && works_on(
            #[trigger] first[i],
            op_path((#[trigger] second[j])->File_0, unique_filenames),
            unique_filenames,
        ) ==> write_alike(first[i]->File_0, second[j]->File_0, fetched)
}

/// After steps that write alike, a file has the digest of what they write.
proof fn alike_steps_settle(
    files: Files,
    steps: Seq<StepModel>,
    unique_filenames: bool,
    fetched: spec_fn(Seq<char>) -> Seq<u8>,
    op: FileOpModel,
)
    requires
        steps.contains(StepModel::File(op)),
        !op.remove,
        op_content(op, fetched) is Some,
        forall|i: int|
            0 <= i < steps.len() && works_on(
                #[trigger] steps[i],
                op_path(op, unique_filenames),
                unique_filenames,
            ) ==> write_alike(steps[i]->File_0, op, fetched),
    ensures
        is_settled(steps_done(files, steps, unique_filenames, fetched), op, unique_filenames, fetched),
    decreases steps.len(),
{
    let path = op_path(op, unique_filenames);
    let last = steps.len() - 1;
    let init = steps.drop_last();
    if works_on(steps[last], path, unique_filenames) && op_content(steps[last]->File_0, fetched) is Some {
        assert(write_alike(steps[last]->File_0, op, fetched));
    } else {
        let i = choose|i: int| 0 <= i < steps.len() && steps[i] == StepModel::File(op);
        assert(i < last);
        assert(init[i] == steps[i]);
        assert forall|j: int| 0 <= j < init.len() && works_on(
            #[trigger] init[j],
            path,
            unique_filenames,
        ) implies write_alike(init[j]->File_0, op, fetched) by {
            assert(init[j] == steps[j]);
        }
        alike_steps_settle(files, init, unique_filenames, fetched, op);
    }
}

/// Steps whose files have the digests already change nothing.
proof fn settled_steps_change_nothing(
    files: Files,
    steps: Seq<StepModel>,
    unique_filenames: bool,
    fetched: spec_fn(Seq<char>) -> Seq<u8>,
)
    requires
        forall|j: int|
            0 <= j < steps.len() && (#[trigger] steps[j]) is File ==> is_settled(
                files,
                steps[j]->File_0,
                unique_filenames,
                fetched,
            ),
    ensures
        !steps_change(files, steps, unique_filenames, fetched),
        steps_done(files, steps, unique_filenames, fetched) == files,
    decreases steps.len(),
{
    if steps.len() > 0 {
        let init = steps.drop_last();
        assert forall|j: int| 0 <= j < init.len() && (#[trigger] init[j]) is File implies is_settled(
            files,
            init[j]->File_0,
            unique_filenames,
            fetched,
        ) by {
            assert(init[j] == steps[j]);
        }
        settled_steps_change_nothing(files, init, unique_filenames, fetched);
        let last = steps[steps.len() - 1];
        assert(last is File ==> is_settled(files, last->File_0, unique_filenames, fetched));
    }
}

/// The operations for a resource that comes again as it was processed last are
/// those on its keys.
proof fn again_ops(
    before: MapsModel,
    after: MapsModel,
    kind: Kind,
    item: ItemModel,
    dest: Seq<char>,
    op: FileOpModel,
)
    requires
        remembered(before.of(kind), after.of(kind), item, dest, false),
        processed(after, kind, item, dest, false).contains(StepModel::File(op)),
    ensures
        is_text_now(item, kind, dest, false, op) || is_binary_now(item, kind, dest, false, op),
        !op.remove,
        processed(before, kind, item, dest, false).contains(StepModel::File(op)),
{
    let old_item = removal(cached(item));
    assert(lookup(after.of(kind).object, item.key()) == Some(cached(item)));
    assert(lookup(after.of(kind).dest, item.key()) == Some(dest));
    planned_ops(kind, item, old_item, dest, dest, false, op);
    planned_key(kind, item, old_item, dest, dest, false, op);
    remembering_keeps_keys(item, cached(item), op.key);
    let before_item = removal(previous(before.of(kind), item));
    let old_dest = previous_folder(before.of(kind), item.key(), dest);
    if is_text_now(item, kind, dest, false, op) {
        let p = choose|p: int|
            0 <= p < item.text->0.len() && op == text_op(item, kind, #[trigger] item.text->0[p], dest, false);
        every_key_is_planned(kind, item, before_item, dest, old_dest, false, p);
    } else {
        let p = choose|p: int|
            0 <= p < item.binary->0.len() && op == binary_op(
                item,
                kind,
                #[trigger] item.binary->0[p],
                dest,
                false,
            );
        every_key_is_planned(kind, item, before_item, dest, old_dest, false, p);
    }
}

/// What the files of a resource hold is as it was left.
pub open spec fn untouched(
    left: Files,
    now: Files,
    steps: Seq<StepModel>,
    unique_filenames: bool,
) -> bool {
    forall|j: int|
        0 <= j < steps.len() && (#[trigger] steps[j]) is File ==> held(
            now,
            op_path(steps[j]->File_0, unique_filenames),
        ) == held(left, op_path(steps[j]->File_0, unique_filenames))
}

/// A resource that comes again as it was processed last changes nothing, if
/// its files are as they were left: none is written and none is removed. Keys
/// that share a file are left out unless they are written alike.
pub proof fn syncing_again_changes_nothing(
    before: MapsModel,
    after: MapsModel,
    kind: Kind,
    item: ItemModel,
    dest: Seq<char>,
    files: Files,
    now: Files,
    unique_filenames: bool,
    fetched: spec_fn(Seq<char>) -> Seq<u8>,
)
    requires
        remembered(before.of(kind), after.of(kind), item, dest, false),
    ensures
        ({
            let first = processed(before, kind, item, dest, false);
            let second = processed(after, kind, item, dest, false);
            let left = steps_done(files, first, unique_filenames, fetched);
            untouched(left, now, second, unique_filenames) && agree(
                first,
                second,
                unique_filenames,
                fetched,
            ) ==> !steps_change(now, second, unique_filenames, fetched) && steps_done(
                now,
                second,
                unique_filenames,
                fetched,
            ) == now
        }),
{
    let first = processed(before, kind, item, dest, false);
    let second = processed(after, kind, item, dest, false);
    let left = steps_done(files, first, unique_filenames, fetched);
    if untouched(left, now, second, unique_filenames) && agree(first, second, unique_filenames, fetched) {
        assert forall|j: int| 0 <= j < second.len() && (#[trigger] second[j]) is File implies is_settled(
            now,
            second[j]->File_0,
            unique_filenames,
            fetched,
        ) by {
            let op = second[j]->File_0;
            assert(second.contains(StepModel::File(op)));
            again_ops(before, after, kind, item, dest, op);
            if op_content(op, fetched) is Some {
                assert forall|i: int| 0 <= i < first.len() && works_on(
                    #[trigger] first[i],
                    op_path(op, unique_filenames),
                    unique_filenames,
                ) implies write_alike(first[i]->File_0, op, fetched) by {
                    assert(works_on(
                        first[i],
                        op_path(second[j]->File_0, unique_filenames),
                        unique_filenames,
                    ));
                }
                alike_steps_settle(files, first, unique_filenames, fetched, op);
            }
        }
        settled_steps_change_nothing(now, second, unique_filenames, fetched);
    }
}

/// A tidy resource that comes again as it was processed last changes nothing,
/// if its files are as they were left.
pub proof fn tidy_resource_settles(
    before: MapsModel,
    after: MapsModel,
    kind: Kind,
    item: ItemModel,
    dest: Seq<char>,
    files: Files,
    now: Files,
    unique_filenames: bool,
    fetched: spec_fn(Seq<char>) -> Seq<u8>,
)
    requires
        remembered(before.of(kind), after.of(kind), item, dest, false),
        tidy(
            item,
            removal(previous(before.of(kind), item)),
            dest,
            previous_folder(before.of(kind), item.key(), dest),
        ),
    ensures
        ({
            let first = processed(before, kind, item, dest, false);
            let second = processed(after, kind, item, dest, false);
            let left = steps_done(files, first, unique_filenames, fetched);
            untouched(left, now, second, unique_filenames) ==> !steps_change(
                now,
                second,
                unique_filenames,
                fetched,
            ) && steps_done(now, second, unique_filenames, fetched) == now
        }),
{
    let old_item = removal(previous(before.of(kind), item));
    let old_dest = previous_folder(before.of(kind), item.key(), dest);
    let first = processed(before, kind, item, dest, false);
    let second = processed(after, kind, item, dest, false);
    assert forall|i: int, j: int|
        0 <= i < first.len() && 0 <= j < second.len() && second[j] is File && works_on(
            #[trigger] first[i],
            op_path((#[trigger] second[j])->File_0, unique_filenames),
            unique_filenames,
        ) implies write_alike(first[i]->File_0, second[j]->File_0, fetched) by {
        let op = second[j]->File_0;
        assert(second.contains(StepModel::File(op)));
        again_ops(before, after, kind, item, dest, op);
        tidy_ops_are_alone(kind, item, old_item, dest, old_dest, false, unique_filenames, op);
        assert(first[i] == StepModel::File(op));
    }
    syncing_again_changes_nothing(
        before,
        after,
        kind,
        item,
        dest,
        files,
        now,
        unique_filenames,
        fetched,
    );
}

/// The keys of a resource are plain: none stands for a URL, none is an absolute
/// path, and none is in both sections.
pub open spec fn plain(item: ItemModel) -> bool {
    &&& sections_ordered(item)
    &&& forall|key: Seq<char>| #[trigger]
        text_has(item, key) ==> !is_url_key(key) && !(key.len() > 0 && key[0] == '/') && !binary_has(
            item,
            key,
        )
    &&& forall|key: Seq<char>| #[trigger]
        binary_has(item, key) ==> !is_url_key(key) && !(key.len() > 0 && key[0] == '/')
}

/// Two operations on plain keys of a resource that work on the same file are
/// the same.
proof fn plain_files_differ(
    kind: Kind,
    item: ItemModel,
    dest: Seq<char>,
    unique_filenames: bool,
    x: FileOpModel,
    y: FileOpModel,
)
    requires
        plain(item),
        is_text_now(item, kind, dest, false, x) || is_binary_now(item, kind, dest, false, x),
        is_text_now(item, kind, dest, false, y) || is_binary_now(item, kind, dest, false, y),
        op_path(x, unique_filenames) == op_path(y, unique_filenames),
    ensures
        x == y,
{
    planned_key(kind, item, item, dest, dest, false, x);
    planned_key(kind, item, item, dest, dest, false, y);
    let nx = file_name(x, unique_filenames);
    let ny = file_name(y, unique_filenames);
    if unique_filenames {
        reveal_strlit("namespace_");
        assert(nx[0] == 'n');
        assert(ny[0] == 'n');
    }
    let head = slashed(dest);
    assert(op_path(x, unique_filenames) =~= head + nx);
    assert(op_path(y, unique_filenames) =~= head + ny);
    assert((head + nx).skip(head.len() as int) =~= nx);
    assert((head + ny).skip(head.len() as int) =~= ny);
    if unique_filenames {
        unique_names_keep_files_apart(
            base_name(x.key),
            base_name(y.key),
            item.namespace,
            kind_name(kind),
            item.name,
        );
    }
    assert(x.key == y.key);
    let key = x.key;
    if is_text_now(item, kind, dest, false, x) {
        let p = choose|p: int|
            0 <= p < item.text->0.len() && x == text_op(item, kind, #[trigger] item.text->0[p], dest, false);
        let q = choose|q: int|
            0 <= q < item.text->0.len() && y == text_op(item, kind, #[trigger] item.text->0[q], dest, false);
        lookup_at(item.text->0, p);
        assert(key_at(item.text->0, key, q));
    } else {
        let p = choose|p: int|
            0 <= p < item.binary->0.len() && x == binary_op(
                item,
                kind,
                #[trigger] item.binary->0[p],
                dest,
                false,
            );
        let q = choose|q: int|
            0 <= q < item.binary->0.len() && y == binary_op(
                item,
                kind,
                #[trigger] item.binary->0[q],
                dest,
                false,
            );
        lookup_at(item.binary->0, p);
        assert(key_at(item.binary->0, key, q));
    }
}

/// A resource with plain keys of which nothing was remembered is synced, and
/// comes again unchanged: the second sync changes nothing, if the files are as
/// the first one left them.
pub proof fn plain_resource_settles(
    before: MapsModel,
    after: MapsModel,
    kind: Kind,
    item: ItemModel,
    dest: Seq<char>,
    files: Files,
    now: Files,
    unique_filenames: bool,
    fetched: spec_fn(Seq<char>) -> Seq<u8>,
)
    requires
        remembered(before.of(kind), after.of(kind), item, dest, false),
        lookup(before.of(kind).object, item.key()) is None,
        lookup(before.of(kind).dest, item.key()) is None,
        plain(item),
    ensures
        ({
            let first = processed(before, kind, item, dest, false);
            let second = processed(after, kind, item, dest, false);
            let left = steps_done(files, first, unique_filenames, fetched);
            &&& second == first
            &&& untouched(left, now, second, unique_filenames) ==> !steps_change(
                now,
                second,
                unique_filenames,
                fetched,
            ) && steps_done(now, second, unique_filenames, fetched) == now
        }),
{
    let first = processed(before, kind, item, dest, false);
    let second = processed(after, kind, item, dest, false);
    assert(lookup(after.of(kind).object, item.key()) == Some(cached(item)));
    assert(lookup(after.of(kind).dest, item.key()) == Some(dest));
    assert(first == second);
    assert forall|i: int, j: int|
        0 <= i < first.len() && 0 <= j < second.len() && second[j] is File && works_on(
            #[trigger] first[i],
            op_path((#[trigger] second[j])->File_0, unique_filenames),
            unique_filenames,
        ) implies write_alike(first[i]->File_0, second[j]->File_0, fetched) by {
        let x = first[i]->File_0;
        let y = second[j]->File_0;
        assert(second.contains(StepModel::File(x)));
        assert(second.contains(StepModel::File(y)));
        again_ops(before, after, kind, item, dest, x);
        again_ops(before, after, kind, item, dest, y);
        plain_files_differ(kind, item, dest, unique_filenames, x, y);
    }
    syncing_again_changes_nothing(
        before,
        after,
        kind,
        item,
        dest,
        files,
        now,
        unique_filenames,
        fetched,
    );
}

// ---------------------------------------------------------------------------
// Removing a file
// ---------------------------------------------------------------------------

/// The files after a file was to be removed, and whether that is a change. It
/// is removed if it is there and the removal succeeds.
pub open spec fn file_removed(files: Files, folder: Seq<char>, filename: Seq<char>, succeeds: bool) -> (
    Files,
    bool,
) {
    let path = path_in(folder, filename);
    if is_removed(files.contains_key(path), succeeds) {
        (files.remove(path), true)
    } else {
        (files, false)
    }
}

/// A file that was removed is gone, and to remove it again is no change, finds
/// no file and changes nothing; no other file is touched by either.
pub proof fn removed_file_is_gone(
    files: Files,
    folder: Seq<char>,
    filename: Seq<char>,
    succeeds: bool,
    succeeds_again: bool,
    other: Seq<char>,
)
    ensures
        ({
            let path = path_in(folder, filename);
            let (after, removed) = file_removed(files, folder, filename, succeeds);
            let (again, removed_again) = file_removed(after, folder, filename, succeeds_again);
            &&& removed <==> files.contains_key(path) && succeeds
            &&& removed ==> !after.contains_key(path)
            &&& !removed ==> after == files
            &&& other != path ==> held(after, other) == held(files, other)
            &&& removed ==> !removed_again && again == after
            &&& removed ==> removal_entry(path, after.contains_key(path)) == (
                Level::Error,
                "Unable to remove "@ + path + ", file not found"@,
            )
        }),
{
}

// ---------------------------------------------------------------------------
// Operations, carried out
// ---------------------------------------------------------------------------

/// An update acts with the content that its operation stands for: with the
/// value of a key at once, with what a URL is answered once that is fetched,
/// and not at all where the operation has no content, which changes nothing.
pub proof fn update_has_the_content(
    op: FileOpModel,
    unique_filenames: bool,
    fetched: spec_fn(Seq<char>) -> Seq<u8>,
    update: Update,
    response: Option<(u16, Seq<u8>)>,
    after: FileAction,
    files: Files,
)
    requires
        updates(op, unique_filenames, update),
    ensures
        match update {
            Update::Do(action) => {
                &&& op_content(op, fetched) is Some
                &&& carries_out(action, op, unique_filenames, op_content(op, fetched)->0)
            },
            Update::Fetch(url, action) => {
                &&& op_content(op, fetched) == Some(fetched(url@))
                &&& filled(action, response, after) && content_of(response) == fetched(url@)
                    ==> carries_out(after, op, unique_filenames, op_content(op, fetched)->0)
            },
            Update::Failed(_) => {
                &&& op_content(op, fetched) is None
                &&& op_done(files, op, unique_filenames, fetched) == files
                &&& !op_changes(files, op, unique_filenames, fetched)
            },
        },
{
}

/// Writing does to the files what its operation is said to do. A file is
/// written if and only if the operation changes it, and then with the content
/// of the operation, at its path; else the writing ends without a change, and
/// the files stay as they are.
pub proof fn writing_does_the_operation(
    op: FileOpModel,
    unique_filenames: bool,
    fetched: spec_fn(Seq<char>) -> Seq<u8>,
    action: FileAction,
    task: WriteTask,
    files: Files,
    step: WriteStep,
)
    requires
        op_content(op, fetched) is Some,
        !op.remove,
        carries_out(action, op, unique_filenames, op_content(op, fetched)->0),
        asked_for(
            task,
            action.folder@,
            action.filename@,
            action.data@,
            action.content_type@,
        ),
    ensures
        task.path@ == op_path(op, unique_filenames),
        after_reading(task, held(files, task.path@), step) ==> {
            &&& step is Write <==> op_changes(files, op, unique_filenames, fetched)
            &&& match step {
                WriteStep::Write(_, t) => t == task && op_done(files, op, unique_filenames, fetched)
                    == files.insert(task.path@, task.data@),
                WriteStep::Done(_, result) => result == Ok::<bool, WriteError>(false) && op_done(
                    files,
                    op,
                    unique_filenames,
                    fetched,
                ) == files,
                _ => false,
            }
        },
{
}

/// A file that was written counts as changed, unless its mode is no number or
/// cannot be set.
pub proof fn writing_counts_as_a_change(
    task: WriteTask,
    vars: Map<Seq<char>, Seq<char>>,
    step: WriteStep,
)
    requires
        after_writing(task, vars, step),
        file_mode(vars) != Some(None::<nat>),
    ensures
        match step {
            WriteStep::Done(_, result) => result == Ok::<bool, WriteError>(true),
            WriteStep::SetMode(_, t) => t == task,
            _ => false,
        },
{
}

/// Removing does to the files what its operation is said to do, and is a
/// change if and only if the operation is one.
pub proof fn removing_does_the_operation(
    op: FileOpModel,
    unique_filenames: bool,
    fetched: spec_fn(Seq<char>) -> Seq<u8>,
    action: FileAction,
    files: Files,
)
    requires
        op_content(op, fetched) is Some,
        op.remove,
        carries_out(action, op, unique_filenames, op_content(op, fetched)->0),
    ensures
        file_removed(files, action.folder@, action.filename@, true) == (
            op_done(files, op, unique_filenames, fetched),
            op_changes(files, op, unique_filenames, fetched),
        ),
{
    let path = op_path(op, unique_filenames);
    if !files.contains_key(path) {
        assert(files.remove(path) =~= files);
    }
}

/// For each file step, whether it changes its file, in the order of the steps.
pub open spec fn change_results(
    files: Files,
    steps: Seq<StepModel>,
    unique_filenames: bool,
    fetched: spec_fn(Seq<char>) -> Seq<u8>,
) -> Seq<bool>
    decreases steps.len(),
{
    if steps.len() == 0 {
        Seq::empty()
    } else {
        let before = change_results(files, steps.drop_last(), unique_filenames, fetched);
        match steps.last() {
            StepModel::Log(_) => before,
            StepModel::File(op) => before.push(
                op_changes(
                    steps_done(files, steps.drop_last(), unique_filenames, fetched),
                    op,
                    unique_filenames,
                    fetched,
                ),
            ),
        }
    }
}

/// What follows a sync is decided by the results of its file steps: some file
/// counts as changed if and only if one of the steps changes a file.
pub proof fn results_tell_of_changes(
    files: Files,
    steps: Seq<StepModel>,
    unique_filenames: bool,
    fetched: spec_fn(Seq<char>) -> Seq<u8>,
)
    ensures
        any_change(change_results(files, steps, unique_filenames, fetched)) == steps_change(
            files,
            steps,
            unique_filenames,
            fetched,
        ),
    decreases steps.len(),
{
    if steps.len() > 0 {
        let init = steps.drop_last();
        let before = change_results(files, init, unique_filenames, fetched);
        let results = change_results(files, steps, unique_filenames, fetched);
        results_tell_of_changes(files, init, unique_filenames, fetched);
        if steps.last() is File {
            let last = results.len() - 1;
            if any_change(before) {
                let i = choose|i: int| 0 <= i < before.len() && #[trigger] before[i];
                assert(results[i]);
            }
            if results[last] {
                assert(any_change(results));
            }
            if any_change(results) {
                let i = choose|i: int| 0 <= i < results.len() && #[trigger] results[i];
                if i < last {
                    assert(before[i]);
                }
            }
        }
    }
}

/// A tidy resource that comes again as it was processed last is followed by
/// neither script nor request, if its files are as they were left.
pub proof fn tidy_resource_is_quiet(
    before: MapsModel,
    after: MapsModel,
    kind: Kind,
    item: ItemModel,
    dest: Seq<char>,
    files: Files,
    now: Files,
    unique_filenames: bool,
    fetched: spec_fn(Seq<char>) -> Seq<u8>,
    script: Option<Seq<char>>,
    request_url: Option<Seq<char>>,
)
    requires
        remembered(before.of(kind), after.of(kind), item, dest, false),
        tidy(
            item,
            removal(previous(before.of(kind), item)),
            dest,
            previous_folder(before.of(kind), item.key(), dest),
        ),
    ensures
        ({
            let first = processed(before, kind, item, dest, false);
            let second = processed(after, kind, item, dest, false);
            let left = steps_done(files, first, unique_filenames, fetched);
            let results = change_results(now, second, unique_filenames, fetched);
            untouched(left, now, second, unique_filenames) ==> follow_up(
                any_change(results),
                script,
                request_url,
            ) is None
        }),
{
    let second = processed(after, kind, item, dest, false);
    tidy_resource_settles(
        before,
        after,
        kind,
        item,
        dest,
        files,
        now,
        unique_filenames,
        fetched,
    );
    results_tell_of_changes(now, second, unique_filenames, fetched);
}

} // verus!
