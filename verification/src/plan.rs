//! What has to be done to the files of a resource when it is seen or gone:
//! its data is written, and the files of keys that it no longer has, or that
//! it had in another folder, are removed.

use vstd::prelude::*;

use crate::cache::{previous, previous_folder, removal, remembered, same_but, Maps, MapsModel};
use crate::files::{CONTENT_TYPE_BASE64_BINARY, CONTENT_TYPE_TEXT};
use crate::kubeapi::{kind_name, Item, ItemModel, Kind};
use crate::logger::{Level, LogEntry};
use crate::ordered::{copy_bytes, has_key, ordered, OrderedMap, Payload};
use crate::text::{cat2, precedes, same};

verus! {

/// The value of a data key.
pub enum Content {
    Text(String),
    Bin(Vec<u8>),
}

/// What a [`Content`] stands for.
pub enum ContentModel {
    Text(Seq<char>),
    Bin(Seq<u8>),
}

impl View for Content {
    type V = ContentModel;

    open spec fn view(&self) -> ContentModel {
        match self {
            Content::Text(t) => ContentModel::Text(t@),
            Content::Bin(b) => ContentModel::Bin(b@),
        }
    }
}

/// A payload that can be the value of a data key.
pub trait Data: Payload {
    spec fn content_model(value: Self::Model) -> ContentModel;

    fn content(&self) -> (r: Content)
        ensures
            r@ == Self::content_model(self.model()),
    ;
}

impl Data for String {
    open spec fn content_model(value: Seq<char>) -> ContentModel {
        ContentModel::Text(value)
    }

    fn content(&self) -> (r: Content) {
        Content::Text(self.clone())
    }
}

impl Data for Vec<u8> {
    open spec fn content_model(value: Seq<u8>) -> ContentModel {
        ContentModel::Bin(value)
    }

    fn content(&self) -> (r: Content) {
        Content::Bin(copy_bytes(self.as_slice()))
    }
}

/// One file to be written or removed for a data key of a resource.
pub struct FileOp {
    pub key: String,
    pub content: Content,
    pub folder: String,
    pub namespace: String,
    pub name: String,
    pub kind: Kind,
    pub content_type: &'static str,
    pub remove: bool,
}

/// What a [`FileOp`] stands for.
pub struct FileOpModel {
    pub key: Seq<char>,
    pub content: ContentModel,
    pub folder: Seq<char>,
    pub namespace: Seq<char>,
    pub name: Seq<char>,
    pub kind: Kind,
    pub content_type: Seq<char>,
    pub remove: bool,
}

impl View for FileOp {
    type V = FileOpModel;

    open spec fn view(&self) -> FileOpModel {
        FileOpModel {
            key: self.key@,
            content: self.content@,
            folder: self.folder@,
            namespace: self.namespace@,
            name: self.name@,
            kind: self.kind,
            content_type: self.content_type@,
            remove: self.remove,
        }
    }
}

/// One thing to be done.
pub enum Step {
    Log(LogEntry),
    File(FileOp),
}

/// What a [`Step`] stands for.
pub enum StepModel {
    Log((Level, Seq<char>)),
    File(FileOpModel),
}

impl View for Step {
    type V = StepModel;

    open spec fn view(&self) -> StepModel {
        match self {
            Step::Log(l) => StepModel::Log(l@),
            Step::File(f) => StepModel::File(f@),
        }
    }
}

/// The models of a list of steps.
pub open spec fn step_views(steps: Seq<Step>) -> Seq<StepModel> {
    steps.map_values(|s: Step| s@)
}

/// The operation on the file of one data key.
pub open spec fn file_op<V: Data>(
    entry: (Seq<char>, V::Model),
    folder: Seq<char>,
    item: ItemModel,
    kind: Kind,
    content_type: Seq<char>,
    remove: bool,
) -> StepModel {
    StepModel::File(
        FileOpModel {
            key: entry.0,
            content: V::content_model(entry.1),
            folder,
            namespace: item.namespace,
            name: item.name,
            kind,
            content_type,
            remove,
        },
    )
}

/// The operations on the files of all data keys, in the order of the keys.
pub open spec fn file_ops<V: Data>(
    data: Seq<(Seq<char>, V::Model)>,
    folder: Seq<char>,
    item: ItemModel,
    kind: Kind,
    content_type: Seq<char>,
    remove: bool,
) -> Seq<StepModel> {
    data.map_values(
        |e: (Seq<char>, V::Model)| file_op::<V>(e, folder, item, kind, content_type, remove),
    )
}

/// The entries of `before` whose key `now` does not have.
pub open spec fn without_common<M>(
    before: Seq<(Seq<char>, M)>,
    now: Option<Seq<(Seq<char>, M)>>,
) -> Seq<(Seq<char>, M)> {
    before.filter(|e: (Seq<char>, M)| !(now is Some && has_key(now->0, e.0)))
}

/// The entries whose files are to go: those that vanished, or all of them if
/// the folder has changed.
pub open spec fn leftovers<M>(
    before: Seq<(Seq<char>, M)>,
    now: Option<Seq<(Seq<char>, M)>>,
    moved: bool,
) -> Seq<(Seq<char>, M)> {
    if moved {
        before
    } else {
        without_common(before, now)
    }
}

/// What is done for one data section of a resource: first its keys are
/// written (or removed, if the resource is), then the leftovers of the
/// section as it was before are removed from the folder they were in.
pub open spec fn section<V: Data>(
    kind: Kind,
    item: ItemModel,
    old_item: ItemModel,
    now: Option<Seq<(Seq<char>, V::Model)>>,
    before: Option<Seq<(Seq<char>, V::Model)>>,
    found: Seq<StepModel>,
    dest: Seq<char>,
    old_dest: Seq<char>,
    content_type: Seq<char>,
    removed: bool,
) -> Seq<StepModel> {
    (match now {
        Some(data) => found + file_ops::<V>(data, dest, item, kind, content_type, removed),
        None => Seq::empty(),
    }) + (match before {
        Some(data) if !removed => file_ops::<V>(
            leftovers(data, now, old_dest != dest),
            old_dest,
            old_item,
            kind,
            content_type,
            true,
        ),
        _ => Seq::empty(),
    })
}

/// A log step.
pub open spec fn log_step(level: Level, message: Seq<char>) -> StepModel {
    StepModel::Log((level, message))
}

/// `step` alone if `condition` holds, else nothing.
pub open spec fn only_if(condition: bool, step: StepModel) -> Seq<StepModel> {
    if condition {
        seq![step]
    } else {
        Seq::empty()
    }
}

/// What is done for a resource, given what it was before.
pub open spec fn planned(
    kind: Kind,
    item: ItemModel,
    old_item: ItemModel,
    dest: Seq<char>,
    old_dest: Seq<char>,
    removed: bool,
) -> Seq<StepModel> {
    let debug = |text: Seq<char>| seq![log_step(Level::Debug, text + kind_name(kind))];
    match kind {
        Kind::ConfigMap => only_if(
            item.text is None && item.binary is None,
            log_step(Level::Warning, "No data/binaryData field in "@ + kind_name(kind)),
        ) + section::<String>(
            kind,
            item,
            old_item,
            item.text,
            old_item.text,
            debug("Found 'data' on "@),
            dest,
            old_dest,
            CONTENT_TYPE_TEXT@,
            removed,
        ) + section::<Vec<u8>>(
            kind,
            item,
            old_item,
            item.binary,
            old_item.binary,
            debug("Found 'binary_data' on "@),
            dest,
            old_dest,
            CONTENT_TYPE_BASE64_BINARY@,
            removed,
        ),
        Kind::Secret => only_if(
            item.binary is None,
            log_step(Level::Warning, "No data field in "@ + kind_name(kind)),
        ) + section::<Vec<u8>>(
            kind,
            item,
            old_item,
            item.binary,
            old_item.binary,
            Seq::empty(),
            dest,
            old_dest,
            CONTENT_TYPE_BASE64_BINARY@,
            removed,
        ),
    }
}

// ---------------------------------------------------------------------------
// Building the steps
// ---------------------------------------------------------------------------

/// Adds the operations on the files of all data keys.
fn iterate_data<V: Data>(
    steps: &mut Vec<Step>,
    data: &OrderedMap<V>,
    dest_folder: &str,
    item: &Item,
    kind: Kind,
    content_type: &'static str,
    remove: bool,
)
    ensures
        step_views(final(steps)@) == step_views(old(steps)@) + file_ops::<V>(
            data@,
            dest_folder@,
            item@,
            kind,
            content_type@,
            remove,
        ),
{
    let ghost before = steps@;
    let mut i: usize = 0;
    assert(step_views(steps@) =~= step_views(before) + file_ops::<V>(
        data@.take(0),
        dest_folder@,
        item@,
        kind,
        content_type@,
        remove,
    ));
    while i < data.len()
        invariant
            i <= data@.len(),
            step_views(steps@) == step_views(before) + file_ops::<V>(
                data@.take(i as int),
                dest_folder@,
                item@,
                kind,
                content_type@,
                remove,
            ),
        decreases data@.len() - i,
    {
        let ghost so_far = steps@;
        let op = FileOp {
            key: data.key(i).clone(),
            content: data.value(i).content(),
            folder: dest_folder.to_string(),
            namespace: item.namespace.clone(),
            name: item.name.clone(),
            kind,
            content_type,
            remove,
        };
        let step = Step::File(op);
        assert(step@ == file_op::<V>(
            data@[i as int],
            dest_folder@,
            item@,
            kind,
            content_type@,
            remove,
        ));
        steps.push(step);
        i += 1;
        assert(step_views(steps@) =~= step_views(so_far).push(step@));
        assert(file_ops::<V>(
            data@.take(i as int),
            dest_folder@,
            item@,
            kind,
            content_type@,
            remove,
        ) =~= file_ops::<V>(
            data@.take(i - 1),
            dest_folder@,
            item@,
            kind,
            content_type@,
            remove,
        ).push(step@));
        assert(step_views(steps@) =~= step_views(before) + file_ops::<V>(
            data@.take(i as int),
            dest_folder@,
            item@,
            kind,
            content_type@,
            remove,
        ));
    }
    assert(data@.take(i as int) =~= data@);
}

/// The entries of `old` whose key `new` does not have.
fn minus_common<V: Payload>(old: &OrderedMap<V>, new: &Option<OrderedMap<V>>) -> (r: OrderedMap<V>)
    ensures
        r@ == without_common(old@, new.model()),
{
    proof {
        use_type_invariant(old);
    }
    let ghost gone = |e: (Seq<char>, V::Model)| !(new.model() is Some && has_key(new.model()->0, e.0));
    let mut out: OrderedMap<V> = OrderedMap::new();
    let mut i: usize = 0;
    proof {
        reveal(Seq::filter);
        assert(out@ =~= old@.take(0).filter(gone));
    }
    while i < old.len()
        invariant
            ordered(old@),
            i <= old@.len(),
            gone == (|e: (Seq<char>, V::Model)| !(new.model() is Some && has_key(
                new.model()->0,
                e.0,
            ))),
            out@ == old@.take(i as int).filter(gone),
            forall|j: int| 0 <= j < out@.len() ==> old@.take(i as int).contains(#[trigger] out@[j]),
        decreases old@.len() - i,
    {
        proof {
            reveal(Seq::filter);
            assert(old@.take(i + 1).drop_last() =~= old@.take(i as int));
            assert(old@.take(i + 1).last() == old@[i as int]);
        }
        let key = old.key(i);
        let common = match new {
            Some(n) => n.contains_key(key.as_str()),
            None => false,
        };
        let ghost before = out@;
        if !common {
            assert forall|j: int| 0 <= j < out@.len() implies precedes(
                #[trigger] out@[j].0,
                key@,
            ) by {
                let p = choose|p: int| 0 <= p < i && old@.take(i as int)[p] == out@[j];
                assert(old@[p].0 == out@[j].0);
            }
            out.push(key.clone(), old.value(i).duplicate());
            assert(gone(old@[i as int]));
        } else {
            assert(!gone(old@[i as int]));
        }
        proof {
            assert forall|j: int| 0 <= j < out@.len() implies old@.take(i + 1).contains(
                #[trigger] out@[j],
            ) by {
                if j < before.len() {
                    assert(before[j] == out@[j]);
                    let p = choose|p: int| 0 <= p < i && old@.take(i as int)[p] == out@[j];
                    assert(old@.take(i + 1)[p] == out@[j]);
                } else {
                    assert(old@.take(i + 1)[i as int] == out@[j]);
                }
            }
        }
        i += 1;
    }
    assert(old@.take(i as int) =~= old@);
    out
}

/// The step that logs `entry`, if there is one.
spec fn optional_log(entry: Option<LogEntry>) -> Seq<StepModel> {
    match entry {
        Some(l) => seq![StepModel::Log(l@)],
        None => Seq::empty(),
    }
}

/// Adds what is done for one data section of a resource.
fn sync_section<V: Data>(
    steps: &mut Vec<Step>,
    kind: Kind,
    item: &Item,
    old_item: &Item,
    now: &Option<OrderedMap<V>>,
    before: &Option<OrderedMap<V>>,
    found: Option<LogEntry>,
    dest: &str,
    old_dest: &str,
    content_type: &'static str,
    removed: bool,
)
    ensures
        step_views(final(steps)@) == step_views(old(steps)@) + section::<V>(
            kind,
            item@,
            old_item@,
            now.model(),
            before.model(),
            optional_log(found),
            dest@,
            old_dest@,
            content_type@,
            removed,
        ),
{
    let ghost s0 = step_views(steps@);
    let ghost found_steps = optional_log(found);
    let ghost first: Seq<StepModel> = match now.model() {
        Some(data) => found_steps + file_ops::<V>(data, dest@, item@, kind, content_type@, removed),
        None => Seq::empty(),
    };
    if let Some(data) = now {
        if let Some(entry) = found {
            let ghost so_far = steps@;
            let step = Step::Log(entry);
            steps.push(step);
            assert(step_views(steps@) =~= step_views(so_far).push(step@));
        }
        assert(step_views(steps@) =~= s0 + found_steps);
        iterate_data(steps, data, dest, item, kind, content_type, removed);
        assert(step_views(steps@) =~= s0 + first);
    }
    assert(step_views(steps@) =~= s0 + first);
    if let Some(data) = before {
        if !removed {
            if same(old_dest, dest) {
                let gone = minus_common(data, now);
                iterate_data(steps, &gone, old_dest, old_item, kind, content_type, true);
            } else {
                iterate_data(steps, data, old_dest, old_item, kind, content_type, true);
            }
        }
    }
    assert(step_views(steps@) =~= s0 + section::<V>(
        kind,
        item@,
        old_item@,
        now.model(),
        before.model(),
        found_steps,
        dest@,
        old_dest@,
        content_type@,
        removed,
    ));
}

/// A debug message about a kind.
fn debug_about(text: &str, kind: Kind) -> (r: LogEntry)
    ensures
        r@ == (Level::Debug, text@ + kind_name(kind)),
{
    LogEntry { level: Level::Debug, message: cat2(text, kind.as_str()) }
}

/// Adds a warning about a kind.
fn warn_about(steps: &mut Vec<Step>, text: &str, kind: Kind)
    ensures
        step_views(final(steps)@) == step_views(old(steps)@).push(
            log_step(Level::Warning, text@ + kind_name(kind)),
        ),
{
    let ghost before = steps@;
    let step = Step::Log(LogEntry { level: Level::Warning, message: cat2(text, kind.as_str()) });
    steps.push(step);
    assert(step_views(steps@) =~= step_views(before).push(step@));
}

/// What is done for a resource, given what it was before.
pub fn plan_resource(
    kind: Kind,
    item: &Item,
    old_item: &Item,
    dest: &str,
    old_dest: &str,
    is_removed: bool,
) -> (r: Vec<Step>)
    ensures
        step_views(r@) == planned(kind, item@, old_item@, dest@, old_dest@, is_removed),
{
    let mut steps: Vec<Step> = Vec::new();
    assert(step_views(steps@) =~= Seq::<StepModel>::empty());
    match kind {
        Kind::ConfigMap => {
            if item.text.is_none() && item.binary.is_none() {
                warn_about(&mut steps, "No data/binaryData field in ", kind);
            }
            sync_section(
                &mut steps,
                kind,
                item,
                old_item,
                &item.text,
                &old_item.text,
                Some(debug_about("Found 'data' on ", kind)),
                dest,
                old_dest,
                CONTENT_TYPE_TEXT,
                is_removed,
            );
            sync_section(
                &mut steps,
                kind,
                item,
                old_item,
                &item.binary,
                &old_item.binary,
                Some(debug_about("Found 'binary_data' on ", kind)),
                dest,
                old_dest,
                CONTENT_TYPE_BASE64_BINARY,
                is_removed,
            );
        },
        Kind::Secret => {
            if item.binary.is_none() {
                warn_about(&mut steps, "No data field in ", kind);
            }
            sync_section(
                &mut steps,
                kind,
                item,
                old_item,
                &item.binary,
                &old_item.binary,
                None,
                dest,
                old_dest,
                CONTENT_TYPE_BASE64_BINARY,
                is_removed,
            );
        },
    }
    assert(step_views(steps@) =~= planned(kind, item@, old_item@, dest@, old_dest@, is_removed));
    steps
}

/// The folder that an item's files go to, or are to be found in if it is
/// removed.
pub open spec fn working_folder(old_dest: Seq<char>, dest: Seq<char>, removed: bool) -> Seq<char> {
    if removed {
        old_dest
    } else {
        dest
    }
}

/// The folder named, or none (an empty name).
pub open spec fn folder_or_blank(dest: Option<&str>) -> Seq<char> {
    match dest {
        Some(d) => d@,
        None => Seq::empty(),
    }
}

/// Remembers a resource that was seen, or forgets one that is gone, and says
/// what is to be done to its files.
pub fn process_resource(
    maps: &mut Maps,
    kind: Kind,
    item: &Item,
    dest_folder: Option<&str>,
    is_removed: bool,
) -> (r: Vec<Step>)
    ensures
        remembered(
            old(maps)@.of(kind),
            final(maps)@.of(kind),
            item@,
            folder_or_blank(dest_folder),
            is_removed,
        ),
        same_but(old(maps)@, final(maps)@, kind),
        step_views(r@) == processed(
            old(maps)@,
            kind,
            item@,
            folder_or_blank(dest_folder),
            is_removed,
        ),
{
    let blank = String::new();
    let folder: &str = match dest_folder {
        Some(d) => d,
        None => blank.as_str(),
    };
    assert(folder@ =~= folder_or_blank(dest_folder));
    let (old_item, old_dest) = maps.of_mut(kind).remember(item, folder, is_removed);
    if is_removed {
        plan_resource(kind, item, &old_item, old_dest.as_str(), old_dest.as_str(), true)
    } else {
        plan_resource(kind, item, &old_item, folder, old_dest.as_str(), false)
    }
}

/// What is done for a resource that is seen (or gone) when `maps` is
/// remembered.
pub open spec fn processed(
    maps: MapsModel,
    kind: Kind,
    item: ItemModel,
    dest: Seq<char>,
    removed: bool,
) -> Seq<StepModel> {
    let old_dest = previous_folder(maps.of(kind), item.key(), dest);
    planned(
        kind,
        item,
        removal(previous(maps.of(kind), item)),
        working_folder(old_dest, dest, removed),
        old_dest,
        removed,
    )
}

} // verus!
