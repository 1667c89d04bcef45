//! Syncing from lists. The wanted resources are read by their names, or page
//! by page; each of them is processed; those that are remembered but were not
//! listed are removed; and at last the script is run and the URL requested, if
//! any file has changed. What takes place outside, calls of the API and work
//! on files, is handed out step by step, and what came of it is handed back.

use vstd::prelude::*;

use crate::cache::{
    item_views, remembered, same_but, stale_items, KindModel, Maps, MapsModel,
};
use crate::kubeapi::{kind_name, Item, ItemModel, Kind, KubeError};
use crate::logger::{Level, LogEntry};
use crate::ordered::{lookup, updated};
use crate::plan::{log_step, process_resource, processed, step_views, Step, StepModel};
use crate::resources::{
    any_change, any_changed, destination, folder_steps, follow_changes, follow_up,
    get_destination_folder, resource_names, selector_text, wanted_names, Ctx, Notice, NoticeModel,
    Scope, WErr,
};
use crate::text::{cat3, cat4, opt_view, same, views};

verus! {

/// How many resources a page has at most.
pub const PAGE_LIMIT: u32 = 5;

// ---------------------------------------------------------------------------
// Steps
// ---------------------------------------------------------------------------

/// Resources are read by their names, the next one being `names[next]`.
pub struct Reading {
    pub scope: Scope,
    pub names: Vec<String>,
    pub next: usize,
    pub items: Vec<Item>,
}

/// Resources are read page by page, the next one by these parameters.
pub struct Paging {
    pub scope: Scope,
    pub selector: String,
    pub limit: u32,
    pub token: Option<String>,
    pub items: Vec<Item>,
}

/// The listed resources are processed.
pub struct Syncing {
    scope: Scope,
    items: Vec<Item>,
    next: usize,
    exist_keys: Vec<String>,
    changed: bool,
    steps: Vec<Step>,
}

/// What [`Syncing`] stands for: of `items` the first `next` have been begun,
/// and the steps for the last of them are to be done.
pub struct SyncingModel {
    pub scope: Scope,
    pub items: Seq<ItemModel>,
    pub next: int,
    /// Whether a file has changed before these steps.
    pub changed: bool,
    pub steps: Seq<StepModel>,
}

/// The resources that were not listed are removed.
pub struct Cleaning {
    scope: Scope,
    stale: Vec<Item>,
    next: usize,
    changed: bool,
    steps: Vec<Step>,
}

/// What [`Cleaning`] stands for: of `stale` the first `next` have been begun,
/// and the steps for the last of them are to be done.
pub struct CleaningModel {
    pub scope: Scope,
    pub stale: Seq<ItemModel>,
    pub next: int,
    /// Whether a file has changed before these steps.
    pub changed: bool,
    pub steps: Seq<StepModel>,
}

/// What is to be done next to sync from a list.
pub enum ListStep {
    /// Read the resource with the next name, then call [`Reading::read`].
    Read(Reading),
    /// Read the next page, then call [`Paging::read`].
    Page(Paging),
    /// Do the steps, then call [`Syncing::applied`].
    Apply(Syncing),
    /// Do the steps, then call [`Cleaning::applied`].
    Clean(Cleaning),
    /// Do so, then call [`ListStep::notified`].
    Notify(Notice),
    /// The sync is over.
    Finished(Result<(), WErr>),
}

impl View for Syncing {
    type V = SyncingModel;

    closed spec fn view(&self) -> SyncingModel {
        SyncingModel {
            scope: self.scope,
            items: item_views(self.items@),
            next: self.next as int,
            changed: self.changed,
            steps: step_views(self.steps@),
        }
    }
}

impl View for Cleaning {
    type V = CleaningModel;

    closed spec fn view(&self) -> CleaningModel {
        CleaningModel {
            scope: self.scope,
            stale: item_views(self.stale@),
            next: self.next as int,
            changed: self.changed,
            steps: step_views(self.steps@),
        }
    }
}

/// The keys of resources.
pub open spec fn item_keys(items: Seq<ItemModel>) -> Seq<Seq<char>> {
    items.map_values(|item: ItemModel| item.key())
}

impl Syncing {
    /// The keys are those of the resources that have been begun.
    #[verifier::type_invariant]
    spec fn inv(&self) -> bool {
        &&& 0 < self.next <= self.items@.len()
        &&& views(self.exist_keys@) == item_keys(item_views(self.items@).take(self.next as int))
    }
}

impl Cleaning {
    #[verifier::type_invariant]
    spec fn inv(&self) -> bool {
        0 < self.next <= self.stale@.len()
    }
}

// ---------------------------------------------------------------------------
// What happens to one resource
// ---------------------------------------------------------------------------

/// A resource as log messages show it.
pub open spec fn item_text(item: ItemModel) -> Seq<char> {
    item.namespace + "/"@ + item.name
}

/// The version of the item is the one that was processed last.
pub open spec fn is_current(maps: MapsModel, kind: Kind, item: ItemModel) -> bool {
    lookup(maps.of(kind).version, item.key()) == Some(item.resource_version)
}

/// A listed resource is passed over.
pub open spec fn list_skips(maps: MapsModel, scope: Scope, item: ItemModel) -> bool {
    scope.ignore_already_processed && is_current(maps, scope.kind, item)
}

/// What is done for a listed resource.
pub open spec fn listed_steps(maps: MapsModel, ctx: Ctx, scope: Scope, item: ItemModel) -> Seq<StepModel> {
    if list_skips(maps, scope, item) {
        seq![log_step(Level::Debug, "Ignoring "@ + kind_name(scope.kind) + " "@ + item_text(item))]
    } else {
        seq![log_step(Level::Debug, "Working on "@ + kind_name(scope.kind) + ": "@ + item_text(item))]
            + folder_steps(ctx, item) + processed(
            maps,
            scope.kind,
            item,
            destination(ctx, item),
            false,
        )
    }
}

/// What is remembered after a resource is processed, but for its version.
pub open spec fn remembered_at(
    before: KindModel,
    after: KindModel,
    item: ItemModel,
    dest: Seq<char>,
    removed: bool,
) -> bool {
    remembered(
        KindModel { version: after.version, object: before.object, dest: before.dest },
        after,
        item,
        dest,
        removed,
    )
}

/// What is remembered after a listed resource is processed: the resource and
/// its folder, and its version if versions matter; nothing new if it is passed
/// over.
pub open spec fn listed_maps(
    before: MapsModel,
    after: MapsModel,
    ctx: Ctx,
    scope: Scope,
    item: ItemModel,
) -> bool {
    let kind = scope.kind;
    &&& same_but(before, after, kind)
    &&& if list_skips(before, scope, item) {
        after.of(kind) == before.of(kind)
    } else {
        &&& if scope.ignore_already_processed {
            updated(
                before.of(kind).version,
                after.of(kind).version,
                item.key(),
                Some(item.resource_version),
            )
        } else {
            after.of(kind).version == before.of(kind).version
        }
        &&& remembered_at(before.of(kind), after.of(kind), item, destination(ctx, item), false)
    }
}

/// What is done to remove a resource that was not listed.
pub open spec fn removal_steps(maps: MapsModel, kind: Kind, item: ItemModel) -> Seq<StepModel> {
    seq![log_step(Level::Debug, "Removing "@ + kind_name(kind) + ": "@ + item_text(item))] + processed(
        maps,
        kind,
        item,
        Seq::empty(),
        true,
    )
}

/// What is remembered after a resource that was not listed is removed.
pub open spec fn removal_maps(before: MapsModel, after: MapsModel, kind: Kind, item: ItemModel) -> bool {
    &&& same_but(before, after, kind)
    &&& remembered(before.of(kind), after.of(kind), item, Seq::empty(), true)
}

// ---------------------------------------------------------------------------
// How the steps follow each other
// ---------------------------------------------------------------------------

/// The end of a sync: what follows if files have changed, or nothing.
pub open spec fn closes(ctx: Ctx, scope: Scope, changed: bool, step: ListStep) -> bool {
    match follow_up(changed, opt_view(ctx.script), opt_view(scope.request_url)) {
        Some(n) => step matches ListStep::Notify(notice) && notice@ == n,
        None => step == ListStep::Finished(Ok(())),
    }
}

/// What follows when `next` of the stale resources have been removed: the
/// next one is, or the sync ends.
pub open spec fn cleans(
    before: MapsModel,
    after: MapsModel,
    ctx: Ctx,
    scope: Scope,
    stale: Seq<ItemModel>,
    next: int,
    changed: bool,
    step: ListStep,
) -> bool {
    if next < stale.len() {
        &&& step matches ListStep::Clean(c)
        &&& c@.scope == scope
        &&& c@.stale == stale
        &&& c@.next == next + 1
        &&& c@.changed == changed
        &&& c@.steps == removal_steps(before, scope.kind, stale[next])
        &&& removal_maps(before, after, scope.kind, stale[next])
    } else {
        &&& after == before
        &&& closes(ctx, scope, changed, step)
    }
}

/// What follows when `next` of the listed resources have been processed: the
/// next one is, or those that were not listed are removed.
pub open spec fn syncs(
    before: MapsModel,
    after: MapsModel,
    ctx: Ctx,
    scope: Scope,
    items: Seq<ItemModel>,
    next: int,
    changed: bool,
    step: ListStep,
) -> bool {
    if next < items.len() {
        &&& step matches ListStep::Apply(s)
        &&& s@.scope == scope
        &&& s@.items == items
        &&& s@.next == next + 1
        &&& s@.changed == changed
        &&& s@.steps == listed_steps(before, ctx, scope, items[next])
        &&& listed_maps(before, after, ctx, scope, items[next])
    } else {
        cleans(
            before,
            after,
            ctx,
            scope,
            stale_items(before.of(scope.kind), scope.namespace@, item_keys(items)),
            0,
            changed,
            step,
        )
    }
}

// ---------------------------------------------------------------------------
// Processing
// ---------------------------------------------------------------------------

fn item_line(a: &str, kind: Kind, b: &str, item: &Item) -> (r: Step)
    ensures
        r@ == log_step(Level::Debug, a@ + kind_name(kind) + b@ + item_text(item@)),
{
    let shown = cat3(item.namespace.as_str(), "/", item.name.as_str());
    let message = cat4(a, kind.as_str(), b, shown.as_str());
    Step::Log(LogEntry { level: Level::Debug, message })
}

/// Processes a listed resource, and says what is to be done for it.
fn process_listed(maps: &mut Maps, ctx: &Ctx, scope: &Scope, item: &Item) -> (r: Vec<Step>)
    ensures
        step_views(r@) == listed_steps(old(maps)@, *ctx, *scope, item@),
        listed_maps(old(maps)@, final(maps)@, *ctx, *scope, item@),
{
    let mut steps: Vec<Step> = Vec::new();
    let ghost before = maps@;
    let kind = scope.kind;
    if scope.ignore_already_processed {
        let key = item.key();
        if maps.of(kind).is_current(key.as_str(), item.resource_version.as_str()) {
            steps.push(item_line("Ignoring ", kind, " ", item));
            assert(step_views(steps@) =~= listed_steps(before, *ctx, *scope, item@));
            return steps;
        }
        maps.of_mut(kind).note_version(key.as_str(), item.resource_version.as_str());
    }
    let ghost noted = maps@;
    steps.push(item_line("Working on ", kind, ": ", item));
    let (dest, found) = get_destination_folder(item, ctx);
    if let Some(entry) = found {
        steps.push(Step::Log(entry));
    }
    let ghost head = step_views(steps@);
    assert(head =~= seq![
        log_step(Level::Debug, "Working on "@ + kind_name(kind) + ": "@ + item_text(item@)),
    ] + folder_steps(*ctx, item@));
    let mut rest = process_resource(maps, kind, item, Some(dest.as_str()), false);
    let ghost rest_steps = step_views(rest@);
    assert(processed(noted, kind, item@, dest@, false) == processed(before, kind, item@, dest@, false));
    steps.append(&mut rest);
    assert(step_views(steps@) =~= head + rest_steps);
    steps
}

fn sync_next(
    maps: &mut Maps,
    ctx: &Ctx,
    scope: Scope,
    items: Vec<Item>,
    next: usize,
    exist_keys: Vec<String>,
    changed: bool,
) -> (r: ListStep)
    requires
        next <= items@.len(),
        views(exist_keys@) == item_keys(item_views(items@).take(next as int)),
    ensures
        syncs(
            old(maps)@,
            final(maps)@,
            *ctx,
            scope,
            item_views(items@),
            next as int,
            changed,
            r,
        ),
{
    let ghost all = item_views(items@);
    if next < items.len() {
        let ghost before = exist_keys@;
        let mut exist_keys = exist_keys;
        exist_keys.push(items[next].key());
        assert(all[next as int] == items@[next as int]@);
        assert(views(exist_keys@) =~= views(before).push(all[next as int].key()));
        assert(item_keys(all.take(next + 1)) =~= item_keys(all.take(next as int)).push(
            all[next as int].key(),
        ));
        let steps = process_listed(maps, ctx, &scope, &items[next]);
        ListStep::Apply(Syncing { scope, items, next: next + 1, exist_keys, changed, steps })
    } else {
        assert(all.take(next as int) =~= all);
        let stale = maps.of(scope.kind).stale(scope.namespace.as_str(), &exist_keys);
        clean_next(maps, ctx, scope, stale, 0, changed)
    }
}

fn clean_next(
    maps: &mut Maps,
    ctx: &Ctx,
    scope: Scope,
    stale: Vec<Item>,
    next: usize,
    changed: bool,
) -> (r: ListStep)
    requires
        next <= stale@.len(),
    ensures
        cleans(
            old(maps)@,
            final(maps)@,
            *ctx,
            scope,
            item_views(stale@),
            next as int,
            changed,
            r,
        ),
{
    let ghost before = maps@;
    if next < stale.len() {
        let item = &stale[next];
        assert(item_views(stale@)[next as int] == item@);
        let mut steps: Vec<Step> = Vec::new();
        steps.push(item_line("Removing ", scope.kind, ": ", item));
        let ghost head = step_views(steps@);
        let mut rest = process_resource(maps, scope.kind, item, None, true);
        let ghost rest_steps = step_views(rest@);
        steps.append(&mut rest);
        assert(step_views(steps@) =~= head + rest_steps);
        assert(step_views(steps@) =~= removal_steps(before, scope.kind, item@));
        ListStep::Clean(Cleaning { scope, stale, next: next + 1, changed, steps })
    } else {
        match follow_changes(changed, &ctx.script, &scope.request_url) {
            Some(notice) => ListStep::Notify(notice),
            None => ListStep::Finished(Ok(())),
        }
    }
}

impl Syncing {
    /// The steps to be done.
    pub fn steps(&self) -> (r: &Vec<Step>)
        ensures
            step_views(r@) == self@.steps,
    {
        &self.steps
    }

    /// The steps were done; for each file, whether it has changed.
    pub fn applied(self, maps: &mut Maps, ctx: &Ctx, results: &Vec<bool>) -> (r: ListStep)
        ensures
            syncs(
                old(maps)@,
                final(maps)@,
                *ctx,
                self@.scope,
                self@.items,
                self@.next,
                self@.changed || any_change(results@),
                r,
            ),
    {
        proof {
            use_type_invariant(&self);
        }
        let changed = any_changed(results) || self.changed;
        sync_next(maps, ctx, self.scope, self.items, self.next, self.exist_keys, changed)
    }
}

impl Cleaning {
    /// The steps to be done.
    pub fn steps(&self) -> (r: &Vec<Step>)
        ensures
            step_views(r@) == self@.steps,
    {
        &self.steps
    }

    /// The steps were done; for each file, whether it has changed.
    pub fn applied(self, maps: &mut Maps, ctx: &Ctx, results: &Vec<bool>) -> (r: ListStep)
        ensures
            cleans(
                old(maps)@,
                final(maps)@,
                *ctx,
                self@.scope,
                self@.stale,
                self@.next,
                self@.changed || any_change(results@),
                r,
            ),
    {
        proof {
            use_type_invariant(&self);
        }
        let changed = any_changed(results) || self.changed;
        clean_next(maps, ctx, self.scope, self.stale, self.next, changed)
    }
}

impl ListStep {
    /// The script was run, or the URL requested.
    pub fn notified(notice: Notice, outcome: Result<(), String>) -> (r: ListStep)
        ensures
            match (notice, outcome) {
                (Notice::Script { .. }, Err(message)) => r == ListStep::Finished(
                    Err(WErr::Other(message)),
                ),
                (Notice::Script { request_url: Some(url), .. }, Ok(_)) => r matches ListStep::Notify(n)
                    && n@ == (NoticeModel::Request { url: url@ }),
                _ => r == ListStep::Finished(Ok(())),
            },
    {
        match notice.done(outcome) {
            Err(e) => ListStep::Finished(Err(e)),
            Ok(Some(n)) => ListStep::Notify(n),
            Ok(None) => ListStep::Finished(Ok(())),
        }
    }
}

// ---------------------------------------------------------------------------
// Reading
// ---------------------------------------------------------------------------

/// The message that a sync begins.
pub open spec fn list_banner(kind: Kind, namespace: Seq<char>) -> Seq<char> {
    "Performing list-based sync on "@ + kind_name(kind) + " resources: "@ + (if namespace == "ALL"@ {
        "{}"@
    } else {
        "{'namespace': '"@ + namespace + "'}"@
    })
}

/// The scope is that of these arguments.
pub open spec fn is_scope(
    scope: Scope,
    kind: Kind,
    namespace: Seq<char>,
    request_url: Option<Seq<char>>,
    ignore_already_processed: bool,
) -> bool {
    &&& scope.kind == kind
    &&& scope.namespace@ == namespace
    &&& opt_view(scope.request_url) == request_url
    &&& scope.ignore_already_processed == ignore_already_processed
}

/// Starts a sync from lists: resources that are wanted by name are read one
/// by one, and otherwise all that the selector finds, page by page.
pub fn list_resources(
    ctx: &Ctx,
    kind: Kind,
    namespace: &str,
    request_url: Option<String>,
    ignore_already_processed: bool,
) -> (r: (LogEntry, ListStep))
    ensures
        r.0@ == (Level::Info, list_banner(kind, namespace@)),
        ({
            let names = wanted_names(ctx.resource_name@, namespace@, kind);
            if names.len() > 0 {
                &&& r.1 matches ListStep::Read(reading)
                &&& is_scope(
                    reading.scope,
                    kind,
                    namespace@,
                    opt_view(request_url),
                    ignore_already_processed,
                )
                &&& views(reading.names@) == names
                &&& reading.next == 0
                &&& reading.items@.len() == 0
            } else {
                &&& r.1 matches ListStep::Page(paging)
                &&& is_scope(
                    paging.scope,
                    kind,
                    namespace@,
                    opt_view(request_url),
                    ignore_already_processed,
                )
                &&& paging.selector@ == selector_text(ctx.label@, opt_view(ctx.label_value))
                &&& paging.limit == PAGE_LIMIT
                &&& paging.token is None
                &&& paging.items@.len() == 0
            }
        }),
{
    let args = if same(namespace, "ALL") {
        "{}".to_string()
    } else {
        cat3("{'namespace': '", namespace, "'}")
    };
    let message = cat4(
        "Performing list-based sync on ",
        kind.as_str(),
        " resources: ",
        args.as_str(),
    );
    let banner = LogEntry { level: Level::Info, message };
    let scope = Scope {
        kind,
        namespace: namespace.to_string(),
        request_url,
        ignore_already_processed,
    };
    let names = resource_names(ctx.resource_name.as_str(), namespace, kind);
    assert(views(names@).len() == names@.len());
    let items: Vec<Item> = Vec::new();
    if names.len() > 0 {
        (banner, ListStep::Read(Reading { scope, names, next: 0, items }))
    } else {
        let paging = Paging {
            scope,
            selector: ctx.selector(),
            limit: PAGE_LIMIT,
            token: None,
            items,
        };
        (banner, ListStep::Page(paging))
    }
}

/// All resources have been read, and are processed from the first one on.
pub open spec fn starts(
    before: MapsModel,
    after: MapsModel,
    ctx: Ctx,
    scope: Scope,
    items: Seq<ItemModel>,
    step: ListStep,
) -> bool {
    syncs(before, after, ctx, scope, items, 0, false, step)
}

fn start_sync(maps: &mut Maps, ctx: &Ctx, scope: Scope, items: Vec<Item>) -> (r: ListStep)
    ensures
        starts(old(maps)@, final(maps)@, *ctx, scope, item_views(items@), r),
{
    let keys: Vec<String> = Vec::new();
    assert(views(keys@) =~= item_keys(item_views(items@).take(0)));
    sync_next(maps, ctx, scope, items, 0, keys, false)
}

/// The items read so far, with the one that was found.
pub open spec fn with_found(items: Seq<ItemModel>, found: Option<Item>) -> Seq<ItemModel> {
    match found {
        Some(item) => items.push(item@),
        None => items,
    }
}

impl Reading {
    /// The name of the resource to be read.
    pub fn name(&self) -> (r: Option<&String>)
        ensures
            match r {
                Some(name) => self.next < self.names@.len() && name@ == views(self.names@)[self.next as int],
                None => self.next >= self.names@.len(),
            },
    {
        if self.next < self.names.len() {
            Some(&self.names[self.next])
        } else {
            None
        }
    }

    /// The resource was read, or there is none with the name, or that failed.
    pub fn read(self, maps: &mut Maps, ctx: &Ctx, outcome: Result<Option<Item>, KubeError>) -> (r: ListStep)
        ensures
            match outcome {
                Err(e) => r == ListStep::Finished(Err(WErr::Kube(e))) && final(maps)@ == old(maps)@,
                Ok(found) => if self.next + 1 < self.names@.len() {
                    &&& r matches ListStep::Read(reading)
                    &&& reading.scope == self.scope
                    &&& reading.names == self.names
                    &&& reading.next == self.next + 1
                    &&& item_views(reading.items@) == with_found(item_views(self.items@), found)
                    &&& final(maps)@ == old(maps)@
                } else {
                    starts(
                        old(maps)@,
                        final(maps)@,
                        *ctx,
                        self.scope,
                        with_found(item_views(self.items@), found),
                        r,
                    )
                },
            },
    {
        let found = match outcome {
            Err(e) => {
                return ListStep::Finished(Err(WErr::Kube(e)));
            },
            Ok(found) => found,
        };
        let mut items = self.items;
        let ghost before = items@;
        let ghost wanted = with_found(item_views(before), found);
        if let Some(item) = found {
            items.push(item);
            assert(item_views(items@) =~= item_views(before).push(item@));
        }
        assert(item_views(items@) == wanted);
        if self.next < self.names.len() && self.names.len() - self.next > 1 {
            ListStep::Read(
                Reading { scope: self.scope, names: self.names, next: self.next + 1, items },
            )
        } else {
            start_sync(maps, ctx, self.scope, items)
        }
    }
}

impl Paging {
    /// The page was read, and has a token for the next one or not, or that
    /// failed.
    pub fn read(
        self,
        maps: &mut Maps,
        ctx: &Ctx,
        outcome: Result<(Vec<Item>, Option<String>), KubeError>,
    ) -> (r: ListStep)
        ensures
            match outcome {
                Err(e) => r == ListStep::Finished(Err(WErr::Kube(e))) && final(maps)@ == old(maps)@,
                Ok((page, token)) => if token is Some {
                    &&& r matches ListStep::Page(paging)
                    &&& paging.scope == self.scope
                    &&& paging.selector == self.selector
                    &&& paging.limit == self.limit
                    &&& paging.token == token
                    &&& item_views(paging.items@) == item_views(self.items@) + item_views(page@)
                    &&& final(maps)@ == old(maps)@
                } else {
                    starts(
                        old(maps)@,
                        final(maps)@,
                        *ctx,
                        self.scope,
                        item_views(self.items@) + item_views(page@),
                        r,
                    )
                },
            },
    {
        let (page, token) = match outcome {
            Err(e) => {
                return ListStep::Finished(Err(WErr::Kube(e)));
            },
            Ok(found) => found,
        };
        let mut page = page;
        let mut items = self.items;
        let ghost before = items@;
        let ghost added = page@;
        items.append(&mut page);
        assert(item_views(items@) =~= item_views(before) + item_views(added));
        if token.is_some() {
            ListStep::Page(
                Paging {
                    scope: self.scope,
                    selector: self.selector,
                    limit: self.limit,
                    token,
                    items,
                },
            )
        } else {
            start_sync(maps, ctx, self.scope, items)
        }
    }
}

} // verus!
