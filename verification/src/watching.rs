//! Syncing from a watch connection: each change of a resource is processed as
//! it arrives, and the script is run and the URL requested after each one that
//! changes a file.

use vstd::prelude::*;

use crate::cache::{same_but, Maps, MapsModel};
use crate::health::{mark_ready, update_k8s_contact, Health};
use crate::kubeapi::{event_name, kind_name, EventType, Item, ItemModel, Kind, WatchEvent};
use crate::listing::{is_current, is_scope, item_text, remembered_at};
use crate::logger::{Level, LogEntry};
use crate::number::{decimal, decimal_string};
use crate::ordered::updated;
use crate::plan::{log_step, process_resource, processed, step_views, Step, StepModel};
use crate::resources::{
    any_change, any_changed, destination, folder_steps, follow_changes, follow_up,
    get_destination_folder, selector_text, Ctx, Notice, NoticeModel, Scope, WErr,
};
use crate::text::{cat3, cat4, cat5, opt_view, same};

verus! {

// ---------------------------------------------------------------------------
// Steps
// ---------------------------------------------------------------------------

/// A watch connection.
pub struct Watching {
    pub scope: Scope,
    /// Whether no event has arrived yet.
    pub first_event: bool,
}

/// An event that is processed: the steps to be done for it.
pub struct Watched {
    pub scope: Scope,
    pub steps: Vec<Step>,
}

/// What is to be done next on a watch connection.
pub enum WatchStep {
    /// Wait for the next event, then call [`Watching::event`].
    Next(Watching),
    /// Do the steps, then call [`Watched::applied`].
    Apply(Watched),
    /// Do so, then call [`WatchStep::notified`].
    Notify(Notice, Watching),
    /// The connection is over.
    Finished(Result<(), WErr>),
}

// ---------------------------------------------------------------------------
// What happens to one resource
// ---------------------------------------------------------------------------

/// An event is passed over: the resource is there in the version that was
/// processed last.
pub open spec fn event_skips(maps: MapsModel, scope: Scope, event: EventType, item: ItemModel) -> bool {
    scope.ignore_already_processed && event != EventType::Deleted && is_current(maps, scope.kind, item)
}

/// An event as log messages show it.
pub open spec fn event_text(kind: Kind, event: EventType, item: ItemModel) -> Seq<char> {
    event_name(event) + " "@ + kind_name(kind) + " "@ + item_text(item)
}

/// What is done for an event.
pub open spec fn event_steps(
    maps: MapsModel,
    ctx: Ctx,
    scope: Scope,
    event: EventType,
    item: ItemModel,
) -> Seq<StepModel> {
    if event_skips(maps, scope, event, item) {
        seq![log_step(Level::Debug, "Ignoring "@ + event_text(scope.kind, event, item))]
    } else {
        seq![log_step(Level::Debug, "Working on "@ + event_text(scope.kind, event, item))]
            + folder_steps(ctx, item) + processed(
            maps,
            scope.kind,
            item,
            destination(ctx, item),
            event == EventType::Deleted,
        )
    }
}

/// How the versions change by an event that is not passed over: that of a
/// resource that is there is noted, and that of one that is gone is forgotten
/// if it is the one that was processed last.
pub open spec fn event_versions(
    before: MapsModel,
    after: MapsModel,
    scope: Scope,
    event: EventType,
    item: ItemModel,
) -> bool {
    let kind = scope.kind;
    if scope.ignore_already_processed && event != EventType::Deleted {
        updated(
            before.of(kind).version,
            after.of(kind).version,
            item.key(),
            Some(item.resource_version),
        )
    } else if scope.ignore_already_processed && is_current(before, kind, item) {
        updated(before.of(kind).version, after.of(kind).version, item.key(), None)
    } else {
        after.of(kind).version == before.of(kind).version
    }
}

/// What is remembered after an event.
pub open spec fn event_maps(
    before: MapsModel,
    after: MapsModel,
    ctx: Ctx,
    scope: Scope,
    event: EventType,
    item: ItemModel,
) -> bool {
    let kind = scope.kind;
    &&& same_but(before, after, kind)
    &&& if event_skips(before, scope, event, item) {
        after.of(kind) == before.of(kind)
    } else {
        &&& event_versions(before, after, scope, event, item)
        &&& remembered_at(
            before.of(kind),
            after.of(kind),
            item,
            destination(ctx, item),
            event == EventType::Deleted,
        )
    }
}

fn event_line(text: &str, event: EventType, kind: Kind, item: &Item) -> (r: Step)
    ensures
        r@ == log_step(Level::Debug, text@ + event_text(kind, event, item@)),
{
    let shown = cat3(item.namespace.as_str(), "/", item.name.as_str());
    let about = cat5(event.as_str(), " ", kind.as_str(), " ", shown.as_str());
    let mut message = text.to_string();
    message.append(about.as_str());
    Step::Log(LogEntry { level: Level::Debug, message })
}

/// Processes an event, and says what is to be done for it.
fn process_event(maps: &mut Maps, ctx: &Ctx, scope: &Scope, event: EventType, item: &Item) -> (r: Vec<Step>)
    ensures
        step_views(r@) == event_steps(old(maps)@, *ctx, *scope, event, item@),
        event_maps(old(maps)@, final(maps)@, *ctx, *scope, event, item@),
{
    let mut steps: Vec<Step> = Vec::new();
    let ghost before = maps@;
    let kind = scope.kind;
    let removed = event == EventType::Deleted;
    if scope.ignore_already_processed {
        let key = item.key();
        let current = maps.of(kind).is_current(key.as_str(), item.resource_version.as_str());
        if current && !removed {
            steps.push(event_line("Ignoring ", event, kind, item));
            assert(step_views(steps@) =~= event_steps(before, *ctx, *scope, event, item@));
            return steps;
        }
        if removed {
            if current {
                maps.of_mut(kind).forget_version(key.as_str());
            }
        } else {
            maps.of_mut(kind).note_version(key.as_str(), item.resource_version.as_str());
        }
    }
    let ghost noted = maps@;
    steps.push(event_line("Working on ", event, kind, item));
    let (dest, found) = get_destination_folder(item, ctx);
    if let Some(entry) = found {
        steps.push(Step::Log(entry));
    }
    let ghost head = step_views(steps@);
    assert(head =~= seq![log_step(Level::Debug, "Working on "@ + event_text(kind, event, item@))]
        + folder_steps(*ctx, item@));
    let mut rest = process_resource(maps, kind, item, Some(dest.as_str()), removed);
    let ghost rest_steps = step_views(rest@);
    assert(processed(noted, kind, item@, dest@, removed) == processed(
        before,
        kind,
        item@,
        dest@,
        removed,
    ));
    steps.append(&mut rest);
    assert(step_views(steps@) =~= head + rest_steps);
    steps
}

// ---------------------------------------------------------------------------
// The connection
// ---------------------------------------------------------------------------

/// The message that a watch connection is made.
pub open spec fn watch_banner(ctx: Ctx, kind: Kind, namespace: Seq<char>) -> Seq<char> {
    "Performing watch-based sync on "@ + kind_name(kind) + " resources: {'label_selector': '"@
        + selector_text(ctx.label@, opt_view(ctx.label_value)) + "', 'timeout_seconds': "@ + decimal(
        ctx.watch_server_timeout as nat,
    ) + ", '_request_timeout': "@ + decimal(ctx.watch_client_timeout as nat) + (if namespace == "ALL"@ {
        ""@
    } else {
        ", 'namespace': '"@ + namespace + "'"@
    }) + "}"@
}

/// The parameters of a watch connection.
pub struct WatchParams {
    /// To be logged first.
    pub banner: LogEntry,
    pub selector: String,
    /// After how many seconds the server ends the connection.
    pub timeout: u32,
}

/// Starts a watch connection.
pub fn watch_resource_iterator(
    ctx: &Ctx,
    kind: Kind,
    namespace: &str,
    request_url: Option<String>,
    ignore_already_processed: bool,
) -> (r: (WatchParams, Watching))
    ensures
        r.0.banner@ == (Level::Debug, watch_banner(*ctx, kind, namespace@)),
        r.0.selector@ == selector_text(ctx.label@, opt_view(ctx.label_value)),
        r.0.timeout == ctx.watch_server_timeout % 0x1_0000_0000,
        is_scope(r.1.scope, kind, namespace@, opt_view(request_url), ignore_already_processed),
        r.1.first_event,
{
    let selector = ctx.selector();
    let mut message = cat4(
        "Performing watch-based sync on ",
        kind.as_str(),
        " resources: {'label_selector': '",
        selector.as_str(),
    );
    message.append("', 'timeout_seconds': ");
    message.append(decimal_string(ctx.watch_server_timeout).as_str());
    message.append(", '_request_timeout': ");
    message.append(decimal_string(ctx.watch_client_timeout).as_str());
    let scoped = if same(namespace, "ALL") {
        "".to_string()
    } else {
        cat3(", 'namespace': '", namespace, "'")
    };
    message.append(scoped.as_str());
    message.append("}");
    let low: u64 = ctx.watch_server_timeout % 0x1_0000_0000;
    let params = WatchParams {
        banner: LogEntry { level: Level::Debug, message },
        selector,
        timeout: low as u32,
    };
    let scope = Scope {
        kind,
        namespace: namespace.to_string(),
        request_url,
        ignore_already_processed,
    };
    (params, Watching { scope, first_event: true })
}

/// The health after an event arrived at `now_ms`: with the first event of a
/// connection the sidecar is ready.
pub open spec fn heard_of(before: Health, after: Health, first_event: bool, now_ms: u64) -> bool {
    &&& after.ready == (before.ready || first_event)
    &&& after.last_contact_ms == now_ms
    &&& after.watchers == before.watchers
}

impl Watching {
    /// An event arrived at `now_ms`, or the connection ended or failed.
    pub fn event(
        self,
        maps: &mut Maps,
        ctx: &Ctx,
        health: &mut Health,
        now_ms: u64,
        event: Option<WatchEvent>,
    ) -> (r: WatchStep)
        ensures
            match event {
                None => {
                    &&& r == WatchStep::Finished(Ok(()))
                    &&& final(maps)@ == old(maps)@
                    &&& *final(health) == *old(health)
                },
                Some(Err(e)) => {
                    &&& r == WatchStep::Finished(Err(WErr::Kube(e)))
                    &&& final(maps)@ == old(maps)@
                    &&& *final(health) == *old(health)
                },
                Some(Ok((event_type, item))) => {
                    &&& r matches WatchStep::Apply(w)
                    &&& w.scope == self.scope
                    &&& step_views(w.steps@) == event_steps(
                        old(maps)@,
                        *ctx,
                        self.scope,
                        event_type,
                        item@,
                    )
                    &&& event_maps(
                        old(maps)@,
                        final(maps)@,
                        *ctx,
                        self.scope,
                        event_type,
                        item@,
                    )
                    &&& heard_of(*old(health), *final(health), self.first_event, now_ms)
                },
            },
    {
        match event {
            None => WatchStep::Finished(Ok(())),
            Some(Err(e)) => WatchStep::Finished(Err(WErr::Kube(e))),
            Some(Ok((event_type, item))) => {
                if self.first_event {
                    mark_ready(health);
                }
                update_k8s_contact(health, now_ms);
                let steps = process_event(maps, ctx, &self.scope, event_type, &item);
                WatchStep::Apply(Watched { scope: self.scope, steps })
            },
        }
    }
}

/// The next event of a connection on which some have arrived is waited for.
pub open spec fn waits(scope: Scope, step: WatchStep) -> bool {
    step matches WatchStep::Next(w) && w == (Watching { scope, first_event: false })
}

impl Watched {
    /// The steps were done; for each file, whether it has changed.
    pub fn applied(self, ctx: &Ctx, results: &Vec<bool>) -> (r: WatchStep)
        ensures
            match follow_up(
                any_change(results@),
                opt_view(ctx.script),
                opt_view(self.scope.request_url),
            ) {
                Some(n) => {
                    &&& r matches WatchStep::Notify(notice, w)
                    &&& notice@ == n
                    &&& w == (Watching { scope: self.scope, first_event: false })
                },
                None => waits(self.scope, r),
            },
    {
        let changed = any_changed(results);
        match follow_changes(changed, &ctx.script, &self.scope.request_url) {
            Some(notice) => WatchStep::Notify(
                notice,
                Watching { scope: self.scope, first_event: false },
            ),
            None => WatchStep::Next(Watching { scope: self.scope, first_event: false }),
        }
    }
}

impl WatchStep {
    /// The script was run, or the URL requested.
    pub fn notified(notice: Notice, watching: Watching, outcome: Result<(), String>) -> (r: WatchStep)
        ensures
            match (notice, outcome) {
                (Notice::Script { .. }, Err(message)) => r == WatchStep::Finished(
                    Err(WErr::Other(message)),
                ),
                (Notice::Script { request_url: Some(url), .. }, Ok(_)) => {
                    &&& r matches WatchStep::Notify(n, w)
                    &&& n@ == (NoticeModel::Request { url: url@ })
                    &&& w == watching
                },
                _ => r == WatchStep::Next(watching),
            },
    {
        match notice.done(outcome) {
            Err(e) => WatchStep::Finished(Err(e)),
            Ok(Some(n)) => WatchStep::Notify(n, watching),
            Ok(None) => WatchStep::Next(watching),
        }
    }
}

} // verus!
