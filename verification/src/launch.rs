//! The way from the environment to running watchers, step by step: what is to
//! be done next, what is logged, and where the program ends.

use vstd::prelude::*;

use crate::env::{is_true, setting, EnvVars};
use crate::health::{mark_ready, Health};
use crate::kubeapi::Kind;
use crate::logger::{entry_views, Level, LogEntry};
use crate::resources::{error_text, werr_to_string, Ctx, WErr};
use crate::startup::{
    allows_ignore, chosen_namespace, decide_ignore, features_log, first_log, first_sync, is_ctx,
    is_features, is_first, is_settings, make_ctx, namespace_failure, namespace_failure_text, note,
    or_default, read_features, read_settings, settings_log, target_views, targets_of, version_log,
    wants_ignore, watch_targets, Features, FirstSync, Settings, Version,
};
use crate::text::{copy_opt, opt_view, pieces};

verus! {

/// What is known once there is a client for the cluster.
pub struct Prepared {
    pub settings: Settings,
    pub features: Features,
    /// Whether versions that were processed before are ignored.
    pub ignore_already_processed: bool,
}

/// What is known once all is decided.
pub struct Launch {
    pub ctx: Ctx,
    /// The kinds and namespaces to sync, each with a watcher of its own.
    pub targets: Vec<(Kind, String)>,
    pub first: FirstSync,
    /// The URL that the watchers request after changes.
    pub request_url: Option<String>,
    /// Whether the watchers ignore versions that were processed before.
    pub ignore_already_processed: bool,
    /// How many of the targets were synced for the first time.
    pub done: usize,
}

/// What is to be done next.
pub enum Stage {
    /// Set up the client, then call [`connected`].
    Connect(Settings),
    /// Ask the cluster for its version, then call
    /// [`Prepared::version_received`].
    AskVersion(Prepared),
    /// Read the namespace of the service account, then call
    /// [`Prepared::namespace_read`].
    ReadNamespace(Prepared),
    /// Sync target number `done` from a list, then call [`Launch::synced`].
    Sync(Launch),
    /// Run a watcher for each of the targets.
    Watch(Launch),
    /// End the program with this exit code.
    Exit(i32),
}

/// Begins: reads the settings. Without a label or a folder the program ends
/// well.
pub fn start(vars: &EnvVars) -> (r: (Vec<LogEntry>, Stage))
    ensures
        entry_views(r.0@) == settings_log(vars@),
        if setting(vars@, "LABEL"@) is Some && setting(vars@, "FOLDER"@) is Some {
            r.1 is Connect && is_settings(r.1->Connect_0, vars@)
        } else {
            r.1 == Stage::Exit(0)
        },
{
    let (log, settings) = read_settings(vars);
    match settings {
        Some(s) => (log, Stage::Connect(s)),
        None => (log, Stage::Exit(0)),
    }
}

/// A client was set up, or not, which ends the program. The version of the
/// cluster is asked for only if versions are to be ignored.
pub fn connected(settings: Settings, vars: &EnvVars, outcome: Result<(), String>) -> (r: (
    Vec<LogEntry>,
    Stage,
))
    ensures
        match outcome {
            Err(e) => {
                &&& entry_views(r.0@) == seq![(Level::Error, e@)]
                &&& r.1 == Stage::Exit(1)
            },
            Ok(_) => if is_true(vars@, "IGNORE_ALREADY_PROCESSED"@) {
                &&& r.1 matches Stage::AskVersion(p)
                &&& p.settings == settings
                &&& is_features(p.features, vars@)
                &&& entry_views(r.0@) == features_log(p.features)
            } else {
                &&& r.1 matches Stage::ReadNamespace(p)
                &&& p.settings == settings
                &&& is_features(p.features, vars@)
                &&& !p.ignore_already_processed
                &&& entry_views(r.0@) == features_log(p.features) + version_log(None)
            },
        },
{
    if let Err(e) = outcome {
        let mut log: Vec<LogEntry> = Vec::new();
        assert(entry_views(log@) =~= Seq::empty());
        note(&mut log, Level::Error, e);
        return (log, Stage::Exit(1));
    }
    let (mut log, features) = read_features(vars);
    let prepared = Prepared { settings, features, ignore_already_processed: false };
    if wants_ignore(vars) {
        return (log, Stage::AskVersion(prepared));
    }
    let (mut more, _) = decide_ignore(None);
    let ghost first = log@;
    let ghost second = more@;
    log.append(&mut more);
    assert(entry_views(log@) =~= entry_views(first) + entry_views(second));
    (log, Stage::ReadNamespace(prepared))
}

/// This is decided once the namespace of the service account is known, with
/// no target synced yet.
pub open spec fn is_launch(
    launch: Launch,
    prepared: Prepared,
    vars: Map<Seq<char>, Seq<char>>,
    service_account: Seq<char>,
) -> bool {
    &&& is_ctx(launch.ctx, prepared.settings, prepared.features, vars)
    &&& target_views(launch.targets@) == targets_of(
        prepared.settings.kinds@,
        pieces(or_default(setting(vars, "NAMESPACE"@), service_account), ','),
    )
    &&& is_first(
        launch.first,
        setting(vars, "METHOD"@),
        prepared.settings,
        prepared.ignore_already_processed,
    )
    &&& opt_view(launch.request_url) == opt_view(prepared.settings.request_url)
    &&& launch.ignore_already_processed == prepared.ignore_already_processed
    &&& launch.done == 0
}

impl Prepared {
    /// The cluster said its version, or failed to.
    pub fn version_received(self, version: Result<Version, ()>) -> (r: (Vec<LogEntry>, Stage))
        ensures
            entry_views(r.0@) == version_log(Some(version)),
            r.1 == Stage::ReadNamespace(
                (Prepared { ignore_already_processed: allows_ignore(Some(version)), ..self }),
            ),
    {
        let (log, ignore_already_processed) = decide_ignore(Some(version));
        (
            log,
            Stage::ReadNamespace(
                Prepared {
                    settings: self.settings,
                    features: self.features,
                    ignore_already_processed,
                },
            ),
        )
    }

    /// The namespace of the service account was read, or not, which ends the
    /// program.
    pub fn namespace_read(
        self,
        vars: &EnvVars,
        health: &mut Health,
        read: Result<String, String>,
    ) -> (r: (Vec<LogEntry>, Stage))
        ensures
            match read {
                Err(e) => {
                    &&& entry_views(r.0@) == seq![(Level::Error, namespace_failure_text(e@))]
                    &&& r.1 == Stage::Exit(1)
                    &&& *final(health) == *old(health)
                },
                Ok(namespace) => exists|launch: Launch, log: Seq<(Level, Seq<char>)>|
                    {
                        &&& is_launch(launch, self, vars@, namespace@)
                        &&& #[trigger] goes_on(launch, *old(health), log, r.1, *final(health))
                        &&& entry_views(r.0@) == first_log(
                            setting(vars@, "METHOD"@),
                            self.settings.request_skip_init,
                        ) + log
                    },
            },
    {
        let service_account = match read {
            Ok(ns) => ns,
            Err(e) => {
                let mut log: Vec<LogEntry> = Vec::new();
                let entry = namespace_failure(e.as_str());
                log.push(entry);
                assert(entry_views(log@) =~= seq![entry@]);
                return (log, Stage::Exit(1));
            },
        };
        let namespace = chosen_namespace(vars, service_account);
        let targets = watch_targets(&self.settings.kinds, namespace.as_str());
        let ctx = make_ctx(&self.settings, &self.features, vars);
        let mut first = first_sync(&ctx, &self.settings, self.ignore_already_processed);
        let mut log: Vec<LogEntry> = Vec::new();
        log.append(&mut first.log);
        let launch = Launch {
            ctx,
            targets,
            first,
            request_url: copy_opt(&self.settings.request_url),
            ignore_already_processed: self.ignore_already_processed,
            done: 0,
        };
        let ghost model = launch;
        let ghost before = log@;
        let (mut more, stage) = launch.proceed(health);
        let ghost after = more@;
        log.append(&mut more);
        proof {
            assert(entry_views(log@) =~= entry_views(before) + entry_views(after));
            assert(goes_on(model, *old(health), entry_views(after), stage, *health));
        }
        (log, stage)
    }
}

/// What follows when as many targets as `launch` says were synced: the next
/// one; or, after the last one, the sidecar is ready, and its watchers run if
/// it is to watch.
pub open spec fn goes_on(
    launch: Launch,
    health: Health,
    log: Seq<(Level, Seq<char>)>,
    stage: Stage,
    health_after: Health,
) -> bool {
    if launch.done < launch.targets@.len() {
        &&& stage == Stage::Sync(launch)
        &&& log == Seq::<(Level, Seq<char>)>::empty()
        &&& health_after == health
    } else if launch.first.watches {
        &&& stage == Stage::Watch(launch)
        &&& log == seq![(Level::Info, "Initial sync complete, sidecar is ready."@)]
        &&& health_after == (Health { ready: true, ..health })
    } else {
        &&& stage == Stage::Exit(0)
        &&& log == Seq::<(Level, Seq<char>)>::empty()
        &&& health_after == (Health { ready: true, ..health })
    }
}

/// One more target was synced, if there is one.
pub open spec fn one_more(launch: Launch) -> Launch {
    if launch.done < launch.targets@.len() {
        Launch { done: (launch.done + 1) as usize, ..launch }
    } else {
        launch
    }
}

/// The sidecar becomes ready when every target was synced, and not before; and
/// watchers run only then.
pub proof fn ready_when_all_is_synced(
    launch: Launch,
    health: Health,
    log: Seq<(Level, Seq<char>)>,
    stage: Stage,
    health_after: Health,
)
    requires
        !health.ready,
        goes_on(launch, health, log, stage, health_after),
    ensures
        health_after.ready <==> launch.done >= launch.targets@.len(),
        stage is Watch ==> health_after.ready,
{
}

/// What follows the first sync of a target.
pub enum StartStep {
    /// Log, and end the program with this exit code.
    Failed(LogEntry, i32),
    /// Sync the target with this number.
    Sync(usize),
    /// The sidecar is ready. The program goes on if it watches, and else it
    /// ends.
    Ready { watches: bool },
}

/// What follows when `done` targets have been synced for the first time, the
/// last one with this outcome: a failure ends the program.
pub fn next_start(
    targets: &Vec<(Kind, String)>,
    done: usize,
    outcome: Result<(), WErr>,
    first: &FirstSync,
) -> (r: StartStep)
    ensures
        match outcome {
            Err(e) => {
                &&& r matches StartStep::Failed(entry, code)
                &&& entry@ == (Level::Error, error_text(e))
                &&& code == 1
            },
            Ok(_) => r == (if done < targets@.len() {
                StartStep::Sync(done)
            } else {
                StartStep::Ready { watches: first.watches }
            }),
        },
{
    match outcome {
        Err(e) => {
            let message = werr_to_string(&e);
            StartStep::Failed(LogEntry { level: Level::Error, message }, 1)
        },
        Ok(_) => if done < targets.len() {
            StartStep::Sync(done)
        } else {
            StartStep::Ready { watches: first.watches }
        },
    }
}

impl Launch {
    /// As many targets as `done` says were synced.
    fn proceed(self, health: &mut Health) -> (r: (Vec<LogEntry>, Stage))
        ensures
            goes_on(self, *old(health), entry_views(r.0@), r.1, *final(health)),
    {
        let mut log: Vec<LogEntry> = Vec::new();
        assert(entry_views(log@) =~= Seq::empty());
        match next_start(&self.targets, self.done, Ok(()), &self.first) {
            StartStep::Ready { watches } => {
                mark_ready(health);
                if watches {
                    note(
                        &mut log,
                        Level::Info,
                        "Initial sync complete, sidecar is ready.".to_string(),
                    );
                    assert(entry_views(log@) =~= seq![
                        (Level::Info, "Initial sync complete, sidecar is ready."@),
                    ]);
                    (log, Stage::Watch(self))
                } else {
                    (log, Stage::Exit(0))
                }
            },
            _ => (log, Stage::Sync(self)),
        }
    }

    /// Target number `done` was synced, or not, which ends the program.
    pub fn synced(self, health: &mut Health, outcome: Result<(), WErr>) -> (r: (Vec<LogEntry>, Stage))
        ensures
            match outcome {
                Err(e) => {
                    &&& entry_views(r.0@) == seq![(Level::Error, error_text(e))]
                    &&& r.1 == Stage::Exit(1)
                    &&& *final(health) == *old(health)
                },
                Ok(_) => goes_on(
                    one_more(self),
                    *old(health),
                    entry_views(r.0@),
                    r.1,
                    *final(health),
                ),
            },
    {
        let done: usize = if self.done < self.targets.len() {
            self.done + 1
        } else {
            self.done
        };
        match next_start(&self.targets, done, outcome, &self.first) {
            StartStep::Failed(entry, code) => {
                let mut log: Vec<LogEntry> = Vec::new();
                log.push(entry);
                assert(entry_views(log@) =~= seq![entry@]);
                (log, Stage::Exit(code))
            },
            _ => {
                let launch = Launch {
                    ctx: self.ctx,
                    targets: self.targets,
                    first: self.first,
                    request_url: self.request_url,
                    ignore_already_processed: self.ignore_already_processed,
                    done,
                };
                launch.proceed(health)
            },
        }
    }
}

/// What is logged when the program is asked to end, and its exit code.
pub fn terminated() -> (r: (LogEntry, i32))
    ensures
        r.0@ == (Level::Info, "Subprocess exiting gracefully"@),
        r.1 == 0,
{
    (
        LogEntry { level: Level::Info, message: "Subprocess exiting gracefully".to_string() },
        0,
    )
}

} // verus!
