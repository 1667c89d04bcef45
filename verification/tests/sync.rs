use k8s_sidecar::cache::Maps;
use k8s_sidecar::health::Health;
use k8s_sidecar::kubeapi::{EventType, Item, Kind, KubeError};
use k8s_sidecar::listing::{list_resources, ListStep};
use k8s_sidecar::ordered::OrderedMap;
use k8s_sidecar::plan::Step;
use k8s_sidecar::resources::{Ctx, Notice, WErr};
use k8s_sidecar::watching::{watch_resource_iterator, WatchStep, Watching};

fn some(s: &str) -> Option<String> {
    Some(s.to_string())
}

fn ctx() -> Ctx {
    Ctx {
        label: "findme".to_string(),
        label_value: some("yes"),
        target_folder: "/data".to_string(),
        folder_annotation: "dir".to_string(),
        req_method: None,
        req_payload: None,
        script: None,
        unique_filenames: false,
        enable_5xx: false,
        resource_name: String::new(),
        mode: None,
        watch_server_timeout: 60,
        watch_client_timeout: 66,
    }
}

fn item(namespace: &str, name: &str, version: &str, keys: &[&str]) -> Item {
    let mut text = OrderedMap::new();
    for k in keys {
        text.insert(k.to_string(), "v".to_string());
    }
    Item {
        namespace: namespace.to_string(),
        name: name.to_string(),
        resource_version: version.to_string(),
        annotations: OrderedMap::new(),
        text: Some(text),
        binary: None,
    }
}

fn shown(steps: &[Step]) -> Vec<String> {
    steps
        .iter()
        .map(|s| match s {
            Step::Log(l) => l.message.clone(),
            Step::File(f) => {
                let verb = if f.remove { "rm" } else { "write" };
                format!("{} {}/{}", verb, f.folder, f.key)
            }
        })
        .collect()
}

/// Syncs from a list with these items, where every file counts as changed or
/// not, and returns all steps and what follows.
fn list_sync(
    maps: &mut Maps,
    c: &Ctx,
    namespace: &str,
    ignore: bool,
    changes: bool,
    items: Vec<Item>,
) -> (Vec<String>, ListStep) {
    let (_, step) = list_resources(c, Kind::ConfigMap, namespace, some("http://u"), ignore);
    let mut out = Vec::new();
    let mut step = match step {
        ListStep::Page(p) => p.read(maps, c, Ok((items, None))),
        other => other,
    };
    loop {
        step = match step {
            ListStep::Apply(s) => {
                out.extend(shown(s.steps()));
                let results = vec![changes; s.steps().len()];
                s.applied(maps, c, &results)
            }
            ListStep::Clean(s) => {
                out.extend(shown(s.steps()));
                let results = vec![changes; s.steps().len()];
                s.applied(maps, c, &results)
            }
            other => return (out, other),
        }
    }
}

#[test]
fn lists_are_announced() {
    let c = ctx();
    let (entry, _) = list_resources(&c, Kind::Secret, "ns", None, false);
    assert_eq!(
        entry.message,
        "Performing list-based sync on secret resources: {'namespace': 'ns'}"
    );
    let (entry, _) = list_resources(&c, Kind::ConfigMap, "ALL", None, false);
    assert_eq!(entry.message, "Performing list-based sync on configmap resources: {}");
}

#[test]
fn pages_are_read_until_there_is_no_token() {
    let c = ctx();
    let mut maps = Maps::new();
    let (_, step) = list_resources(&c, Kind::ConfigMap, "ns", None, false);
    let paging = match step {
        ListStep::Page(p) => p,
        _ => panic!("expected a page"),
    };
    assert_eq!(paging.limit, 5);
    assert_eq!(paging.selector, "findme=yes");
    assert_eq!(paging.token, None);
    let first = vec![item("ns", "a", "1", &["k"])];
    let paging = match paging.read(&mut maps, &c, Ok((first, some("t")))) {
        ListStep::Page(p) => p,
        _ => panic!("expected a page"),
    };
    assert_eq!(paging.token, some("t"));
    assert_eq!(paging.items.len(), 1);
    let second = vec![item("ns", "b", "1", &["k"])];
    let syncing = match paging.read(&mut maps, &c, Ok((second, None))) {
        ListStep::Apply(s) => s,
        _ => panic!("expected steps"),
    };
    assert_eq!(shown(syncing.steps())[0], "Working on configmap: ns/a");
    let syncing = match syncing.applied(&mut maps, &c, &vec![]) {
        ListStep::Apply(s) => s,
        _ => panic!("expected steps"),
    };
    assert_eq!(shown(syncing.steps())[0], "Working on configmap: ns/b");
    assert!(matches!(
        syncing.applied(&mut maps, &c, &vec![]),
        ListStep::Finished(Ok(()))
    ));
}

#[test]
fn named_resources_are_read_one_by_one() {
    let mut c = ctx();
    c.resource_name = "a,secret/b,c".to_string();
    let mut maps = Maps::new();
    let (_, step) = list_resources(&c, Kind::ConfigMap, "ns", None, false);
    let reading = match step {
        ListStep::Read(r) => r,
        _ => panic!("expected a name"),
    };
    assert_eq!(reading.name(), Some(&"a".to_string()));
    let reading = match reading.read(&mut maps, &c, Ok(None)) {
        ListStep::Read(r) => r,
        _ => panic!("expected a name"),
    };
    assert_eq!(reading.name(), Some(&"c".to_string()));
    match reading.read(&mut maps, &c, Ok(Some(item("ns", "c", "1", &["k"])))) {
        ListStep::Apply(s) => assert_eq!(
            shown(s.steps()),
            vec!["Working on configmap: ns/c", "Found 'data' on configmap", "write /data/k"]
        ),
        _ => panic!("expected steps"),
    }
    assert!(matches!(
        list_resources(&c, Kind::ConfigMap, "ALL", None, false).1,
        ListStep::Page(_)
    ));
}

#[test]
fn failed_calls_end_a_list() {
    let mut c = ctx();
    let mut maps = Maps::new();
    let lost = || KubeError::Transport("reset".to_string());
    match list_resources(&c, Kind::ConfigMap, "ns", None, false).1 {
        ListStep::Page(p) => assert!(matches!(
            p.read(&mut maps, &c, Err(lost())),
            ListStep::Finished(Err(WErr::Kube(KubeError::Transport(_))))
        )),
        _ => panic!("expected a page"),
    }
    c.resource_name = "a".to_string();
    match list_resources(&c, Kind::ConfigMap, "ns", None, false).1 {
        ListStep::Read(r) => assert!(matches!(
            r.read(&mut maps, &c, Err(lost())),
            ListStep::Finished(Err(WErr::Kube(KubeError::Transport(_))))
        )),
        _ => panic!("expected a name"),
    }
}

#[test]
fn stale_resources_are_removed() {
    let c = ctx();
    let mut maps = Maps::new();
    let both = vec![item("ns", "a", "1", &["k"]), item("ns", "b", "1", &["l"])];
    list_sync(&mut maps, &c, "ns", false, false, both);
    let (steps, _) = list_sync(&mut maps, &c, "ns", false, false, vec![item("ns", "a", "1", &["k"])]);
    assert_eq!(
        steps,
        vec![
            "Working on configmap: ns/a",
            "Found 'data' on configmap",
            "write /data/k",
            "Removing configmap: ns/b",
            "Found 'data' on configmap",
            "rm /data/l",
        ]
    );
    let (steps, _) = list_sync(&mut maps, &c, "ns", false, false, vec![]);
    assert_eq!(steps[0], "Removing configmap: ns/a");
    let (steps, _) = list_sync(&mut maps, &c, "ns", false, false, vec![]);
    assert!(steps.is_empty());
}

#[test]
fn other_namespaces_are_left_alone() {
    let c = ctx();
    let mut maps = Maps::new();
    list_sync(&mut maps, &c, "one", false, false, vec![item("one", "a", "1", &["k"])]);
    let (steps, _) = list_sync(&mut maps, &c, "two", false, false, vec![]);
    assert!(steps.is_empty());
    let (steps, _) = list_sync(&mut maps, &c, "ALL", false, false, vec![]);
    assert_eq!(steps[0], "Removing configmap: one/a");
}

#[test]
fn processed_versions_are_passed_over() {
    let c = ctx();
    let mut maps = Maps::new();
    let one = || vec![item("ns", "a", "1", &["k"])];
    let (steps, _) = list_sync(&mut maps, &c, "ns", true, false, one());
    assert_eq!(steps[0], "Working on configmap: ns/a");
    let (steps, _) = list_sync(&mut maps, &c, "ns", true, false, one());
    assert_eq!(steps, vec!["Ignoring configmap ns/a"]);
    let (steps, _) = list_sync(&mut maps, &c, "ns", true, false, vec![item("ns", "a", "2", &["k"])]);
    assert_eq!(steps[0], "Working on configmap: ns/a");
    let (steps, _) = list_sync(&mut maps, &c, "ns", false, false, vec![item("ns", "a", "2", &["k"])]);
    assert_eq!(steps[0], "Working on configmap: ns/a");
}

#[test]
fn notices_follow_changes_only() {
    let mut c = ctx();
    c.script = some("/s.sh");
    let mut maps = Maps::new();
    let one = || vec![item("ns", "a", "1", &["k"])];
    let (_, step) = list_sync(&mut maps, &c, "ns", false, false, one());
    assert!(matches!(step, ListStep::Finished(Ok(()))));
    let (_, step) = list_sync(&mut maps, &c, "ns", false, true, one());
    let notice = match step {
        ListStep::Notify(n) => n,
        _ => panic!("expected a notice"),
    };
    assert!(matches!(&notice, Notice::Script { path, .. } if path == "/s.sh"));
    let notice = match ListStep::notified(notice, Ok(())) {
        ListStep::Notify(n) => n,
        _ => panic!("expected a notice"),
    };
    assert!(matches!(&notice, Notice::Request { url } if url == "http://u"));
    assert!(matches!(ListStep::notified(notice, Ok(())), ListStep::Finished(Ok(()))));
    let (_, step) = list_sync(&mut maps, &c, "ns", false, true, one());
    match step {
        ListStep::Notify(n) => assert!(matches!(
            ListStep::notified(n, Err("lost".to_string())),
            ListStep::Finished(Err(WErr::Other(_)))
        )),
        _ => panic!("expected a notice"),
    }
}

fn watching(c: &Ctx, ignore: bool) -> Watching {
    watch_resource_iterator(c, Kind::ConfigMap, "ns", some("http://u"), ignore).1
}

fn event_steps(
    maps: &mut Maps,
    c: &Ctx,
    ignore: bool,
    event: EventType,
    it: Item,
) -> Vec<String> {
    let mut health = Health::new();
    match watching(c, ignore).event(maps, c, &mut health, 5, Some(Ok((event, it)))) {
        WatchStep::Apply(w) => shown(&w.steps),
        _ => panic!("expected steps"),
    }
}

#[test]
fn watches_are_announced() {
    let c = ctx();
    let (params, w) = watch_resource_iterator(&c, Kind::Secret, "ns", None, false);
    assert_eq!(
        params.banner.message,
        "Performing watch-based sync on secret resources: {'label_selector': 'findme=yes', \
         'timeout_seconds': 60, '_request_timeout': 66, 'namespace': 'ns'}"
    );
    assert_eq!(params.selector, "findme=yes");
    assert_eq!(params.timeout, 60);
    assert!(w.first_event);
    let mut c = ctx();
    c.watch_server_timeout = 4294967297;
    let (params, _) = watch_resource_iterator(&c, Kind::Secret, "ALL", None, false);
    assert_eq!(
        params.banner.message,
        "Performing watch-based sync on secret resources: {'label_selector': 'findme=yes', \
         'timeout_seconds': 4294967297, '_request_timeout': 66}"
    );
    assert_eq!(params.timeout, 1);
}

#[test]
fn events_make_the_sidecar_ready() {
    let c = ctx();
    let mut maps = Maps::new();
    let mut health = Health::new();
    let w = watching(&c, false);
    let event = Some(Ok((EventType::Added, item("ns", "a", "1", &["k"]))));
    let watched = match w.event(&mut maps, &c, &mut health, 1234, event) {
        WatchStep::Apply(w) => w,
        _ => panic!("expected steps"),
    };
    assert!(health.ready);
    assert_eq!(health.last_contact_ms, 1234);
    assert_eq!(
        shown(&watched.steps),
        vec!["Working on ADDED configmap ns/a", "Found 'data' on configmap", "write /data/k"]
    );
    let w = match watched.applied(&c, &vec![false]) {
        WatchStep::Next(w) => w,
        _ => panic!("expected to wait"),
    };
    assert!(!w.first_event);
    health.ready = false;
    let event = Some(Ok((EventType::Deleted, item("ns", "a", "1", &["k"]))));
    match w.event(&mut maps, &c, &mut health, 2000, event) {
        WatchStep::Apply(w) => assert_eq!(
            shown(&w.steps),
            vec!["Working on DELETED configmap ns/a", "Found 'data' on configmap", "rm /data/k"]
        ),
        _ => panic!("expected steps"),
    }
    assert!(!health.ready);
    assert_eq!(health.last_contact_ms, 2000);
}

#[test]
fn watches_end() {
    let c = ctx();
    let mut maps = Maps::new();
    let mut health = Health::new();
    assert!(matches!(
        watching(&c, false).event(&mut maps, &c, &mut health, 1, None),
        WatchStep::Finished(Ok(()))
    ));
    let lost = KubeError::Transport("reset".to_string());
    assert!(matches!(
        watching(&c, false).event(&mut maps, &c, &mut health, 1, Some(Err(lost))),
        WatchStep::Finished(Err(WErr::Kube(_)))
    ));
    assert!(!health.ready);
    assert_eq!(health.last_contact_ms, 0);
}

#[test]
fn reported_versions_are_passed_over_unless_deleted() {
    let c = ctx();
    let mut maps = Maps::new();
    let it = |v: &str| item("ns", "a", v, &["k"]);
    let first = |s: Vec<String>| s[0].clone();
    assert_eq!(
        first(event_steps(&mut maps, &c, true, EventType::Added, it("1"))),
        "Working on ADDED configmap ns/a"
    );
    assert_eq!(
        event_steps(&mut maps, &c, true, EventType::Modified, it("1")),
        vec!["Ignoring MODIFIED configmap ns/a"]
    );
    assert_eq!(
        first(event_steps(&mut maps, &c, true, EventType::Modified, it("2"))),
        "Working on MODIFIED configmap ns/a"
    );
    assert_eq!(
        first(event_steps(&mut maps, &c, true, EventType::Deleted, it("2"))),
        "Working on DELETED configmap ns/a"
    );
    assert_eq!(
        first(event_steps(&mut maps, &c, true, EventType::Added, it("2"))),
        "Working on ADDED configmap ns/a"
    );
    assert_eq!(
        first(event_steps(&mut maps, &c, false, EventType::Added, it("2"))),
        "Working on ADDED configmap ns/a"
    );
}

#[test]
fn deleting_another_version_keeps_the_noted_one() {
    let c = ctx();
    let mut maps = Maps::new();
    event_steps(&mut maps, &c, true, EventType::Added, item("ns", "a", "1", &["k"]));
    event_steps(&mut maps, &c, true, EventType::Deleted, item("ns", "a", "2", &["k"]));
    assert!(maps.of(Kind::ConfigMap).is_current("nsa", "1"));
}

#[test]
fn events_that_change_files_are_notified_of() {
    let mut c = ctx();
    c.script = some("/s.sh");
    let mut maps = Maps::new();
    let mut health = Health::new();
    let event = Some(Ok((EventType::Added, item("ns", "a", "1", &["k"]))));
    let watched = match watching(&c, false).event(&mut maps, &c, &mut health, 1, event) {
        WatchStep::Apply(w) => w,
        _ => panic!("expected steps"),
    };
    let (notice, w) = match watched.applied(&c, &vec![false, true]) {
        WatchStep::Notify(n, w) => (n, w),
        _ => panic!("expected a notice"),
    };
    let (notice, w) = match WatchStep::notified(notice, w, Ok(())) {
        WatchStep::Notify(n, w) => (n, w),
        _ => panic!("expected a notice"),
    };
    assert!(matches!(&notice, Notice::Request { url } if url == "http://u"));
    let w = match WatchStep::notified(notice, w, Ok(())) {
        WatchStep::Next(w) => w,
        _ => panic!("expected to wait"),
    };
    let script = Notice::Script { path: "/s".to_string(), request_url: None };
    assert!(matches!(
        WatchStep::notified(script, w, Err("lost".to_string())),
        WatchStep::Finished(Err(WErr::Other(_)))
    ));
}
