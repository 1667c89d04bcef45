use k8s_sidecar::env::EnvVars;
use k8s_sidecar::health::Health;
use k8s_sidecar::kubeapi::Kind;
use k8s_sidecar::launch::{connected, next_start, start, terminated, Launch, Prepared, Stage, StartStep};
use k8s_sidecar::logger::{Level, LogEntry};
use k8s_sidecar::resources::WErr;
use k8s_sidecar::startup::{FirstSync, Version};

fn vars(pairs: &[(&str, &str)]) -> EnvVars {
    EnvVars::new(pairs.iter().map(|(k, v)| (k.to_string(), v.to_string())).collect())
}

fn with(more: &[(&str, &str)]) -> EnvVars {
    let mut pairs = vec![
        ("LABEL", "app"),
        ("FOLDER", "/data"),
        ("FOLDER_ANNOTATION", "dir"),
        ("RESOURCE", "both"),
        ("REQ_URL", "http://u"),
    ];
    pairs.extend_from_slice(more);
    vars(&pairs)
}

fn shown(log: &[LogEntry]) -> Vec<String> {
    log.iter().map(|e| format!("{} {}", e.level.name(), e.message)).collect()
}

fn prepared(v: &EnvVars) -> Prepared {
    let settings = match start(v).1 {
        Stage::Connect(s) => s,
        _ => panic!("expected to connect"),
    };
    match connected(settings, v, Ok(())).1 {
        Stage::AskVersion(p) | Stage::ReadNamespace(p) => p,
        _ => panic!("expected to go on"),
    }
}

fn launch(v: &EnvVars, health: &mut Health) -> (Vec<LogEntry>, Launch) {
    match prepared(v).namespace_read(v, health, Ok("home".to_string())) {
        (log, Stage::Sync(l)) => (log, l),
        _ => panic!("expected to sync"),
    }
}

#[test]
fn without_label_or_folder_the_program_ends_well() {
    let (log, stage) = start(&vars(&[("LABEL", "app")]));
    assert!(matches!(stage, Stage::Exit(0)));
    assert_eq!(
        shown(&log).last().unwrap(),
        "CRITICAL Should have added FOLDER as environment variable! Exit"
    );
    assert!(matches!(start(&vars(&[("FOLDER", "/data")])).1, Stage::Exit(0)));
    assert!(matches!(start(&with(&[])).1, Stage::Connect(_)));
}

#[test]
fn without_a_client_the_program_fails() {
    let v = with(&[]);
    let settings = match start(&v).1 {
        Stage::Connect(s) => s,
        _ => panic!("expected to connect"),
    };
    let (log, stage) = connected(settings, &v, Err("no config".to_string()));
    assert_eq!(shown(&log), vec!["ERROR no config"]);
    assert!(matches!(stage, Stage::Exit(1)));
}

#[test]
fn the_version_is_asked_for_only_if_it_matters() {
    let v = with(&[]);
    let settings = match start(&v).1 {
        Stage::Connect(s) => s,
        _ => panic!("expected to connect"),
    };
    let (log, stage) = connected(settings, &v, Ok(()));
    assert_eq!(
        shown(&log),
        vec![
            "INFO Unique filenames will not be enforced.",
            "INFO 5xx response content will not be enabled.",
            "DEBUG Ignore already processed resource version will not be enabled.",
        ]
    );
    assert!(matches!(stage, Stage::ReadNamespace(_)));

    let v = with(&[("IGNORE_ALREADY_PROCESSED", "true")]);
    let settings = match start(&v).1 {
        Stage::Connect(s) => s,
        _ => panic!("expected to connect"),
    };
    let (log, stage) = connected(settings, &v, Ok(()));
    assert_eq!(log.len(), 2);
    let asking = match stage {
        Stage::AskVersion(p) => p,
        _ => panic!("expected to ask for the version"),
    };
    let version = Version {
        major: "1".to_string(),
        minor: "30".to_string(),
        git_version: "v1.30.0".to_string(),
    };
    let (log, stage) = asking.version_received(Ok(version));
    assert_eq!(
        shown(&log),
        vec!["INFO Ignore already processed resource version will be enabled."]
    );
    match stage {
        Stage::ReadNamespace(p) => assert!(p.ignore_already_processed),
        _ => panic!("expected to read the namespace"),
    }
}

#[test]
fn a_missing_namespace_file_ends_the_program() {
    let v = with(&[("NAMESPACE", "a")]);
    let mut health = Health::new();
    let (log, stage) = prepared(&v).namespace_read(&v, &mut health, Err("gone".to_string()));
    assert_eq!(
        shown(&log),
        vec![
            "ERROR FileNotFoundError: gone: \
             '/var/run/secrets/kubernetes.io/serviceaccount/namespace'"
        ]
    );
    assert!(matches!(stage, Stage::Exit(1)));
    assert!(!health.ready);
}

#[test]
fn every_target_is_synced_before_the_sidecar_is_ready() {
    let v = with(&[("NAMESPACE", "a,b")]);
    let mut health = Health::new();
    let (log, mut l) = launch(&v, &mut health);
    assert_eq!(
        shown(&log),
        vec!["INFO Performing initial list-based sync before starting watch."]
    );
    let expected = [
        (Kind::Secret, "a"),
        (Kind::Secret, "b"),
        (Kind::ConfigMap, "a"),
        (Kind::ConfigMap, "b"),
    ];
    for (i, (kind, namespace)) in expected.iter().enumerate() {
        assert_eq!(l.done, i);
        assert_eq!(l.targets[i].0, *kind);
        assert_eq!(l.targets[i].1, *namespace);
        assert!(!health.ready);
        let (log, stage) = l.synced(&mut health, Ok(()));
        match stage {
            Stage::Sync(next) => {
                assert!(log.is_empty());
                l = next;
            }
            Stage::Watch(all) => {
                assert_eq!(i, 3);
                assert_eq!(shown(&log), vec!["INFO Initial sync complete, sidecar is ready."]);
                assert_eq!(all.request_url, Some("http://u".to_string()));
                assert!(!all.ignore_already_processed);
                assert!(health.ready);
                return;
            }
            _ => panic!("expected to go on"),
        }
    }
    panic!("expected to watch");
}

#[test]
fn a_list_ends_well_when_it_is_ready() {
    let v = vars(&[
        ("LABEL", "app"),
        ("FOLDER", "/data"),
        ("RESOURCE", "secret"),
        ("METHOD", "LIST"),
    ]);
    let mut health = Health::new();
    let (log, l) = launch(&v, &mut health);
    assert!(log.is_empty());
    assert_eq!(l.targets, vec![(Kind::Secret, "home".to_string())]);
    let (log, stage) = l.synced(&mut health, Ok(()));
    assert!(log.is_empty());
    assert!(matches!(stage, Stage::Exit(0)));
    assert!(health.ready);
}

#[test]
fn a_failed_first_sync_ends_the_program() {
    let v = with(&[]);
    let mut health = Health::new();
    let (_, l) = launch(&v, &mut health);
    let (log, stage) = l.synced(&mut health, Err(WErr::Other("broken".to_string())));
    assert_eq!(shown(&log), vec!["ERROR broken"]);
    assert!(matches!(stage, Stage::Exit(1)));
    assert!(!health.ready);
}

#[test]
fn the_next_target_follows_a_synced_one() {
    let targets = vec![(Kind::Secret, "a".to_string()), (Kind::Secret, "b".to_string())];
    let first = FirstSync {
        log: Vec::new(),
        request_url: None,
        ignore_already_processed: true,
        watches: true,
    };
    assert!(matches!(next_start(&targets, 0, Ok(()), &first), StartStep::Sync(0)));
    assert!(matches!(next_start(&targets, 1, Ok(()), &first), StartStep::Sync(1)));
    assert!(matches!(
        next_start(&targets, 2, Ok(()), &first),
        StartStep::Ready { watches: true }
    ));
    match next_start(&targets, 1, Err(WErr::Other("broken".to_string())), &first) {
        StartStep::Failed(entry, code) => {
            assert_eq!(entry.level, Level::Error);
            assert_eq!(entry.message, "broken");
            assert_eq!(code, 1);
        }
        _ => panic!("expected to fail"),
    }
}

#[test]
fn termination_is_graceful() {
    let (entry, code) = terminated();
    assert_eq!(entry.level, Level::Info);
    assert_eq!(entry.message, "Subprocess exiting gracefully");
    assert_eq!(code, 0);
}
