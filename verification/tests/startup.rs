use k8s_sidecar::env::EnvVars;
use k8s_sidecar::kubeapi::Kind;
use k8s_sidecar::logger::{Level, LogEntry};
use k8s_sidecar::startup::{
    chosen_namespace, decide_ignore, first_sync, make_ctx, monitor, namespace_failure, parse_flags,
    payload_from, read_features, read_settings, selected_kinds, version_is_recent, wants_ignore,
    watch_targets, Version,
};

fn vars(pairs: &[(&str, &str)]) -> EnvVars {
    EnvVars::new(pairs.iter().map(|(k, v)| (k.to_string(), v.to_string())).collect())
}

fn some(s: &str) -> Option<String> {
    Some(s.to_string())
}

fn args(list: &[&str]) -> Vec<String> {
    list.iter().map(|s| s.to_string()).collect()
}

fn shown(log: &[LogEntry]) -> Vec<String> {
    log.iter().map(|e| format!("{} {}", e.level.name(), e.message)).collect()
}

type Files = (Option<String>, Option<String>);

fn flags(list: &[&str]) -> Result<Files, (Vec<String>, i32)> {
    parse_flags(&args(list)).map_err(|f| (f.lines, f.code))
}

#[test]
fn flags_are_parsed() {
    assert_eq!(flags(&[]), Ok((None, None)));
    assert_eq!(
        flags(&["--req-username-file=/u", "--req-password-file", "/p"]),
        Ok((some("/u"), some("/p")))
    );
    assert_eq!(
        flags(&["--req-username-file", "/u", "--req-username-file=/v=w"]),
        Ok((some("/v=w"), None))
    );
    assert_eq!(flags(&["--req-username-file="]), Ok((some(""), None)));
    assert_eq!(flags(&["--req-username-file=/u", "--req-username-file"]), Ok((None, None)));
    assert_eq!(
        flags(&["--req-username-file", "--req-password-file"]),
        Ok((some("--req-password-file"), None))
    );
}

#[test]
fn unknown_flags_end_the_program() {
    assert_eq!(
        flags(&["--verbose=yes"]),
        Err((args(&["error: unrecognized arguments: --verbose"]), 2))
    );
    assert_eq!(flags(&["file"]), Err((args(&["error: unrecognized arguments: file"]), 2)));
}

#[test]
fn a_label_and_a_folder_are_needed() {
    let (log, settings) = read_settings(&vars(&[]));
    assert!(settings.is_none());
    assert_eq!(
        shown(&log),
        vec![
            "INFO No folder annotation was provided, defaulting to k8s-sidecar-target-directory",
            "CRITICAL Should have added LABEL as environment variable! Exit",
        ]
    );
    let (log, settings) = read_settings(&vars(&[
        ("FOLDER_ANNOTATION", "dir"),
        ("LABEL", "findme"),
        ("LABEL_VALUE", "yes"),
    ]));
    assert!(settings.is_none());
    assert_eq!(
        shown(&log),
        vec![
            "DEBUG Filter labels with value: yes",
            "CRITICAL Should have added FOLDER as environment variable! Exit",
        ]
    );
}

#[test]
fn startup_settings_have_defaults() {
    let (log, settings) = read_settings(&vars(&[("LABEL", "findme"), ("FOLDER", "/d"), ("LABEL_VALUE", "")]));
    let s = settings.unwrap();
    assert_eq!(s.folder_annotation, "k8s-sidecar-target-directory");
    assert_eq!(s.label, "findme");
    assert_eq!(s.label_value, None);
    assert_eq!(s.target_folder, "/d");
    assert_eq!(s.kinds, vec![Kind::ConfigMap]);
    assert_eq!(s.resource_name, "");
    assert_eq!(s.request_method, None);
    assert_eq!(s.request_url, None);
    assert!(!s.request_skip_init);
    assert_eq!(s.request_payload, None);
    assert_eq!(s.script, None);
    assert_eq!(
        shown(&log)[1..],
        [
            "DEBUG Selected resource type: ('configmap',)".to_string(),
            "DEBUG Selected resource name: ".to_string(),
        ]
    );
}

#[test]
fn startup_settings_come_from_the_environment() {
    let (log, settings) = read_settings(&vars(&[
        ("FOLDER_ANNOTATION", "dir"),
        ("LABEL", "findme"),
        ("LABEL_VALUE", "yes"),
        ("FOLDER", "/d"),
        ("RESOURCE", "both"),
        ("RESOURCE_NAME", "a,b"),
        ("REQ_METHOD", "POST"),
        ("REQ_URL", "http://u"),
        ("REQ_SKIP_INIT", "True"),
        ("REQ_PAYLOAD", "{ \"b\": [1, 2], \"a\": null }"),
        ("SCRIPT", "/s.sh"),
    ]));
    let s = settings.unwrap();
    assert_eq!(s.folder_annotation, "dir");
    assert_eq!(s.label_value, some("yes"));
    assert_eq!(s.kinds, vec![Kind::Secret, Kind::ConfigMap]);
    assert_eq!(s.request_method, some("POST"));
    assert_eq!(s.request_url, some("http://u"));
    assert!(s.request_skip_init);
    assert_eq!(s.script, some("/s.sh"));
    let payload = s.request_payload.unwrap();
    assert!(payload == "{\"a\":null,\"b\":[1,2]}" || payload == "{\"b\":[1,2],\"a\":null}");
    assert_eq!(
        shown(&log),
        vec![
            "DEBUG Filter labels with value: yes",
            "DEBUG Selected resource type: ('secret', 'configmap')",
            "DEBUG Selected resource name: a,b",
        ]
    );
}

#[test]
fn payloads_that_are_no_json_are_quoted() {
    let base = [("LABEL", "l"), ("FOLDER", "/d"), ("REQ_PAYLOAD", "say \"hi\"")];
    let (log, settings) = read_settings(&vars(&base));
    assert_eq!(settings.unwrap().request_payload, some("\"say \\\"hi\\\"\""));
    assert_eq!(
        shown(&log).last().unwrap(),
        "WARNING Payload will be posted as quoted json"
    );
    let (_, settings) = read_settings(&vars(&[("LABEL", "l"), ("FOLDER", "/d"), ("REQ_PAYLOAD", "")]));
    assert_eq!(settings.unwrap().request_payload, None);
    assert_eq!(payload_from("x", some("{}")), "{}");
    assert_eq!(payload_from("x", None), "\"x\"");
}

#[test]
fn kinds_are_selected() {
    assert_eq!(selected_kinds("secret"), (vec![Kind::Secret], "('secret',)".to_string()));
    assert_eq!(selected_kinds("configmap"), (vec![Kind::ConfigMap], "('configmap',)".to_string()));
    assert_eq!(selected_kinds("pod"), (vec![Kind::ConfigMap], "('pod',)".to_string()));
}

#[test]
fn features_are_read() {
    let (log, f) = read_features(&vars(&[("UNIQUE_FILENAMES", "TRUE")]));
    assert!(f.unique_filenames);
    assert!(!f.enable_5xx);
    assert_eq!(
        shown(&log),
        vec![
            "INFO Unique filenames will be enforced.",
            "INFO 5xx response content will not be enabled.",
        ]
    );
    let (log, f) = read_features(&vars(&[("UNIQUE_FILENAMES", "1"), ("ENABLE_5XX", "true")]));
    assert!(!f.unique_filenames);
    assert!(f.enable_5xx);
    assert_eq!(
        shown(&log),
        vec![
            "INFO Unique filenames will not be enforced.",
            "INFO 5xx response content will be enabled.",
        ]
    );
}

#[test]
fn versions_are_compared() {
    assert!(version_is_recent("1", "19"));
    assert!(version_is_recent("1", "27+"));
    assert!(version_is_recent("v2", "0"));
    assert!(!version_is_recent("1", "18"));
    assert!(!version_is_recent("0", "99"));
    assert!(!version_is_recent("", "19"));
    assert!(!version_is_recent("1", "x"));
    assert!(!version_is_recent("99999999999999999999", "19"));
}

#[test]
fn versions_decide_what_is_ignored() {
    let version = |minor: &str| Version {
        major: "1".to_string(),
        minor: minor.to_string(),
        git_version: format!("v1.{}.0", minor),
    };
    assert!(wants_ignore(&vars(&[("IGNORE_ALREADY_PROCESSED", "true")])));
    assert!(!wants_ignore(&vars(&[])));
    let off = "DEBUG Ignore already processed resource version will not be enabled.";
    let (log, ignore) = decide_ignore(None);
    assert!(!ignore);
    assert_eq!(shown(&log), vec![off]);
    let (log, ignore) = decide_ignore(Some(Ok(version("30"))));
    assert!(ignore);
    assert_eq!(
        shown(&log),
        vec!["INFO Ignore already processed resource version will be enabled."]
    );
    let (log, ignore) = decide_ignore(Some(Ok(version("18"))));
    assert!(!ignore);
    assert_eq!(
        shown(&log),
        vec![
            "INFO Can't enable 'ignore already processed resource version', kubernetes api version \
             (v1.18.0) is lower than v1.19 or unrecognized format.",
            off,
        ]
    );
    let (log, ignore) = decide_ignore(Some(Err(())));
    assert!(!ignore);
    assert_eq!(shown(&log), vec!["ERROR Exception when calling VersionApi", off]);
}

#[test]
fn namespaces_are_chosen() {
    assert_eq!(chosen_namespace(&vars(&[]), "own".to_string()), "own");
    assert_eq!(chosen_namespace(&vars(&[("NAMESPACE", "a,b")]), "own".to_string()), "a,b");
    let entry = namespace_failure("No such file");
    assert_eq!(entry.level, Level::Error);
    assert_eq!(
        entry.message,
        "FileNotFoundError: No such file: '/var/run/secrets/kubernetes.io/serviceaccount/namespace'"
    );
}

#[test]
fn every_kind_is_watched_in_every_namespace() {
    assert_eq!(
        watch_targets(&vec![Kind::Secret, Kind::ConfigMap], "a,b"),
        vec![
            (Kind::Secret, "a".to_string()),
            (Kind::Secret, "b".to_string()),
            (Kind::ConfigMap, "a".to_string()),
            (Kind::ConfigMap, "b".to_string()),
        ]
    );
    assert_eq!(watch_targets(&vec![Kind::Secret], ""), vec![(Kind::Secret, String::new())]);
    assert!(watch_targets(&vec![], "a").is_empty());
}

#[test]
fn the_first_sync_depends_on_the_method() {
    let make = |extra: &[(&str, &str)]| {
        let mut pairs = vec![("LABEL", "l"), ("FOLDER", "/d"), ("REQ_URL", "http://u")];
        pairs.extend_from_slice(extra);
        let v = vars(&pairs);
        let settings = read_settings(&v).1.unwrap();
        let features = read_features(&v).1;
        let ctx = make_ctx(&settings, &features, &v);
        (ctx, settings)
    };
    let (c, s) = make(&[("METHOD", "LIST")]);
    assert_eq!(c.mode, some("LIST"));
    assert_eq!(c.watch_server_timeout, 60);
    assert_eq!(c.watch_client_timeout, 66);
    assert_eq!(c.target_folder, "/d");
    for ignore in [false, true] {
        let first = first_sync(&c, &s, ignore);
        assert!(!first.watches);
        assert!(first.log.is_empty());
        assert_eq!(first.request_url, some("http://u"));
        assert_eq!(first.ignore_already_processed, ignore);
    }
    let (c, s) = make(&[("WATCH_SERVER_TIMEOUT", "3"), ("WATCH_CLIENT_TIMEOUT", "4")]);
    assert_eq!(c.watch_server_timeout, 3);
    assert_eq!(c.watch_client_timeout, 4);
    let start = "INFO Performing initial list-based sync before starting watch.";
    let first = first_sync(&c, &s, false);
    assert!(first.watches);
    assert_eq!(shown(&first.log), vec![start]);
    assert_eq!(first.request_url, some("http://u"));
    assert!(first.ignore_already_processed);
    let (c, s) = make(&[("METHOD", "SLEEP"), ("REQ_SKIP_INIT", "true")]);
    let first = first_sync(&c, &s, false);
    assert!(first.watches);
    assert_eq!(
        shown(&first.log),
        vec![start, "INFO Skipping initial request to external endpoint."]
    );
    assert_eq!(first.request_url, None);
}

#[test]
fn dead_watchers_end_the_program() {
    let targets = watch_targets(&vec![Kind::Secret, Kind::ConfigMap], "a");
    let (log, code) = monitor(&targets, &vec![false, false]);
    assert!(log.is_empty());
    assert_eq!(code, None);
    let (log, code) = monitor(&targets, &vec![false, true]);
    assert_eq!(
        shown(&log),
        vec![
            "ERROR Process for a/configmap died",
            "CRITICAL At least one process died. Stopping and exiting",
        ]
    );
    assert_eq!(code, Some(1));
    let (log, code) = monitor(&targets, &vec![true, true]);
    assert_eq!(log.len(), 3);
    assert_eq!(code, Some(1));
}
