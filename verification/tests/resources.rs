use k8s_sidecar::env::EnvVars;
use k8s_sidecar::files::WriteError;
use k8s_sidecar::http::{HttpCfg, RequestStep};
use k8s_sidecar::kubeapi::{Item, Kind, KubeError};
use k8s_sidecar::logger::Level;
use k8s_sidecar::ordered::OrderedMap;
use k8s_sidecar::plan::{Content, FileOp};
use k8s_sidecar::resources::{
    any_changed, content_request, follow_changes, get_destination_folder, notice_request,
    resource_names, sleep_mode, update_file, watch_task, werr_to_string, Ctx, NextRound, Notice, Update, WErr,
};

fn vars(pairs: &[(&str, &str)]) -> EnvVars {
    EnvVars::new(pairs.iter().map(|(k, v)| (k.to_string(), v.to_string())).collect())
}

fn some(s: &str) -> Option<String> {
    Some(s.to_string())
}

fn ctx() -> Ctx {
    Ctx {
        label: "findme".to_string(),
        label_value: None,
        target_folder: "/data".to_string(),
        folder_annotation: "dir".to_string(),
        req_method: None,
        req_payload: None,
        script: None,
        unique_filenames: false,
        enable_5xx: false,
        resource_name: String::new(),
        mode: None,
        watch_server_timeout: 60,
        watch_client_timeout: 66,
    }
}

fn annotated(value: Option<&str>) -> Item {
    let mut annotations = OrderedMap::new();
    if let Some(v) = value {
        annotations.insert("dir".to_string(), v.to_string());
    }
    Item {
        namespace: "ns".to_string(),
        name: "x".to_string(),
        resource_version: "1".to_string(),
        annotations,
        text: None,
        binary: None,
    }
}

fn op(key: &str, content: Content, remove: bool) -> FileOp {
    FileOp {
        key: key.to_string(),
        content,
        folder: "/data".to_string(),
        namespace: "ns".to_string(),
        name: "x".to_string(),
        kind: Kind::Secret,
        content_type: "binary",
        remove,
    }
}

fn api(code: u16) -> WErr {
    WErr::Kube(KubeError::Api { code, reason: "Gone".to_string() })
}

#[test]
fn selectors_name_the_label() {
    let mut c = ctx();
    assert_eq!(c.selector(), "findme");
    c.label_value = some("yes");
    assert_eq!(c.selector(), "findme=yes");
}

#[test]
fn annotations_name_folders() {
    let mut c = ctx();
    let (folder, entry) = get_destination_folder(&annotated(None), &c);
    assert_eq!(folder, "/data");
    assert!(entry.is_none());
    let (folder, entry) = get_destination_folder(&annotated(Some("sub")), &c);
    assert_eq!(folder, "/data/sub");
    let entry = entry.unwrap();
    assert_eq!(entry.level, Level::Info);
    assert_eq!(
        entry.message,
        "Found a folder override annotation, placing the x in: /data/sub"
    );
    assert_eq!(get_destination_folder(&annotated(Some("/abs")), &c).0, "/abs");
    assert_eq!(get_destination_folder(&annotated(Some("")), &c).0, "/data/");
    c.target_folder = "/data/".to_string();
    assert_eq!(get_destination_folder(&annotated(Some("sub")), &c).0, "/data/sub");
}

#[test]
fn resource_names_have_three_forms() {
    let names = |text: &str| resource_names(text, "ns", Kind::ConfigMap);
    assert_eq!(names("a"), vec!["a"]);
    assert_eq!(names("configmap/a"), vec!["a"]);
    assert_eq!(names("secret/a"), Vec::<String>::new());
    assert_eq!(names("ns/configmap/a"), vec!["a"]);
    assert_eq!(names("other/configmap/a"), Vec::<String>::new());
    // In the long form the type does not matter.
    assert_eq!(names("ns/secret/a"), vec!["a"]);
    assert_eq!(names("w/x/y/z"), vec!["z"]);
    assert_eq!(names("a,secret/b,configmap/c,ns/configmap/d"), vec!["a", "c", "d"]);
    assert_eq!(names(","), vec!["", ""]);
    assert_eq!(names(""), Vec::<String>::new());
    assert_eq!(resource_names("a", "ALL", Kind::ConfigMap), Vec::<String>::new());
}

#[test]
fn plain_keys_are_written_as_they_are() {
    match update_file(&op("a.txt", Content::Text("grün".to_string()), false), false) {
        Update::Do(action) => {
            assert_eq!(action.filename, "a.txt");
            assert_eq!(action.folder, "/data");
            assert_eq!(action.data, "grün".as_bytes());
            assert!(!action.remove);
        }
        _ => panic!("expected to write"),
    }
    match update_file(&op("a.txt", Content::Bin(vec![0xff]), true), true) {
        Update::Do(action) => {
            assert_eq!(action.filename, "namespace_ns.secret_x.a.txt");
            assert_eq!(action.data, vec![0xff]);
            assert!(action.remove);
        }
        _ => panic!("expected to remove"),
    }
}

#[test]
fn url_keys_are_fetched_even_for_removal() {
    for remove in [false, true] {
        match update_file(&op("page.url", Content::Bin(b"http://host".to_vec()), remove), false) {
            Update::Fetch(url, action) => {
                assert_eq!(url, "http://host");
                assert_eq!(action.filename, "page");
                assert_eq!(action.remove, remove);
                let action = action.fetched(Some((200, vec![7])));
                assert_eq!(action.data, vec![7]);
                assert_eq!(action.filename, "page");
            }
            _ => panic!("expected to fetch"),
        }
    }
    match update_file(&op(".url", Content::Text("u".to_string()), false), true) {
        Update::Fetch(url, action) => {
            assert_eq!(url, "u");
            assert_eq!(action.filename, "namespace_ns.secret_x.");
        }
        _ => panic!("expected to fetch"),
    }
}

#[test]
fn a_failed_fetch_makes_an_empty_file() {
    for response in [None, Some((404, vec![1, 2])), Some((500, vec![1]))] {
        match update_file(&op("page.url", Content::Text("u".to_string()), false), false) {
            Update::Fetch(_, action) => {
                let action = action.fetched(response);
                assert!(action.data.is_empty());
                assert!(!action.remove);
            }
            _ => panic!("expected to fetch"),
        }
    }
}

#[test]
fn urls_that_are_no_text_fail() {
    match update_file(&op("page.url", Content::Bin(vec![0xff]), false), false) {
        Update::Failed(entry) => {
            assert_eq!(entry.level, Level::Error);
            assert_eq!(entry.message, "Error when updating from 'page.url' into '/data'");
        }
        _ => panic!("expected to fail"),
    }
}

#[test]
fn failures_are_no_changes() {
    let action = match update_file(&op("k", Content::Bin(vec![]), false), false) {
        Update::Do(a) => a,
        _ => panic!("expected to write"),
    };
    assert!(action.outcome(Ok(true)).0);
    assert!(!action.outcome(Ok(false)).0);
    assert!(action.outcome(Ok(true)).1.is_none());
    for e in [WriteError::FileSystem, WriteError::BadFileMode] {
        let (changed, entry) = action.outcome(Err(e));
        assert!(!changed);
        assert_eq!(entry.unwrap().message, "Error when updating from 'k' into '/data'");
    }
}

#[test]
fn nothing_follows_without_a_change() {
    assert!(!any_changed(&vec![]));
    assert!(!any_changed(&vec![false, false]));
    assert!(any_changed(&vec![false, true]));
    assert!(follow_changes(false, &some("/s"), &some("u")).is_none());
    assert!(follow_changes(true, &None, &None).is_none());
}

#[test]
fn the_script_goes_before_the_request() {
    match follow_changes(true, &some("/s"), &some("u")) {
        Some(Notice::Script { path, request_url }) => {
            assert_eq!(path, "/s");
            assert_eq!(request_url, some("u"));
        }
        _ => panic!("expected a script"),
    }
    match follow_changes(true, &some("/s"), &some("u")).unwrap().done(Ok(())) {
        Ok(Some(Notice::Request { url })) => assert_eq!(url, "u"),
        _ => panic!("expected a request"),
    }
    assert!(matches!(follow_changes(true, &some("/s"), &None).unwrap().done(Ok(())), Ok(None)));
    match follow_changes(true, &some("/s"), &some("u")).unwrap().done(Err("lost".to_string())) {
        Err(WErr::Other(m)) => assert_eq!(m, "lost"),
        _ => panic!("expected a failure"),
    }
    let request = follow_changes(true, &None, &some("u")).unwrap();
    assert!(matches!(request.done(Err("ignored".to_string())), Ok(None)));
}

#[test]
fn names_and_modes_make_watchers_poll() {
    let mut c = ctx();
    assert!(!sleep_mode(&c, "ns"));
    c.resource_name = "a".to_string();
    assert!(sleep_mode(&c, "ns"));
    assert!(!sleep_mode(&c, "ALL"));
    c.mode = some("SLEEP");
    assert!(sleep_mode(&c, "ALL"));
    c.mode = some("WATCH");
    assert!(!sleep_mode(&c, "ALL"));
}

#[test]
fn rounds_follow_each_other() {
    let mut c = ctx();
    let v = vars(&[]);
    assert!(matches!(watch_task(&c, "ns", Ok(()), &v), NextRound::AtOnce));
    c.mode = some("SLEEP");
    assert!(matches!(watch_task(&c, "ns", Ok(()), &v), NextRound::Sleep(60)));
    let v = vars(&[("SLEEP_TIME", "7"), ("ERROR_THROTTLE_SLEEP", "1")]);
    assert!(matches!(watch_task(&c, "ns", Ok(()), &v), NextRound::Sleep(7)));
    match watch_task(&c, "ns", Err(api(500)), &v) {
        NextRound::Stop(entry) => {
            assert_eq!(entry.level, Level::Error);
            assert_eq!(entry.message, "ApiException when calling kubernetes: (500) Reason: Gone");
        }
        _ => panic!("expected to stop"),
    }
    match watch_task(&c, "ns", Err(api(410)), &v) {
        NextRound::Throttle(entry, seconds) => {
            assert_eq!(entry.message, "ApiException when calling kubernetes: (410) Reason: Gone\n");
            assert_eq!(seconds, 1);
        }
        _ => panic!("expected to go on"),
    }
    let lost = WErr::Kube(KubeError::Transport("reset".to_string()));
    match watch_task(&c, "ns", Err(lost), &vars(&[])) {
        NextRound::Throttle(entry, seconds) => {
            assert_eq!(entry.message, "ProtocolError when calling kubernetes: reset\n");
            assert_eq!(seconds, 5);
        }
        _ => panic!("expected to go on"),
    }
    match watch_task(&c, "ns", Err(WErr::Other("odd".to_string())), &v) {
        NextRound::Throttle(entry, _) => {
            assert_eq!(entry.message, "Received unknown exception: odd\n");
        }
        _ => panic!("expected to go on"),
    }
}

#[test]
fn failures_are_shown() {
    assert_eq!(werr_to_string(&api(403)), "(403) Reason: Gone");
    assert_eq!(werr_to_string(&WErr::Kube(KubeError::Transport("reset".to_string()))), "reset");
    assert_eq!(werr_to_string(&WErr::Other("odd".to_string())), "odd");
}

fn http_settings() -> HttpCfg {
    HttpCfg {
        retry_total: 3,
        backoff_factor: None,
        timeout: None,
        skip_tls_verify: false,
        username_file_flag: None,
        password_file_flag: None,
    }
}

#[test]
fn notices_are_requested_as_configured() {
    let mut c = ctx();
    c.req_method = some("POST");
    c.req_payload = some("{}");
    c.enable_5xx = true;
    match notice_request(&http_settings(), &c, "http://u") {
        RequestStep::Send(x) => {
            assert_eq!(x.url, "http://u");
            assert!(x.post);
            assert_eq!(x.payload, some("{}"));
            assert!(x.enable_5xx);
            assert_eq!(x.retry_total, 3);
            assert_eq!(x.attempt, 0);
        }
        _ => panic!("expected to send"),
    }
    c.req_method = some("PUT");
    match notice_request(&http_settings(), &c, "http://u") {
        RequestStep::Nothing(entry) => assert_eq!(
            entry.message,
            "Invalid REQ_METHOD: 'PUT', please use 'GET' or 'POST'. Doing nothing."
        ),
        _ => panic!("expected nothing"),
    }
}

#[test]
fn content_is_got_without_a_payload() {
    let mut c = ctx();
    c.req_method = some("POST");
    c.req_payload = some("{}");
    match content_request(&http_settings(), &c, "http://content") {
        RequestStep::Send(x) => {
            assert_eq!(x.url, "http://content");
            assert!(!x.post);
            assert_eq!(x.payload, None);
            assert!(!x.enable_5xx);
        }
        _ => panic!("expected to send"),
    }
}
