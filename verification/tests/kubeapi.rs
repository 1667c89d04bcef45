use k8s_sidecar::env::EnvVars;
use k8s_sidecar::kubeapi::{
    client_failure, init_client, is_transport_error, kubeconfig_path, list_page, loading_entry,
    read_named, retry_transport, transport_retries, watch_items, EventType, Item, Kind, KubeError,
    RawObject, WatchSignal,
};
use k8s_sidecar::logger::Level;
use k8s_sidecar::ordered::OrderedMap;

fn vars(pairs: &[(&str, &str)]) -> EnvVars {
    EnvVars::new(pairs.iter().map(|(k, v)| (k.to_string(), v.to_string())).collect())
}

fn raw(name: &str) -> RawObject {
    let mut annotations = OrderedMap::new();
    annotations.insert("a".to_string(), "b".to_string());
    let mut data = OrderedMap::new();
    data.insert("k".to_string(), "v".to_string());
    let mut binary = OrderedMap::new();
    binary.insert("bin".to_string(), vec![1, 2]);
    RawObject {
        namespace: Some("ns".to_string()),
        name: Some(name.to_string()),
        resource_version: Some("7".to_string()),
        annotations: Some(annotations),
        data: Some(data),
        binary: Some(binary),
    }
}

fn bare() -> RawObject {
    RawObject {
        namespace: None,
        name: None,
        resource_version: None,
        annotations: None,
        data: None,
        binary: None,
    }
}

fn api(code: u16) -> KubeError {
    KubeError::Api { code, reason: "Gone".to_string() }
}

#[test]
fn kinds_have_names() {
    assert_eq!(Kind::ConfigMap.as_str(), "configmap");
    assert_eq!(Kind::Secret.as_str(), "secret");
}

#[test]
fn objects_become_items() {
    let item = Item::from_cm(raw("x"));
    assert_eq!(item.key(), "nsx");
    assert_eq!(item.resource_version, "7");
    assert_eq!(item.annotations.get("a"), Some(&"b".to_string()));
    assert_eq!(item.text.unwrap().get("k"), Some(&"v".to_string()));
    assert_eq!(item.binary.unwrap().get("bin"), Some(&vec![1, 2]));
    let item = Item::from_secret(raw("x"));
    assert!(item.text.is_none());
    assert_eq!(item.binary.unwrap().get("bin"), Some(&vec![1, 2]));
    let item = Item::from_cm(bare());
    assert_eq!(item.key(), "");
    assert_eq!(item.resource_version, "");
    assert_eq!(item.annotations.len(), 0);
    assert!(item.text.is_none());
    assert!(item.binary.is_none());
}

#[test]
fn pages_keep_their_order() {
    let page = vec![raw("a"), raw("b"), raw("c")];
    let (items, token) = list_page(Kind::ConfigMap, page, Some("next".to_string()));
    let names: Vec<String> = items.iter().map(|i| i.name.clone()).collect();
    assert_eq!(names, vec!["a", "b", "c"]);
    assert_eq!(token, Some("next".to_string()));
    assert_eq!(list_page(Kind::Secret, vec![], Some(String::new())).1, None);
    assert_eq!(list_page(Kind::Secret, vec![], None).1, None);
    assert!(list_page(Kind::Secret, vec![raw("a")], None).0[0].text.is_none());
}

#[test]
fn named_resources_may_be_missing() {
    assert!(read_named(Kind::ConfigMap, None).is_none());
    assert!(read_named(Kind::ConfigMap, Some(raw("a"))).unwrap().text.is_some());
    assert!(read_named(Kind::Secret, Some(raw("a"))).unwrap().text.is_none());
}

#[test]
fn only_calls_without_an_answer_are_made_again() {
    let lost = KubeError::Transport("reset".to_string());
    assert!(is_transport_error(&lost));
    assert!(!is_transport_error(&api(503)));
    assert_eq!(retry_transport(&lost, 0, 2), Some(1));
    assert_eq!(retry_transport(&lost, 1, 2), Some(2));
    assert_eq!(retry_transport(&lost, 2, 2), None);
    assert_eq!(retry_transport(&api(503), 0, 2), None);
    assert_eq!(transport_retries(&vars(&[])), 5);
    assert_eq!(transport_retries(&vars(&[("REQ_RETRY_TOTAL", "0")])), 0);
}

#[test]
fn signals_become_events() {
    for (signal, wanted) in [
        (WatchSignal::Added(raw("x")), EventType::Added),
        (WatchSignal::Modified(raw("x")), EventType::Modified),
        (WatchSignal::Deleted(raw("x")), EventType::Deleted),
    ] {
        match watch_items(Kind::Secret, signal) {
            Some(Ok((event, item))) => {
                assert_eq!(event, wanted);
                assert_eq!(item.name, "x");
                assert!(item.text.is_none());
            }
            _ => panic!("expected an event"),
        }
    }
    assert!(watch_items(Kind::Secret, WatchSignal::Bookmark).is_none());
    let error = WatchSignal::Error { code: 410, reason: "Expired".to_string() };
    match watch_items(Kind::ConfigMap, error) {
        Some(Err(KubeError::Api { code, reason })) => {
            assert_eq!(code, 410);
            assert_eq!(reason, "Expired");
        }
        _ => panic!("expected an error"),
    }
    let failed = WatchSignal::Failed(KubeError::Transport("reset".to_string()));
    assert!(matches!(
        watch_items(Kind::ConfigMap, failed),
        Some(Err(KubeError::Transport(_)))
    ));
    assert_eq!(EventType::Modified.as_str(), "MODIFIED");
}

#[test]
fn the_kubeconfig_is_looked_for() {
    assert_eq!(kubeconfig_path(&vars(&[("KUBECONFIG", "/k"), ("HOME", "/h")])), "/k");
    assert_eq!(kubeconfig_path(&vars(&[("HOME", "/h")])), "/h/.kube/config");
    assert_eq!(kubeconfig_path(&vars(&[])), "/.kube/config");
    assert_eq!(loading_entry("/k", true).message, "Loading config from '/k'...");
    assert_eq!(loading_entry("/k", false).message, "Loading incluster config...");
    assert_eq!(loading_entry("/k", false).level, Level::Info);
}

#[test]
fn the_client_is_set_up() {
    let s = init_client(&vars(&[]), "https://host:6443/");
    assert!(!s.accept_invalid_certs);
    assert!(s.warning.is_none());
    assert_eq!(s.read_timeout, 66);
    assert_eq!(s.loaded.level, Level::Debug);
    assert_eq!(s.loaded.message, "Config for cluster api at 'https://host:6443' loaded.");
    let v = vars(&[
        ("SKIP_TLS_VERIFY", "true"),
        ("DISABLE_X509_STRICT_VERIFICATION", "True"),
        ("WATCH_CLIENT_TIMEOUT", "10"),
    ]);
    let s = init_client(&v, "https://host");
    assert!(s.accept_invalid_certs);
    let warning = s.warning.unwrap();
    assert_eq!(warning.level, Level::Warning);
    assert_eq!(warning.message, "Disabling strict X.509 certificate verification");
    assert_eq!(s.read_timeout, 10);
    assert!(!init_client(&vars(&[("SKIP_TLS_VERIFY", "TRUE")]), "").accept_invalid_certs);
    assert_eq!(
        client_failure("no config"),
        "Unexpected error during Kubernetes client initialization: no config"
    );
}
