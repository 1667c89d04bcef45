use k8s_sidecar::cache::{CachedItem, KindMaps, Maps};
use k8s_sidecar::kubeapi::{Item, Kind};
use k8s_sidecar::logger::Level;
use k8s_sidecar::ordered::OrderedMap;
use k8s_sidecar::plan::{plan_resource, process_resource, Content, Step};

fn text(pairs: &[(&str, &str)]) -> Option<OrderedMap<String>> {
    let mut map = OrderedMap::new();
    for (k, v) in pairs {
        map.insert(k.to_string(), v.to_string());
    }
    Some(map)
}

fn binary(pairs: &[(&str, &[u8])]) -> Option<OrderedMap<Vec<u8>>> {
    let mut map = OrderedMap::new();
    for (k, v) in pairs {
        map.insert(k.to_string(), v.to_vec());
    }
    Some(map)
}

fn item(text: Option<OrderedMap<String>>, binary: Option<OrderedMap<Vec<u8>>>) -> Item {
    Item {
        namespace: "ns".to_string(),
        name: "x".to_string(),
        resource_version: "1".to_string(),
        annotations: OrderedMap::new(),
        text,
        binary,
    }
}

fn shown(steps: &[Step]) -> Vec<String> {
    steps
        .iter()
        .map(|s| match s {
            Step::Log(l) => format!("{} {}", l.level.name(), l.message),
            Step::File(f) => {
                let content = match &f.content {
                    Content::Text(t) => t.clone(),
                    Content::Bin(b) => format!("{:?}", b),
                };
                let verb = if f.remove { "rm" } else { "write" };
                format!("{} {}:{} {} {}", verb, f.folder, f.key, f.content_type, content)
            }
        })
        .collect()
}

#[test]
fn data_is_written_in_the_order_of_its_keys() {
    let mut maps = Maps::new();
    let it = item(text(&[("b", "2"), ("a", "1")]), binary(&[("c", &[3])]));
    let steps = process_resource(&mut maps, Kind::ConfigMap, &it, Some("/d"), false);
    assert_eq!(
        shown(&steps),
        vec![
            "DEBUG Found 'data' on configmap",
            "write /d:a ascii 1",
            "write /d:b ascii 2",
            "DEBUG Found 'binary_data' on configmap",
            "write /d:c binary [3]",
        ]
    );
}

#[test]
fn secrets_have_binary_data_only() {
    let mut maps = Maps::new();
    let it = item(None, binary(&[("c", &[3])]));
    let steps = process_resource(&mut maps, Kind::Secret, &it, Some("/d"), false);
    assert_eq!(shown(&steps), vec!["write /d:c binary [3]"]);
}

#[test]
fn resources_without_data_are_warned_of() {
    let mut maps = Maps::new();
    let steps = process_resource(&mut maps, Kind::ConfigMap, &item(None, None), Some("/d"), false);
    assert_eq!(shown(&steps), vec!["WARNING No data/binaryData field in configmap"]);
    let steps = process_resource(&mut maps, Kind::Secret, &item(None, None), Some("/d"), false);
    assert_eq!(shown(&steps), vec!["WARNING No data field in secret"]);
    let steps = process_resource(&mut maps, Kind::ConfigMap, &item(text(&[]), None), Some("/d"), false);
    assert_eq!(shown(&steps), vec!["DEBUG Found 'data' on configmap"]);
}

#[test]
fn a_vanished_key_is_removed() {
    let mut maps = Maps::new();
    let first = item(text(&[("a", "1"), ("b", "2")]), binary(&[("c", &[3])]));
    process_resource(&mut maps, Kind::ConfigMap, &first, Some("/d"), false);
    let second = item(text(&[("a", "1")]), None);
    let steps = process_resource(&mut maps, Kind::ConfigMap, &second, Some("/d"), false);
    assert_eq!(
        shown(&steps),
        vec![
            "DEBUG Found 'data' on configmap",
            "write /d:a ascii 1",
            "rm /d:b ascii ",
            "rm /d:c binary []",
        ]
    );
}

#[test]
fn a_moved_resource_leaves_its_old_folder() {
    let mut maps = Maps::new();
    let it = item(text(&[("a", "1"), ("p.url", "http://host")]), None);
    process_resource(&mut maps, Kind::ConfigMap, &it, Some("/old"), false);
    let steps = process_resource(&mut maps, Kind::ConfigMap, &it, Some("/new"), false);
    assert_eq!(
        shown(&steps),
        vec![
            "DEBUG Found 'data' on configmap",
            "write /new:a ascii 1",
            "write /new:p.url ascii http://host",
            "rm /old:a ascii ",
            "rm /old:p.url ascii http://host",
        ]
    );
}

#[test]
fn a_deleted_resource_is_removed_from_where_it_was() {
    let mut maps = Maps::new();
    let it = item(text(&[("a", "1")]), binary(&[("c", &[3])]));
    process_resource(&mut maps, Kind::ConfigMap, &it, Some("/old"), false);
    let steps = process_resource(&mut maps, Kind::ConfigMap, &it, Some("/new"), true);
    assert_eq!(
        shown(&steps),
        vec![
            "DEBUG Found 'data' on configmap",
            "rm /old:a ascii 1",
            "DEBUG Found 'binary_data' on configmap",
            "rm /old:c binary [3]",
        ]
    );
    let other = item(text(&[("b", "2")]), None);
    let steps = process_resource(&mut maps, Kind::Secret, &other, None, true);
    assert_eq!(shown(&steps), vec!["WARNING No data field in secret"]);
}

#[test]
fn an_unchanged_resource_removes_nothing() {
    let mut maps = Maps::new();
    let it = item(text(&[("a", "1")]), binary(&[("c", &[3])]));
    let first = process_resource(&mut maps, Kind::ConfigMap, &it, Some("/d"), false);
    let second = process_resource(&mut maps, Kind::ConfigMap, &it, Some("/d"), false);
    assert_eq!(shown(&first), shown(&second));
    assert!(!shown(&second).iter().any(|s| s.starts_with("rm")));
}

#[test]
fn a_key_that_moves_between_sections_is_removed_from_the_one_it_left() {
    let old = item(None, binary(&[("k", &[1])]));
    let new = item(text(&[("k", "1")]), None);
    let steps = plan_resource(Kind::ConfigMap, &new, &old, "/d", "/d", false);
    assert_eq!(
        shown(&steps),
        vec!["DEBUG Found 'data' on configmap", "write /d:k ascii 1", "rm /d:k binary [1]"]
    );
}

#[test]
fn payloads_are_not_remembered() {
    let it = item(
        text(&[("a", "big"), ("p.url", "http://host")]),
        binary(&[("c", &[1, 2]), ("q.url", &[3])]),
    );
    let rebuilt = CachedItem::from_item(&it).to_removal_item();
    assert_eq!(rebuilt.key(), "nsx");
    assert_eq!(rebuilt.resource_version, "");
    let text = rebuilt.text.unwrap();
    assert_eq!(text.get("a"), Some(&String::new()));
    assert_eq!(text.get("p.url"), Some(&"http://host".to_string()));
    let binary = rebuilt.binary.unwrap();
    assert_eq!(binary.get("c"), Some(&Vec::new()));
    assert_eq!(binary.get("q.url"), Some(&vec![3]));
    let rebuilt = CachedItem::from_item(&item(None, None)).to_removal_item();
    assert!(rebuilt.text.is_none());
    assert!(rebuilt.binary.is_none());
}

#[test]
fn versions_are_remembered() {
    let mut maps = KindMaps::new();
    assert!(!maps.is_current("k", "1"));
    maps.note_version("k", "1");
    assert!(maps.is_current("k", "1"));
    assert!(!maps.is_current("k", "2"));
    maps.note_version("k", "2");
    assert!(maps.is_current("k", "2"));
    maps.forget_version("k");
    assert!(!maps.is_current("k", "2"));
}

#[test]
fn stale_resources_are_those_in_scope_that_were_not_listed() {
    let mut maps = Maps::new();
    for (ns, name) in [("a", "x"), ("a", "y"), ("b", "z")] {
        let mut it = item(text(&[]), None);
        it.namespace = ns.to_string();
        it.name = name.to_string();
        process_resource(&mut maps, Kind::ConfigMap, &it, Some("/d"), false);
    }
    let names = |ns: &str, exist: &[&str]| -> Vec<String> {
        let exist: Vec<String> = exist.iter().map(|s| s.to_string()).collect();
        maps.of(Kind::ConfigMap).stale(ns, &exist).iter().map(|i| i.key()).collect()
    };
    assert_eq!(names("a", &["ax"]), vec!["ay"]);
    assert_eq!(names("ALL", &["ax"]), vec!["ay", "bz"]);
    assert_eq!(names("a", &["ax", "ay"]), Vec::<String>::new());
    assert_eq!(names("c", &[]), Vec::<String>::new());
    assert!(maps.of(Kind::Secret).stale("ALL", &vec![]).is_empty());
    assert_eq!(Level::Debug.name(), "DEBUG");
}
