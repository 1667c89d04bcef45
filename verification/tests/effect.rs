use std::collections::BTreeMap;

use k8s_sidecar::cache::Maps;
use k8s_sidecar::files::{file_path, remove_file, write_data_to_file, WriteStep};
use k8s_sidecar::kubeapi::{Item, Kind};
use k8s_sidecar::ordered::OrderedMap;
use k8s_sidecar::plan::{process_resource, Step};
use k8s_sidecar::resources::{follow_changes, update_file, Update};

fn item(name: &str, text: &[(&str, &str)], binary: &[(&str, &[u8])]) -> Item {
    let mut texts = OrderedMap::new();
    for (k, v) in text {
        texts.insert(k.to_string(), v.to_string());
    }
    let mut binaries = OrderedMap::new();
    for (k, v) in binary {
        binaries.insert(k.to_string(), v.to_vec());
    }
    Item {
        namespace: "ns".to_string(),
        name: name.to_string(),
        resource_version: "1".to_string(),
        annotations: OrderedMap::new(),
        text: Some(texts),
        binary: Some(binaries),
    }
}

/// Does the steps on files in memory, and says whether any file has changed; a
/// URL is answered with its own text.
fn apply(files: &mut BTreeMap<String, Vec<u8>>, steps: &[Step], unique: bool) -> bool {
    let mut changed = false;
    for step in steps {
        let op = match step {
            Step::File(op) => op,
            Step::Log(_) => continue,
        };
        let action = match update_file(op, unique) {
            Update::Do(a) => a,
            Update::Fetch(url, a) => a.fetched(Some((200, url.into_bytes()))),
            Update::Failed(_) => continue,
        };
        let path = file_path(&action.folder, &action.filename);
        if action.remove {
            let removal = remove_file(&action.folder, &action.filename, files.contains_key(&path));
            let removed = removal.path.as_ref().map_or(false, |p| files.remove(p).is_some());
            changed |= removal.outcome(removed);
            continue;
        }
        let task = match write_data_to_file(
            &action.folder,
            &action.filename,
            action.data,
            action.content_type,
            true,
        ) {
            WriteStep::ReadCurrent(t) => t,
            _ => panic!("expected to read the file"),
        };
        if let WriteStep::Write(_, t) = task.current_read(Ok(files.get(&path).cloned())) {
            files.insert(t.path, t.data);
            changed = true;
        }
    }
    changed
}

fn shown(files: &BTreeMap<String, Vec<u8>>) -> Vec<String> {
    files
        .iter()
        .map(|(k, v)| format!("{}={}", k, String::from_utf8_lossy(v)))
        .collect()
}

#[test]
fn a_folder_stays_in_step_with_a_resource() {
    let mut maps = Maps::new();
    let mut files = BTreeMap::new();
    files.insert("/d/other".to_string(), b"kept".to_vec());
    let kind = Kind::ConfigMap;
    let first = item("x", &[("a", "1"), ("b", "2"), ("p.url", "u")], &[("c", b"3")]);
    apply(&mut files, &process_resource(&mut maps, kind, &first, Some("/d"), false), false);
    assert_eq!(shown(&files), vec!["/d/a=1", "/d/b=2", "/d/c=3", "/d/other=kept", "/d/p=u"]);
    let second = item("x", &[("a", "one")], &[("c", b"3"), ("d", b"4")]);
    apply(&mut files, &process_resource(&mut maps, kind, &second, Some("/d"), false), false);
    assert_eq!(shown(&files), vec!["/d/a=one", "/d/c=3", "/d/d=4", "/d/other=kept"]);
    apply(&mut files, &process_resource(&mut maps, kind, &second, Some("/e"), false), false);
    assert_eq!(shown(&files), vec!["/d/other=kept", "/e/a=one", "/e/c=3", "/e/d=4"]);
    apply(&mut files, &process_resource(&mut maps, kind, &second, None, true), false);
    assert_eq!(shown(&files), vec!["/d/other=kept"]);
}

#[test]
fn syncing_again_changes_no_file() {
    for unique in [false, true] {
        let mut maps = Maps::new();
        let mut files = BTreeMap::new();
        let kind = Kind::ConfigMap;
        let it = item("x", &[("a", "1"), ("b/c", "2")], &[("d", b"3")]);
        let steps = process_resource(&mut maps, kind, &it, Some("/d"), false);
        assert!(apply(&mut files, &steps, unique));
        let left = files.clone();
        let steps = process_resource(&mut maps, kind, &it, Some("/d"), false);
        let changed = apply(&mut files, &steps, unique);
        assert!(!changed);
        assert_eq!(files, left);
        let (script, url) = (Some("/s".to_string()), Some("http://u".to_string()));
        assert!(follow_changes(changed, &script, &url).is_none());
    }
}

#[test]
fn keys_that_share_a_file_are_written_again() {
    let mut maps = Maps::new();
    let mut files = BTreeMap::new();
    let it = item("x", &[("/d/a", "1"), ("a", "2")], &[]);
    for _ in 0..2 {
        let steps = process_resource(&mut maps, Kind::ConfigMap, &it, Some("/d"), false);
        assert!(apply(&mut files, &steps, false));
        assert_eq!(shown(&files), vec!["/d/a=2"]);
    }
}

#[test]
fn a_removed_file_is_not_removed_again() {
    let mut files = BTreeMap::from([("/d/a".to_string(), vec![1u8]), ("/d/b".to_string(), vec![2])]);
    let mut maps = Maps::new();
    let it = item("x", &[("a", "")], &[]);
    let steps = process_resource(&mut maps, Kind::ConfigMap, &it, Some("/d"), true);
    assert!(apply(&mut files, &steps, false));
    assert!(!apply(&mut files, &steps, false));
    assert_eq!(files.keys().collect::<Vec<_>>(), vec!["/d/b"]);
}

#[test]
fn unique_names_keep_resources_apart() {
    let mut maps = Maps::new();
    let mut files = BTreeMap::new();
    for name in ["x", "y"] {
        let it = item(name, &[("a", name)], &[]);
        apply(&mut files, &process_resource(&mut maps, Kind::ConfigMap, &it, Some("/d"), false), true);
    }
    assert_eq!(
        shown(&files),
        vec!["/d/namespace_ns.configmap_x.a=x", "/d/namespace_ns.configmap_y.a=y"]
    );
}

#[test]
fn files_of_two_keys_can_get_into_each_others_way() {
    let mut maps = Maps::new();
    let mut files = BTreeMap::new();
    let it = item("x", &[("a", "1"), ("a.url", "u")], &[]);
    apply(&mut files, &process_resource(&mut maps, Kind::ConfigMap, &it, Some("/d"), false), false);
    assert_eq!(shown(&files), vec!["/d/a=u"]);
    // A folder that only gains a slash loses what was written to it.
    let it = item("y", &[("k", "1")], &[]);
    apply(&mut files, &process_resource(&mut maps, Kind::ConfigMap, &it, Some("/d"), false), false);
    apply(&mut files, &process_resource(&mut maps, Kind::ConfigMap, &it, Some("/d/"), false), false);
    assert_eq!(shown(&files), vec!["/d/a=u"]);
}
