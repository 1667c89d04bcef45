use k8s_sidecar::env::EnvVars;
use k8s_sidecar::files::{
    file_path, remove_file, same_bytes, unique_filename, write_data_to_file, FolderError, WriteError,
    WriteStep, WriteTask, CONTENT_TYPE_TEXT,
};
use k8s_sidecar::logger::Level;

fn vars(pairs: &[(&str, &str)]) -> EnvVars {
    EnvVars::new(pairs.iter().map(|(k, v)| (k.to_string(), v.to_string())).collect())
}

fn task(data: &[u8]) -> WriteTask {
    match write_data_to_file("/data", "a.txt", data.to_vec(), CONTENT_TYPE_TEXT, true) {
        WriteStep::ReadCurrent(t) => t,
        _ => panic!("expected to read the file"),
    }
}

#[test]
fn paths_are_joined() {
    assert_eq!(file_path("/data", "a.txt"), "/data/a.txt");
    assert_eq!(file_path("/data/", "a.txt"), "/data/a.txt");
    assert_eq!(file_path("", "a.txt"), "a.txt");
    assert_eq!(file_path("/data", "/etc/x"), "/etc/x");
    assert_eq!(file_path("/data", ""), "/data/");
    for (folder, name) in [("/data", "a"), ("/data/", "a"), ("", "a"), ("x", "/y"), ("x", ""), ("/", "a")] {
        let joined = std::path::Path::new(folder).join(name);
        assert_eq!(file_path(folder, name), joined.to_str().unwrap());
    }
}

#[test]
fn unique_names_say_where_files_come_from() {
    assert_eq!(
        unique_filename("hello.txt", "default", "configmap", "sample"),
        "namespace_default.configmap_sample.hello.txt"
    );
    let one = unique_filename("f", "a", "configmap", "b");
    assert_ne!(one, unique_filename("f", "b", "configmap", "a"));
    assert_ne!(one, unique_filename("f", "a", "secret", "b"));
    assert_ne!(one, unique_filename("g", "a", "configmap", "b"));
    // A dot in a name can make two resources share a file name.
    assert_eq!(
        unique_filename("y.z", "n", "secret", "x"),
        unique_filename("z", "n", "secret", "x.y")
    );
}

#[test]
fn a_missing_folder_is_made_first() {
    let step = write_data_to_file("/data", "a.txt", vec![1], CONTENT_TYPE_TEXT, false);
    let t = match step {
        WriteStep::MakeFolder(t) => t,
        _ => panic!("expected to make the folder"),
    };
    assert_eq!(t.folder, "/data");
    assert_eq!(t.path, "/data/a.txt");
    assert_eq!(t.data, vec![1]);
    assert!(matches!(t.folder_made(Ok(())), WriteStep::ReadCurrent(_)));
    assert!(matches!(
        task(b"x").folder_made(Err(FolderError::AlreadyExists)),
        WriteStep::ReadCurrent(_)
    ));
    assert!(matches!(
        task(b"x").folder_made(Err(FolderError::Other)),
        WriteStep::Done(None, Err(WriteError::FileSystem))
    ));
}

#[test]
fn a_forbidden_folder_is_passed_over() {
    match task(b"x").folder_made(Err(FolderError::PermissionDenied)) {
        WriteStep::Done(Some(entry), Ok(false)) => {
            assert_eq!(entry.level, Level::Error);
            assert_eq!(
                entry.message,
                "Error: insufficient privileges to create /data. Skipping a.txt."
            );
        }
        _ => panic!("expected to be done"),
    }
}

#[test]
fn unchanged_content_is_not_written_again() {
    match task(b"same").current_read(Ok(Some(b"same".to_vec()))) {
        WriteStep::Done(Some(entry), Ok(false)) => {
            assert_eq!(entry.level, Level::Debug);
            assert_eq!(
                entry.message,
                "Contents of a.txt haven't changed. Not overwriting existing file"
            );
        }
        _ => panic!("expected to be done"),
    }
}

#[test]
fn new_and_changed_content_is_written() {
    for current in [None, Some(b"old".to_vec()), Some(Vec::new())] {
        match task(b"new").current_read(Ok(current)) {
            WriteStep::Write(entry, t) => {
                assert_eq!(entry.level, Level::Info);
                assert_eq!(entry.message, "Writing /data/a.txt (ascii)");
                assert_eq!(t.data, b"new");
            }
            _ => panic!("expected to write"),
        }
    }
    assert!(matches!(
        task(b"new").current_read(Err(())),
        WriteStep::Done(None, Err(WriteError::FileSystem))
    ));
}

#[test]
fn digests_decide() {
    assert!(matches!(
        task(b"x").compare_digests(&[1, 2], &[1, 2]),
        WriteStep::Done(Some(_), Ok(false))
    ));
    assert!(matches!(
        task(b"x").compare_digests(&[1, 2], &[1, 3]),
        WriteStep::Write(_, _)
    ));
    assert!(same_bytes(&[], &[]));
    assert!(!same_bytes(&[1], &[1, 2]));
}

#[test]
fn the_file_mode_is_set_after_writing() {
    assert!(matches!(
        task(b"x").written(Ok(()), &vars(&[])),
        WriteStep::Done(None, Ok(true))
    ));
    assert!(matches!(
        task(b"x").written(Ok(()), &vars(&[("DEFAULT_FILE_MODE", "")])),
        WriteStep::Done(None, Ok(true))
    ));
    match task(b"x").written(Ok(()), &vars(&[("DEFAULT_FILE_MODE", "640")])) {
        WriteStep::SetMode(mode, t) => {
            assert_eq!(mode, 0o640);
            assert!(matches!(t.mode_set(Ok(())), WriteStep::Done(None, Ok(true))));
        }
        _ => panic!("expected to set the mode"),
    }
    assert!(matches!(
        task(b"x").mode_set(Err(())),
        WriteStep::Done(None, Err(WriteError::FileSystem))
    ));
    assert!(matches!(
        task(b"x").written(Ok(()), &vars(&[("DEFAULT_FILE_MODE", "rw-r--r--")])),
        WriteStep::Done(None, Err(WriteError::BadFileMode))
    ));
    assert!(matches!(
        task(b"x").written(Err(()), &vars(&[("DEFAULT_FILE_MODE", "640")])),
        WriteStep::Done(None, Err(WriteError::FileSystem))
    ));
}

#[test]
fn removing_a_missing_file_is_an_error() {
    let there = remove_file("/data", "a.txt", true);
    assert_eq!(there.log.level, Level::Info);
    assert_eq!(there.log.message, "Removing /data/a.txt");
    assert_eq!(there.path, Some("/data/a.txt".to_string()));
    assert!(there.outcome(true));
    assert!(!there.outcome(false));
    let gone = remove_file("/data", "a.txt", false);
    assert_eq!(gone.log.level, Level::Error);
    assert_eq!(gone.log.message, "Unable to remove /data/a.txt, file not found");
    assert_eq!(gone.path, None);
    assert!(!gone.outcome(true));
}
