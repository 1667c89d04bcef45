use k8s_sidecar::logger::Level;
use k8s_sidecar::script::{bytes_repr, execute, finished, start_failure};

#[test]
fn bytes_are_shown_printable() {
    assert_eq!(bytes_repr(b""), "b''");
    assert_eq!(bytes_repr(b"a\\c\n\r\t"), "b'a\\\\c\\n\\r\\t'");
    assert_eq!(bytes_repr(&[0x61, 0x0a, 0x09, 0x5c, 0x00, 0x7f, 0xff]), "b'a\\n\\t\\\\\\x00\\x7f\\xff'");
    assert_eq!(bytes_repr(b"\x00\x1f ~\x7f\xff"), "b'\\x00\\x1f ~\\x7f\\xff'");
    let all: Vec<u8> = (0..=255).collect();
    for c in bytes_repr(&all).chars() {
        assert!((' '..='~').contains(&c));
    }
}

#[test]
fn quotes_are_chosen_to_need_no_escape() {
    assert_eq!(bytes_repr(b"it's"), "b\"it's\"");
    assert_eq!(bytes_repr(b"say \"hi\""), "b'say \"hi\"'");
    assert_eq!(bytes_repr(b"it's \"it\""), "b'it\\'s \"it\"'");
    assert_eq!(bytes_repr(b"'\n"), "b\"'\\n\"");
}

#[test]
fn different_bytes_are_shown_differently() {
    let samples: Vec<Vec<u8>> = vec![
        b"".to_vec(),
        b"n".to_vec(),
        b"\n".to_vec(),
        b"\\n".to_vec(),
        b"\\x00".to_vec(),
        b"\x00".to_vec(),
        b"'".to_vec(),
        b"\"".to_vec(),
        b"'\"".to_vec(),
        b"\\'".to_vec(),
    ];
    for (i, a) in samples.iter().enumerate() {
        for (j, b) in samples.iter().enumerate() {
            assert_eq!(bytes_repr(a) == bytes_repr(b), i == j);
        }
    }
}

#[test]
fn executable_scripts_are_run_directly() {
    let e = execute("/s.sh", Some(0o755));
    assert_eq!(e.start.level, Level::Info);
    assert_eq!(e.start.message, "Executing script from /s.sh");
    assert_eq!(e.program, "/s.sh");
    assert!(e.args.is_empty());
    assert_eq!(e.argv, "['/s.sh']");
    assert_eq!(execute("/s.sh", Some(0o001)).program, "/s.sh");
    assert_eq!(execute("/s.sh", Some(0o100644 | 0o010)).program, "/s.sh");
}

#[test]
fn other_scripts_are_run_by_the_shell() {
    for mode in [None, Some(0o644), Some(0o100666)] {
        let e = execute("/s.sh", mode);
        assert_eq!(e.program, "sh");
        assert_eq!(e.args, vec!["/s.sh"]);
        assert_eq!(e.argv, "['sh', '/s.sh']");
    }
}

#[test]
fn output_is_logged() {
    let log = finished("['/s.sh']", true, Some(0), b"hi\n", b"");
    let shown: Vec<String> = log.iter().map(|e| e.message.clone()).collect();
    assert_eq!(
        shown,
        vec!["Script stdout: b'hi\\n'", "Script stderr: b''", "Script exit code: 0"]
    );
    assert!(log.iter().all(|e| e.level == Level::Debug));
}

#[test]
fn failures_are_logged_only() {
    let log = finished("['/s.sh']", false, Some(3), b"hi", b"");
    assert_eq!(log.len(), 1);
    assert_eq!(log[0].level, Level::Error);
    assert_eq!(
        log[0].message,
        "Script failed with error: Command '['/s.sh']' returned non-zero exit status 3."
    );
    let log = finished("['sh', '/s.sh']", false, None, b"", b"");
    assert_eq!(
        log[0].message,
        "Script failed with error: Command '['sh', '/s.sh']' returned non-zero exit status -1."
    );
    assert_eq!(start_failure("/s.sh", "No such file"), "No such file: '/s.sh'");
}
