use k8s_sidecar::env::EnvVars;
use k8s_sidecar::http::{
    auth_value, backoff_exponent, basic_auth_header, body_if_ok, client_failed,
    credential_files, encode_as, encode_cred, fetch_basic_auth_credentials, init, read_file_content,
    request, Exchange, HttpCfg, ReadError, RequestStep,
};
use k8s_sidecar::logger::Level;

fn vars(pairs: &[(&str, &str)]) -> EnvVars {
    EnvVars::new(pairs.iter().map(|(k, v)| (k.to_string(), v.to_string())).collect())
}

fn some(s: &str) -> Option<String> {
    Some(s.to_string())
}

fn config(retry_total: u32) -> HttpCfg {
    HttpCfg {
        retry_total,
        backoff_factor: None,
        timeout: None,
        skip_tls_verify: false,
        username_file_flag: None,
        password_file_flag: None,
    }
}

fn exchange(retries: u32, method: Option<&str>, enable_5xx: bool, payload: Option<&str>) -> Exchange {
    match request(&config(retries), Some("http://host/x"), method, enable_5xx, payload) {
        RequestStep::Send(x) => x,
        _ => panic!("expected to send"),
    }
}

fn settings(pairs: &[(&str, &str)], user: Option<String>, pass: Option<String>) -> HttpCfg {
    let mut made = None;
    init(&mut made, &vars(pairs), user, pass);
    made.unwrap()
}

#[test]
fn request_settings_come_from_the_environment() {
    let c = settings(&[], None, None);
    assert_eq!(c.retry_total, 5);
    assert_eq!(c.backoff_factor, None);
    assert_eq!(c.timeout, None);
    assert!(!c.skip_tls_verify);
    let c = settings(
        &[
            ("REQ_RETRY_TOTAL", "2"),
            ("REQ_RETRY_BACKOFF_FACTOR", "0.5"),
            ("REQ_TIMEOUT", "3"),
            ("REQ_SKIP_TLS_VERIFY", "true"),
        ],
        some("/u"),
        some("/p"),
    );
    assert_eq!(c.retry_total, 2);
    assert_eq!(c.backoff_factor, some("0.5"));
    assert_eq!(c.timeout, some("3"));
    assert!(c.skip_tls_verify);
    assert_eq!(c.username_file_flag, some("/u"));
    assert_eq!(c.password_file_flag, some("/p"));
    assert!(!settings(&[("REQ_SKIP_TLS_VERIFY", "TRUE")], None, None).skip_tls_verify);
    assert_eq!(settings(&[("REQ_RETRY_TOTAL", "many")], None, None).retry_total, 5);
}

#[test]
fn settings_are_made_once() {
    let mut made = None;
    init(&mut made, &vars(&[("REQ_RETRY_TOTAL", "2"), ("REQ_TIMEOUT", "3")]), some("/u"), None);
    init(&mut made, &vars(&[("REQ_RETRY_TOTAL", "9")]), None, some("/p"));
    let c = k8s_sidecar::http::cfg(&mut made);
    assert_eq!(c.retry_total, 2);
    assert_eq!(c.timeout, some("3"));
    assert_eq!(c.username_file_flag, some("/u"));
    assert_eq!(c.password_file_flag, None);
}

#[test]
fn settings_that_were_never_made_are_the_defaults() {
    let mut made = None;
    let c = k8s_sidecar::http::cfg(&mut made);
    assert_eq!(c.retry_total, 5);
    assert!(!c.skip_tls_verify);
    init(&mut made, &vars(&[("REQ_RETRY_TOTAL", "9")]), None, None);
    assert_eq!(k8s_sidecar::http::cfg(&mut made).retry_total, 5);
}

#[test]
fn files_with_credentials_are_trimmed() {
    let (text, entry) = read_file_content("/u", Ok(" user\n".to_string()));
    assert_eq!(text, some("user"));
    assert!(entry.is_none());
    let (text, entry) = read_file_content("/u", Err(ReadError::NotFound));
    assert_eq!(text, None);
    let entry = entry.unwrap();
    assert_eq!(entry.level, Level::Warning);
    assert_eq!(entry.message, "File not found at: /u");
    let entry = read_file_content("/u", Err(ReadError::PermissionDenied)).1.unwrap();
    assert_eq!(entry.level, Level::Error);
    assert_eq!(entry.message, "No read permission for file: /u");
    let entry = read_file_content("/u", Err(ReadError::Other("odd".to_string()))).1.unwrap();
    assert_eq!(entry.level, Level::Error);
    assert_eq!(entry.message, "An unexpected error occurred: odd");
}

#[test]
fn flags_go_before_variables() {
    let v = vars(&[("REQ_USERNAME_FILE", "/env/u"), ("REQ_PASSWORD_FILE", "/env/p")]);
    let mut c = config(0);
    assert_eq!(credential_files(&c, &v), (some("/env/u"), some("/env/p")));
    c.username_file_flag = some("/flag/u");
    assert_eq!(credential_files(&c, &v), (some("/flag/u"), some("/env/p")));
    assert_eq!(credential_files(&config(0), &vars(&[])), (None, None));
}

#[test]
fn files_go_before_plain_credentials() {
    let v = vars(&[("REQ_USERNAME", "u"), ("REQ_PASSWORD", "p")]);
    assert_eq!(fetch_basic_auth_credentials(&v, None, None), (some("u"), some("p")));
    assert_eq!(
        fetch_basic_auth_credentials(&v, some("from file"), None),
        (some("from file"), some("p"))
    );
    assert_eq!(fetch_basic_auth_credentials(&vars(&[]), None, some("x")), (None, some("x")));
}

#[test]
fn credentials_are_latin_by_default() {
    let header = basic_auth_header(some("user"), some("päss"), &vars(&[]));
    assert_eq!(header, some("Basic dXNlcjpw5HNz"));
    let utf8 = vars(&[("REQ_BASIC_AUTH_ENCODING", "UTF-8")]);
    let header = basic_auth_header(some("user"), some("päss"), &utf8);
    assert_eq!(header, some("Basic dXNlcjpww6Rzcw=="));
    assert_eq!(auth_value("abc"), "Basic abc");
}

#[test]
fn encodings_are_named_in_any_case() {
    for name in ["latin1", "LATIN1", "Iso-8859-1"] {
        let header = basic_auth_header(some("user"), some("p\u{e4}ss"), &vars(&[("REQ_BASIC_AUTH_ENCODING", name)]));
        assert_eq!(header, some("Basic dXNlcjpw5HNz"));
    }
    let header = basic_auth_header(some("user"), some("p\u{e4}ss"), &vars(&[("REQ_BASIC_AUTH_ENCODING", "Ascii")]));
    assert_eq!(header, some("Basic dXNlcjpwP3Nz"));
}

#[test]
fn headers_of_every_length_are_padded() {
    let v = vars(&[]);
    assert_eq!(basic_auth_header(some("a"), some("b"), &v), some("Basic YTpi"));
    assert_eq!(basic_auth_header(some("a"), some("bc"), &v), some("Basic YTpiYw=="));
    assert_eq!(basic_auth_header(some("a"), some("bcd"), &v), some("Basic YTpiY2Q="));
    assert_eq!(basic_auth_header(some("a"), some("\u{fb}\u{ff}"), &v), some("Basic YTr7/w=="));
    assert_eq!(basic_auth_header(some("\u{fb}"), some("b"), &v), some("Basic +zpi"));
    assert_eq!(basic_auth_header(some("a>"), some("~~?"), &v), some("Basic YT46fn4/"));
}

#[test]
fn empty_credentials_are_none() {
    let v = vars(&[]);
    assert_eq!(basic_auth_header(None, some("p"), &v), None);
    assert_eq!(basic_auth_header(some("u"), None, &v), None);
    assert_eq!(basic_auth_header(some(""), some("p"), &v), None);
    assert_eq!(basic_auth_header(some("u"), some(""), &v), None);
}

#[test]
fn characters_that_do_not_fit_become_question_marks() {
    assert_eq!(encode_cred("aé€", "LATIN-1"), vec![0x61, 0xe9, 0x3f]);
    assert_eq!(encode_cred("aé€", "Iso-8859-1"), vec![0x61, 0xe9, 0x3f]);
    assert_eq!(encode_cred("é", "ASCII"), vec![0x3f]);
    assert_eq!(encode_cred("a\u{7f}\u{80}€", "ascii"), vec![0x61, 0x7f, 0x3f, 0x3f]);
    assert_eq!(encode_cred("é", "utf-8"), vec![0xc3, 0xa9]);
    assert_eq!(encode_as("ÿ", "latin1"), vec![0xff]);
    assert_eq!(encode_as("ÿ", "LATIN1"), "ÿ".as_bytes());
}

#[test]
fn nothing_is_requested_without_url_or_method() {
    match request(&config(1), None, None, false, None) {
        RequestStep::Nothing(entry) => {
            assert_eq!(entry.level, Level::Warning);
            assert_eq!(entry.message, "No url provided. Doing nothing.");
        }
        _ => panic!("expected nothing"),
    }
    match request(&config(1), Some("http://host"), Some("PUT"), false, None) {
        RequestStep::Nothing(entry) => {
            assert_eq!(entry.level, Level::Warning);
            assert_eq!(
                entry.message,
                "Invalid REQ_METHOD: 'PUT', please use 'GET' or 'POST'. Doing nothing."
            );
        }
        _ => panic!("expected nothing"),
    }
    assert!(matches!(
        request(&config(1), Some("http://host"), Some("get"), false, None),
        RequestStep::Nothing(_)
    ));
}

#[test]
fn posts_send_json() {
    assert_eq!(exchange(0, None, false, None).json_body(), None);
    assert_eq!(exchange(0, Some("GET"), false, Some("{}")).json_body(), None);
    assert_eq!(exchange(0, Some("POST"), false, Some("{}")).json_body(), some("{}"));
    assert_eq!(exchange(0, Some("POST"), false, None).json_body(), some("null"));
}

#[test]
fn overloaded_answers_are_asked_for_again() {
    for status in [500, 502, 503, 504] {
        let mut x = exchange(2, None, false, None);
        for attempt in 1..=2 {
            x = match x.status_received(status) {
                RequestStep::Send(y) => y,
                _ => panic!("expected to send again"),
            };
            assert_eq!(x.attempt, attempt);
        }
        match x.status_received(status) {
            RequestStep::GiveUp(first, second) => {
                assert_eq!(first.level, Level::Error);
                assert_eq!(
                    first.message,
                    format!(
                        "Max retries exceeded for URL http://host/x: too many {} error responses \
                         (Caused by ResponseError('too many {} error responses'))",
                        status, status
                    )
                );
                assert_eq!(second.level, Level::Debug);
                assert_eq!(second.message, "Returning dummy response for URL http://host/x");
            }
            _ => panic!("expected to give up"),
        }
    }
    for status in [200, 404, 501, 505] {
        assert!(matches!(
            exchange(2, None, false, None).status_received(status),
            RequestStep::ReadBody(_)
        ));
    }
    assert!(matches!(
        exchange(2, None, true, None).status_received(503),
        RequestStep::ReadBody(_)
    ));
}

#[test]
fn failed_attempts_are_made_again() {
    let x = exchange(1, None, false, None);
    let x = match x.failed("refused") {
        RequestStep::Send(y) => y,
        _ => panic!("expected to send again"),
    };
    match x.failed("refused again") {
        RequestStep::GiveUp(first, _) => {
            assert_eq!(first.message, "Max retries exceeded for URL http://host/x: refused again");
        }
        _ => panic!("expected to give up"),
    }
    assert!(matches!(
        exchange(0, None, false, None).failed("refused"),
        RequestStep::GiveUp(_, _)
    ));
}

#[test]
fn waits_grow_from_the_second_retry_on() {
    assert_eq!(backoff_exponent(0), None);
    assert_eq!(backoff_exponent(1), None);
    assert_eq!(backoff_exponent(2), Some(1));
    assert_eq!(backoff_exponent(5), Some(4));
}

#[test]
fn responses_are_logged() {
    let entry = exchange(0, None, false, None).body_received(200, "OK", b"hi\xff");
    assert_eq!(entry.level, Level::Info);
    assert_eq!(entry.message, "Request sent to http://host/x. Response: 200 OK hi\u{fffd}");
    let entry = exchange(0, Some("POST"), false, Some("{\"a\":1}")).body_received(404, "Not Found", b"");
    assert_eq!(entry.message, "{\"a\":1} sent to http://host/x. Response: 404 Not Found ");
    let entry = exchange(0, Some("POST"), false, None).response_entry(200, "", "done");
    assert_eq!(entry.message, "None sent to http://host/x. Response: 200  done");
}

#[test]
fn a_client_that_cannot_be_made_is_logged() {
    let (first, second) = client_failed("http://host", "builder error");
    assert_eq!(first.level, Level::Error);
    assert_eq!(first.message, "Unexpected error during request to http://host: builder error");
    assert_eq!(second.message, "Returning dummy response for URL http://host");
}

#[test]
fn bad_responses_have_no_content() {
    assert_eq!(body_if_ok(Some((200, vec![1, 2]))), vec![1, 2]);
    assert_eq!(body_if_ok(Some((399, vec![1]))), vec![1]);
    assert_eq!(body_if_ok(Some((400, vec![1]))), Vec::<u8>::new());
    assert_eq!(body_if_ok(Some((503, vec![1]))), Vec::<u8>::new());
    assert_eq!(body_if_ok(None), Vec::<u8>::new());
}
