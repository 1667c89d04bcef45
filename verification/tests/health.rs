use k8s_sidecar::env::EnvVars;
use k8s_sidecar::health::{
    bind_target, fallback_entry, handle, health_port, mark_ready, path_of, preferred_address,
    register_watchers, render_response, respond, start_failure, starting_entry, status_body,
    update_k8s_contact, watcher_stopped, BindTarget, Health,
};
use k8s_sidecar::logger::Level;

fn vars(pairs: &[(&str, &str)]) -> EnvVars {
    EnvVars::new(pairs.iter().map(|(k, v)| (k.to_string(), v.to_string())).collect())
}

fn ready() -> Health {
    let mut h = Health::new();
    mark_ready(&mut h);
    h
}

#[test]
fn the_sidecar_starts_unready() {
    let h = Health::new();
    assert_eq!(status_body(&h, 0), (503, "Service Unavailable", "NOT READY"));
    assert_eq!(status_body(&ready(), 0), (200, "OK", "OK"));
}

#[test]
fn silence_is_noticed_after_a_minute() {
    let mut h = ready();
    update_k8s_contact(&mut h, 1000);
    assert_eq!(status_body(&h, 61_000).0, 200);
    assert_eq!(
        status_body(&h, 61_001),
        (503, "Service Unavailable", "NOT LIVE (K8s contact lost)")
    );
    assert_eq!(status_body(&h, 1_000_000).0, 503);
    assert_eq!(status_body(&h, 0).0, 200);
    update_k8s_contact(&mut h, 1_000_000);
    assert_eq!(status_body(&h, 1_000_000).0, 200);
}

#[test]
fn a_dead_watcher_is_noticed() {
    let mut h = ready();
    register_watchers(&mut h, vec![true, true]);
    assert_eq!(status_body(&h, 0).0, 200);
    watcher_stopped(&mut h, 7);
    assert_eq!(status_body(&h, 0).0, 200);
    watcher_stopped(&mut h, 1);
    assert_eq!(h.watchers, vec![true, false]);
    assert_eq!(
        status_body(&h, 0),
        (503, "Service Unavailable", "NOT LIVE (watcher thread died)")
    );
}

#[test]
fn the_path_is_the_second_word() {
    assert_eq!(path_of("GET /healthz HTTP/1.1\r\nHost: x\r\n"), "/healthz");
    assert_eq!(path_of("GET\r\n/healthz"), "/");
    assert_eq!(path_of(""), "/");
    assert_eq!(path_of("\nGET /healthz"), "/");
}

#[test]
fn requests_are_answered() {
    let h = ready();
    assert_eq!(
        respond(&h, 0, "GET /healthz HTTP/1.1\r\n"),
        "HTTP/1.0 200 OK\r\nServer: HealthHTTP/1.0\r\nContent-Type: text/plain; charset=utf-8\r\n\
         Content-Length: 2\r\nConnection: close\r\n\r\nOK"
    );
    assert_eq!(
        respond(&h, 0, "GET /other HTTP/1.1\r\n"),
        "HTTP/1.0 404 Not Found\r\nServer: HealthHTTP/1.0\r\nContent-Type: text/plain; charset=utf-8\r\n\
         Content-Length: 9\r\nConnection: close\r\n\r\nNot Found"
    );
    assert!(respond(&Health::new(), 0, "GET /healthz").starts_with("HTTP/1.0 503 Service Unavailable\r\n"));
    assert!(render_response(200, "OK", "ä").contains("Content-Length: 2\r\n"));
}

#[test]
fn bytes_are_answered() {
    let h = ready();
    assert_eq!(handle(&h, 0, b""), None);
    let text = handle(&h, 0, b"\xff\xfe /healthz").unwrap();
    assert!(text.starts_with("HTTP/1.0 200 OK\r\n"));
    assert!(text.ends_with("\r\n\r\nOK"));
}

#[test]
fn the_port_has_a_default() {
    assert_eq!(health_port(&vars(&[])), 8080);
    assert_eq!(health_port(&vars(&[("HEALTH_PORT", "9000")])), 9000);
    assert_eq!(health_port(&vars(&[("HEALTH_PORT", "65536")])), 8080);
    assert_eq!(health_port(&vars(&[("HEALTH_PORT", "x")])), 8080);
}

#[test]
fn the_host_can_be_chosen() {
    assert!(matches!(bind_target(&vars(&[])), BindTarget::Any));
    assert!(matches!(bind_target(&vars(&[("HEALTH_HOST", "")])), BindTarget::Any));
    match bind_target(&vars(&[("HEALTH_HOST", "127.0.0.1")])) {
        BindTarget::Host(h) => assert_eq!(h, "127.0.0.1"),
        BindTarget::Any => panic!("expected a host"),
    }
}

#[test]
fn ipv6_is_preferred() {
    assert_eq!(preferred_address(&vec![]), None);
    assert_eq!(preferred_address(&vec![false, false]), Some(0));
    assert_eq!(preferred_address(&vec![false, true, true]), Some(1));
}

#[test]
fn the_server_is_logged() {
    assert_eq!(fallback_entry().level, Level::Warning);
    assert_eq!(
        fallback_entry().message,
        "IPv6 not available, falling back to IPv4 for the health server"
    );
    assert_eq!(starting_entry(8080).message, "Starting health server on port 8080");
    assert_eq!(start_failure("in use").message, "Failed to start health server: in use");
    assert_eq!(start_failure("in use").level, Level::Error);
}
