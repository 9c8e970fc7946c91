use scriptorium::config::FetchConfig;
use scriptorium::error::{Code, Error};
use scriptorium::fetch::{
    answered_type, check_literal, check_resolved, check_status, check_url, fetch_failed,
    is_disallowed, judge_url, lookup_target, BodyMeter, Fetch, FetchAction, FetchEvent, FetchOutcome,
    FetchPhase, FetchStage, HostCheck, IpAddr, LiteralCheck, Resolved, UrlParts,
};

fn v4(text: &str) -> IpAddr {
    let octets: Vec<u8> = text.split('.').map(|o| o.parse().unwrap()).collect();
    IpAddr::V4([octets[0], octets[1], octets[2], octets[3]])
}

fn guarded() -> FetchConfig {
    FetchConfig::default()
}

fn open() -> FetchConfig {
    FetchConfig { allow_private_network: true, ..FetchConfig::default() }
}

fn other(message: &str) -> Error {
    Error::Other(message.to_string())
}

#[test]
fn rejects_ipv4_ranges() {
    for ip in [
        "127.0.0.1",
        "10.0.0.1",
        "192.168.1.1",
        "172.16.5.5",
        "169.254.1.1",
        "100.64.0.1",
        "0.0.0.0",
    ] {
        assert!(is_disallowed(&v4(ip)), "should reject {ip}");
    }
}

#[test]
fn allows_public_ipv4() {
    for ip in ["8.8.8.8", "1.1.1.1", "93.184.216.34"] {
        assert!(!is_disallowed(&v4(ip)), "should allow {ip}");
    }
}

#[test]
fn rejects_ipv6_loopback_and_ula() {
    let cases = [
        ("::1", [0, 0, 0, 0, 0, 0, 0, 1]),
        ("fc00::1", [0xfc00, 0, 0, 0, 0, 0, 0, 1]),
        ("fd12:3456:789a::1", [0xfd12, 0x3456, 0x789a, 0, 0, 0, 0, 1]),
        ("fe80::1", [0xfe80, 0, 0, 0, 0, 0, 0, 1]),
    ];
    for (ip, segments) in cases {
        assert!(is_disallowed(&IpAddr::V6(segments)), "should reject {ip}");
    }
}

#[test]
fn ranges_end_where_they_should() {
    for ip in [
        "0.255.255.255", "100.127.255.255", "172.31.255.255", "255.255.255.255", "192.0.2.1",
        "198.51.100.7", "203.0.113.255",
    ] {
        assert!(is_disallowed(&v4(ip)), "should reject {ip}");
    }
    for ip in [
        "1.0.0.0", "9.255.255.255", "11.0.0.0", "100.63.255.255", "100.128.0.0", "126.1.1.1",
        "128.0.0.1", "169.253.1.1", "169.255.1.1", "172.15.255.255", "172.32.0.0", "192.167.1.1",
        "192.169.1.1", "192.0.1.1", "192.0.3.1", "255.255.255.254",
    ] {
        assert!(!is_disallowed(&v4(ip)), "should allow {ip}");
    }
    for (no, segments) in [
        (true, [0, 0, 0, 0, 0, 0, 0, 0]),
        (false, [0, 0, 0, 0, 0, 0, 0, 2]),
        (false, [0, 0, 0, 0, 0, 0, 1, 1]),
        (true, [0xff02, 0, 0, 0, 0, 0, 0, 1]),
        (true, [0xfdff, 1, 0, 0, 0, 0, 0, 1]),
        (false, [0xfe00, 0, 0, 0, 0, 0, 0, 1]),
        (true, [0xfebf, 0, 0, 0, 0, 0, 0, 1]),
        (false, [0xfec0, 0, 0, 0, 0, 0, 0, 1]),
        (false, [0xfbff, 0, 0, 0, 0, 0, 0, 1]),
        (false, [0x2606, 0x4700, 0, 0, 0, 0, 0, 1]),
    ] {
        assert_eq!(is_disallowed(&IpAddr::V6(segments)), no, "{segments:x?}");
    }
}

#[test]
fn urls_are_read_and_judged() {
    assert_eq!(
        check_url(&guarded(), "http://example.com/x"),
        Ok(HostCheck::MustBePublic { host: "example.com".to_string(), port: 80 })
    );
    assert_eq!(
        check_url(&guarded(), "HTTPS://Example.COM"),
        Ok(HostCheck::MustBePublic { host: "example.com".to_string(), port: 443 })
    );
    assert_eq!(
        check_url(&guarded(), "http://127.0.0.1:1/"),
        Ok(HostCheck::MustBePublic { host: "127.0.0.1".to_string(), port: 1 })
    );
    assert_eq!(check_url(&open(), "http://127.0.0.1:1/"), Ok(HostCheck::AnyHost));
}

#[test]
fn urls_that_will_not_do_are_refused() {
    assert_eq!(
        check_url(&guarded(), "no url"),
        Err(other("bad url: relative URL without a base"))
    );
    for cfg in [guarded(), open()] {
        assert_eq!(
            check_url(&cfg, "ftp://example.com/x"),
            Err(other("unsupported url scheme: ftp — only http/https allowed"))
        );
    }
    assert_eq!(
        check_url(&guarded(), "file:///etc/passwd"),
        Err(other("unsupported url scheme: file — only http/https allowed"))
    );
}

#[test]
fn judging_goes_by_the_parts() {
    let parts = |host: Option<&str>, port: Option<u16>| UrlParts {
        scheme: "http".to_string(),
        host: host.map(str::to_string),
        port,
    };
    assert_eq!(judge_url(&guarded(), Ok(parts(None, None))), Err(other("url has no host")));
    assert_eq!(judge_url(&open(), Ok(parts(None, None))), Ok(HostCheck::AnyHost));
    assert_eq!(
        judge_url(&guarded(), Ok(parts(Some("h"), None))),
        Ok(HostCheck::MustBePublic { host: "h".to_string(), port: 80 })
    );
    assert_eq!(
        judge_url(&guarded(), Err("odd".to_string())),
        Err(other("bad url: odd"))
    );
    assert_eq!(lookup_target("h", 8080), "h:8080");
}

#[test]
fn literal_addresses_are_judged_directly() {
    let refused = check_literal("127.0.0.1", Some(v4("127.0.0.1")));
    assert_eq!(
        refused,
        Err(other("refusing to fetch disallowed literal address: 127.0.0.1"))
    );
    assert_eq!(refused.unwrap_err().code(), Code::Internal);
    assert_eq!(check_literal("8.8.8.8", Some(v4("8.8.8.8"))), Ok(LiteralCheck::Public));
    assert_eq!(check_literal("example.com", None), Ok(LiteralCheck::NeedsLookup));
}

fn resolved(texts: &[&str]) -> Vec<Resolved> {
    texts.iter().map(|t| Resolved { ip: v4(t), text: t.to_string() }).collect()
}

#[test]
fn all_addresses_of_a_host_have_to_be_public() {
    assert_eq!(check_resolved("h", Ok(resolved(&["8.8.8.8", "1.1.1.1"]))), Ok(()));
    assert_eq!(
        check_resolved("h", Ok(resolved(&["8.8.8.8", "10.0.0.1", "127.0.0.1"]))),
        Err(other("refusing to fetch h: resolved to disallowed address 10.0.0.1"))
    );
    assert_eq!(check_resolved("h", Ok(vec![])), Err(other("dns: no records for h")));
    assert_eq!(
        check_resolved("h", Err("timeout".to_string())),
        Err(other("dns resolve h: timeout"))
    );
}

#[test]
fn only_success_is_taken() {
    for status in [200, 204, 299] {
        assert_eq!(check_status(status), Ok(()));
    }
    for status in [0, 199, 300, 404, 500] {
        assert_eq!(
            check_status(status),
            Err(other(&format!("fetch returned non-2xx status: {status}")))
        );
    }
    assert_eq!(answered_type(Some("text/html".to_string())), "text/html");
    assert_eq!(answered_type(None), "application/octet-stream");
}

#[test]
fn bodies_are_stopped_at_the_limit() {
    let cfg = FetchConfig { max_body_bytes: 10, ..FetchConfig::default() };
    let mut meter = BodyMeter::new(&cfg);
    assert_eq!(meter.let_through(4), Ok(()));
    assert_eq!(meter.let_through(6), Ok(()));
    assert_eq!(
        meter.let_through(1),
        Err(other("fetch body exceeded max_body_bytes (11 > 10)"))
    );
    assert_eq!(
        meter.finish("t".to_string(), 200),
        FetchOutcome { bytes_written: 10, content_type: "t".to_string(), http_status: 200 }
    );
}

#[test]
fn failures_outside_are_named() {
    assert_eq!(fetch_failed(FetchStage::Client, "x"), other("http client build: x"));
    assert_eq!(fetch_failed(FetchStage::Send, "x"), other("fetch: x"));
    assert_eq!(fetch_failed(FetchStage::Body, "x"), other("fetch body: x"));
}

fn answered(http_status: u16) -> FetchEvent {
    FetchEvent::Answered { http_status, content_type: Some("text/html".to_string()) }
}

#[test]
fn hosts_are_asked_once_seen_to_be_public() {
    let (fetch, action) = Fetch::start(&guarded(), "https://example.com/x");
    assert_eq!(action, FetchAction::Read("example.com".to_string()));
    let (fetch, action) = fetch.step(FetchEvent::Read(None));
    assert_eq!(action, FetchAction::LookUp("example.com:443".to_string()));
    let (fetch, action) = fetch.step(FetchEvent::LookedUp(Ok(resolved(&["93.184.216.34"]))));
    assert_eq!(action, FetchAction::Ask);
    let (fetch, action) = fetch.step(answered(200));
    assert_eq!(action, FetchAction::Receive);
    let (fetch, action) = fetch.step(FetchEvent::Chunk(3));
    assert_eq!(action, FetchAction::Write);
    let (fetch, action) = fetch.step(FetchEvent::Chunk(4));
    assert_eq!(action, FetchAction::Write);
    let (fetch, action) = fetch.step(FetchEvent::Ended);
    assert_eq!(
        action,
        FetchAction::Done(FetchOutcome {
            bytes_written: 7,
            content_type: "text/html".to_string(),
            http_status: 200
        })
    );
    assert_eq!(fetch.phase, FetchPhase::Over);
}

#[test]
fn hosts_that_are_not_public_are_not_asked() {
    let (fetch, action) = Fetch::start(&guarded(), "http://127.0.0.1:1/");
    assert_eq!(action, FetchAction::Read("127.0.0.1".to_string()));
    let (fetch, action) = fetch.step(FetchEvent::Read(Some(v4("127.0.0.1"))));
    assert_eq!(
        action,
        FetchAction::Fail(other("refusing to fetch disallowed literal address: 127.0.0.1"))
    );
    assert_eq!(fetch.phase, FetchPhase::Over);

    let (fetch, _) = Fetch::start(&guarded(), "http://inside.example/");
    let (fetch, _) = fetch.step(FetchEvent::Read(None));
    let (_, action) = fetch.step(FetchEvent::LookedUp(Ok(resolved(&["8.8.8.8", "10.0.0.1"]))));
    assert_eq!(
        action,
        FetchAction::Fail(other(
            "refusing to fetch inside.example: resolved to disallowed address 10.0.0.1"
        ))
    );
}

#[test]
fn public_literal_addresses_are_asked_without_a_lookup() {
    let (fetch, _) = Fetch::start(&guarded(), "http://8.8.8.8/");
    let (_, action) = fetch.step(FetchEvent::Read(Some(v4("8.8.8.8"))));
    assert_eq!(action, FetchAction::Ask);
}

#[test]
fn any_host_is_asked_where_the_guard_is_off() {
    let (_, action) = Fetch::start(&open(), "http://127.0.0.1:1/");
    assert_eq!(action, FetchAction::Ask);
    let (fetch, action) = Fetch::start(&open(), "gopher://x/");
    assert_eq!(
        action,
        FetchAction::Fail(other("unsupported url scheme: gopher — only http/https allowed"))
    );
    assert_eq!(fetch.phase, FetchPhase::Over);
}

#[test]
fn downloads_fail_with_what_went_wrong() {
    let cfg = FetchConfig { max_body_bytes: 10, ..open() };
    let asking = || Fetch::start(&cfg, "http://h/").0;
    let (_, action) = asking().step(answered(404));
    assert_eq!(action, FetchAction::Fail(other("fetch returned non-2xx status: 404")));
    let (_, action) =
        asking().step(FetchEvent::Failed(FetchStage::Send, "refused".to_string()));
    assert_eq!(action, FetchAction::Fail(other("fetch: refused")));
    let (fetch, _) = asking().step(answered(200));
    let (fetch, action) = fetch.step(FetchEvent::Chunk(10));
    assert_eq!(action, FetchAction::Write);
    let (fetch, action) = fetch.step(FetchEvent::Chunk(1));
    assert_eq!(
        action,
        FetchAction::Fail(other("fetch body exceeded max_body_bytes (11 > 10)"))
    );
    assert_eq!(fetch.meter.written, 10);
}

#[test]
fn downloads_start_as_judged() {
    let (_, action) = Fetch::start_checked(
        &guarded(),
        Ok(HostCheck::MustBePublic { host: "h".to_string(), port: 9 }),
    );
    assert_eq!(action, FetchAction::Read("h".to_string()));
    let (_, action) = Fetch::start_checked(&guarded(), Err(other("no")));
    assert_eq!(action, FetchAction::Fail(other("no")));
}
