use netscene_lib::address::{parse_host_internal, parse_pihole_urls, parse_pihole_urls_internal};
use netscene_lib::error::PiholeError;
use netscene_lib::fetch::{assess, is_html, Action, AuthReply, Phase, Reply, StatsFetch, Verdict};
use netscene_lib::stats::{validate_pihole_response_internal, Percentage, PiholeStats};

fn stats_with(percentage: f64, status: &str) -> PiholeStats {
    PiholeStats {
        domains_being_blocked: 100000,
        dns_queries_today: 5000,
        ads_blocked_today: 1500,
        ads_percentage_today: Percentage::from_bits(percentage.to_bits()),
        status: status.to_string(),
    }
}

fn json_reply(status: u16, percentage: f64) -> Reply {
    let body = format!(
        "{{\"domains_being_blocked\":100000,\"dns_queries_today\":5000,\"ads_blocked_today\":1500,\"ads_percentage_today\":{:?},\"status\":\"enabled\"}}",
        percentage
    );
    Reply::Answered { status, body, stats: Some(stats_with(percentage, "enabled")) }
}

fn probe_url(a: &Action) -> String {
    match a {
        Action::Probe { url, .. } => url.clone(),
        other => panic!("expected a probe, got {:?}", other),
    }
}

#[test]
fn test_parse_host_with_protocol() {
    let url = parse_host_internal("https://192.168.1.100").unwrap();
    assert_eq!(url.scheme(), "https");
    assert_eq!(url.host_str().unwrap(), "192.168.1.100");
    assert_eq!(url.path(), "/admin/api.php");
    assert_eq!(url.query(), Some("summaryRaw"));
}

#[test]
fn test_parse_host_without_protocol() {
    let url = parse_host_internal("192.168.1.100").unwrap();
    assert_eq!(url.scheme(), "http");
    assert_eq!(url.host_str().unwrap(), "192.168.1.100");
    assert_eq!(url.path(), "/admin/api.php");
    assert_eq!(url.query(), Some("summaryRaw"));
}

#[test]
fn test_parse_host_with_port() {
    let url = parse_host_internal("192.168.1.100:8080").unwrap();
    assert_eq!(url.scheme(), "http");
    assert_eq!(url.host_str().unwrap(), "192.168.1.100");
    assert_eq!(url.port(), Some(8080));
}

#[test]
fn test_parse_host_empty() {
    let result = parse_host_internal("");
    assert!(result.is_err());
    match result.unwrap_err() {
        PiholeError::InvalidHost(_) => {}
        _ => panic!("Expected InvalidHost error"),
    }
}

#[test]
fn test_validate_pihole_response_success() {
    let stats = stats_with(30.0, "enabled");
    let result = validate_pihole_response_internal(&stats);
    assert!(result.is_ok());
}

#[test]
fn test_validate_pihole_response_empty_status() {
    let stats = stats_with(30.0, "");
    let result = validate_pihole_response_internal(&stats);
    assert!(result.is_err());
    match result.unwrap_err() {
        PiholeError::ValidationError { .. } => {}
        _ => panic!("Expected ValidationError"),
    }
}

#[test]
fn test_validate_pihole_response_invalid_percentage() {
    let stats = stats_with(150.0, "enabled");
    let result = validate_pihole_response_internal(&stats);
    assert!(result.is_err());
    match result.unwrap_err() {
        PiholeError::ValidationError { .. } => {}
        _ => panic!("Expected ValidationError"),
    }
}

#[test]
fn validate_accepts_exactly_hundred() {
    assert!(validate_pihole_response_internal(&stats_with(100.0, "enabled")).is_ok());
}

#[test]
fn validate_rejects_just_above_hundred() {
    let above = f64::from_bits(100.0f64.to_bits() + 1);
    assert!(validate_pihole_response_internal(&stats_with(above, "enabled")).is_err());
    assert!(validate_pihole_response_internal(&stats_with(f64::INFINITY, "enabled")).is_err());
}

#[test]
fn validate_leaves_negative_share_unchecked() {
    assert!(validate_pihole_response_internal(&stats_with(-5.0, "enabled")).is_ok());
    assert!(validate_pihole_response_internal(&stats_with(0.0, "enabled")).is_ok());
}

#[test]
fn validate_reasons_name_the_rule() {
    match validate_pihole_response_internal(&stats_with(150.0, "")) {
        Err(PiholeError::ValidationError { reason }) => assert_eq!(reason, "Status field is empty"),
        _ => panic!("Expected ValidationError"),
    }
    match validate_pihole_response_internal(&stats_with(150.0, "enabled")) {
        Err(PiholeError::ValidationError { reason }) => {
            assert_eq!(reason, "Ads percentage cannot exceed 100%")
        }
        _ => panic!("Expected ValidationError"),
    }
}

#[test]
fn resolve_legacy_and_modern_candidates() {
    let (legacy, modern) = parse_pihole_urls_internal("192.168.1.100").unwrap();
    assert_eq!(legacy.path(), "/admin/api.php");
    assert_eq!(legacy.query(), Some("summaryRaw"));
    assert_eq!(modern.path(), "/api/stats/summary");
    assert_eq!(modern.query(), None);
    assert_eq!(legacy.scheme(), "http");
    assert_eq!(modern.scheme(), "http");
    assert_eq!(legacy.host_str(), Some("192.168.1.100"));
    assert_eq!(modern.host_str(), Some("192.168.1.100"));
    assert_eq!(legacy.as_str(), "http://192.168.1.100/admin/api.php?summaryRaw");
    assert_eq!(modern.as_str(), "http://192.168.1.100/api/stats/summary");
}

#[test]
fn resolve_trims_and_keeps_https() {
    let (legacy, modern) = parse_pihole_urls("  https://pi.hole:8443  ").unwrap();
    assert_eq!(legacy.as_str(), "https://pi.hole:8443/admin/api.php?summaryRaw");
    assert_eq!(modern.as_str(), "https://pi.hole:8443/api/stats/summary");
    assert_eq!(modern.port(), Some(8443));
}

#[test]
fn resolve_whitespace_only_host_is_invalid() {
    assert!(matches!(parse_pihole_urls(" \t\n "), Err(PiholeError::InvalidHost(_))));
}

#[test]
fn resolve_bad_port_is_invalid_url() {
    assert!(matches!(parse_pihole_urls("192.168.1.100:99999"), Err(PiholeError::InvalidUrl(_))));
    assert!(matches!(parse_pihole_urls("bad host name"), Err(PiholeError::InvalidUrl(_))));
}

#[test]
fn html_bodies_are_recognized() {
    assert!(is_html("  <!DOCTYPE html><html></html>"));
    assert!(is_html("\n<html><body>login</body></html>"));
    assert!(!is_html("<HTML>"));
    assert!(!is_html("{\"status\":\"enabled\"}"));
}

#[test]
fn assess_skips_unusable_replies() {
    assert!(matches!(assess(Reply::Unreachable), Verdict::Skip));
    let not_found = Reply::Answered { status: 404, body: "nope".to_string(), stats: None };
    assert!(matches!(assess(not_found), Verdict::Skip));
    let empty = Reply::Answered { status: 200, body: String::new(), stats: Some(stats_with(1.0, "enabled")) };
    assert!(matches!(assess(empty), Verdict::Skip));
    let html = Reply::Answered { status: 200, body: "<html>".to_string(), stats: Some(stats_with(1.0, "enabled")) };
    assert!(matches!(assess(html), Verdict::Skip));
    let garbage = Reply::Answered { status: 200, body: "invalid json".to_string(), stats: None };
    assert!(matches!(assess(garbage), Verdict::Skip));
}

#[test]
fn fetch_without_password_probes_modern_first() {
    let (fetch, action) = StatsFetch::start("192.168.1.100", None).unwrap();
    assert_eq!(fetch.phase, Phase::ProbingModern);
    assert_eq!(probe_url(&action), "http://192.168.1.100/api/stats/summary");
}

#[test]
fn fetch_falls_back_to_legacy_and_succeeds() {
    let (mut fetch, _) = StatsFetch::start("127.0.0.1:1234", None).unwrap();
    let next = fetch.on_reply(Reply::Answered { status: 501, body: String::new(), stats: None });
    assert_eq!(probe_url(&next), "http://127.0.0.1:1234/admin/api.php?summaryRaw");
    match fetch.on_reply(json_reply(200, 30.0)) {
        Action::Finish(Ok(stats)) => {
            assert_eq!(stats.domains_being_blocked, 100000);
            assert_eq!(stats.dns_queries_today, 5000);
            assert_eq!(stats.ads_blocked_today, 1500);
            assert_eq!(f64::from_bits(stats.ads_percentage_today.to_bits()), 30.0);
            assert_eq!(stats.status, "enabled");
        }
        other => panic!("expected statistics, got {:?}", other),
    }
    assert_eq!(fetch.phase, Phase::Succeeded);
}

#[test]
fn fetch_server_errors_exhaust_both_endpoints() {
    let (mut fetch, _) = StatsFetch::start("127.0.0.1:1234", None).unwrap();
    let next = fetch.on_reply(Reply::Answered { status: 500, body: String::new(), stats: None });
    assert!(matches!(next, Action::Probe { .. }));
    match fetch.on_reply(Reply::Answered { status: 500, body: String::new(), stats: None }) {
        Action::Finish(Err(PiholeError::JsonError(_))) => {}
        other => panic!("Expected JsonError, got {:?}", other),
    }
    assert_eq!(fetch.phase, Phase::Exhausted);
}

#[test]
fn fetch_invalid_json_ends_with_json_error() {
    let (mut fetch, _) = StatsFetch::start("127.0.0.1:1234", None).unwrap();
    fetch.on_reply(Reply::Unreachable);
    let last = fetch.on_reply(Reply::Answered { status: 200, body: "invalid json".to_string(), stats: None });
    match last {
        Action::Finish(Err(PiholeError::JsonError(_))) => {}
        _ => panic!("Expected JsonError"),
    }
}

#[test]
fn fetch_insane_answer_stops_without_fallback() {
    let (mut fetch, _) = StatsFetch::start("127.0.0.1:1234", None).unwrap();
    match fetch.on_reply(json_reply(200, 150.0)) {
        Action::Finish(Err(PiholeError::ValidationError { .. })) => {}
        _ => panic!("Expected ValidationError"),
    }
    assert_eq!(fetch.phase, Phase::Rejected);
}

#[test]
fn fetch_with_password_authenticates_first() {
    let (mut fetch, action) = StatsFetch::start("pi.hole", Some("secret")).unwrap();
    assert_eq!(fetch.phase, Phase::Authenticating);
    match action {
        Action::Authenticate { url, password } => {
            assert_eq!(url, "http://pi.hole/api/auth");
            assert_eq!(password, "secret");
        }
        other => panic!("expected authentication, got {:?}", other),
    }
    let next = fetch.on_auth(AuthReply::Answered { status: 200, session_id: Some("abc".to_string()) });
    match next {
        Action::Probe { url, credential } => {
            assert_eq!(url, "http://pi.hole/api/stats/summary");
            assert_eq!(credential, Some("abc".to_string()));
        }
        other => panic!("expected a probe, got {:?}", other),
    }
    match fetch.on_reply(Reply::Unreachable) {
        Action::Probe { credential, .. } => assert_eq!(credential, Some("abc".to_string())),
        other => panic!("expected a probe, got {:?}", other),
    }
}

#[test]
fn fetch_rejected_password_proceeds_without_credential() {
    let (mut fetch, _) = StatsFetch::start("pi.hole", Some("wrong")).unwrap();
    let next = fetch.on_auth(AuthReply::Answered { status: 401, session_id: Some("ignored".to_string()) });
    match next {
        Action::Probe { credential, .. } => assert_eq!(credential, None),
        other => panic!("expected a probe, got {:?}", other),
    }
    let (mut other, _) = StatsFetch::start("pi.hole", Some("pw")).unwrap();
    assert!(matches!(other.on_auth(AuthReply::Unreachable), Action::Probe { credential: None, .. }));
}

#[test]
fn fetch_start_reports_host_errors() {
    assert!(matches!(StatsFetch::start("   ", None), Err(PiholeError::InvalidHost(_))));
    assert!(matches!(StatsFetch::start("host:port", Some("x")), Err(PiholeError::InvalidUrl(_))));
}

#[test]
fn fetch_twice_gives_identical_stats() {
    let run = || {
        let (mut fetch, _) = StatsFetch::start("192.168.1.100", None).unwrap();
        match fetch.on_reply(json_reply(200, 42.5)) {
            Action::Finish(Ok(stats)) => stats,
            other => panic!("expected statistics, got {:?}", other),
        }
    };
    let a = run();
    let b = run();
    assert_eq!(a.domains_being_blocked, b.domains_being_blocked);
    assert_eq!(a.dns_queries_today, b.dns_queries_today);
    assert_eq!(a.ads_blocked_today, b.ads_blocked_today);
    assert_eq!(a.ads_percentage_today, b.ads_percentage_today);
    assert_eq!(a.status, b.status);
}

#[test]
fn resolve_modern_keeps_base_query_legacy_overrides() {
    let (legacy, modern) = parse_pihole_urls("http://pi.hole/?x=1").unwrap();
    assert_eq!(legacy.query(), Some("summaryRaw"));
    assert_eq!(modern.query(), Some("x=1"));
    assert_eq!(modern.as_str(), "http://pi.hole/api/stats/summary?x=1");
}

#[test]
fn resolve_long_host_is_not_invalid_host() {
    let host = format!("{}.example", "a".repeat(300));
    assert!(!matches!(parse_pihole_urls(&host), Err(PiholeError::InvalidHost(_))));
}
