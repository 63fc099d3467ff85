use urllb::codegen::generate_code;
use urllb::error::Error;
use urllb::filter::AbuseFilter;
use urllb::ip::{anonymize_ip, IpNetwork};
use urllb::model::{reconcile, CreateLinkDto, CreateTargetDto, PaymentStatus};
use urllb::provision::{post_link, validate_request};
use urllb::resolve::ResolveOutcome;
use urllb::stats::{total_stats, StatsCache};
use urllb::store::LinkStore;

fn dto(urls: &[&str]) -> CreateLinkDto {
    CreateLinkDto {
        url: None,
        permanent_redirect: false,
        targets: urls
            .iter()
            .map(|u| CreateTargetDto {
                target_url: u.to_string(),
            })
            .collect(),
    }
}

fn v4(o0: u8, o1: u8, o2: u8, o3: u8) -> IpNetwork {
    IpNetwork::V4 {
        o0,
        o1,
        o2,
        o3,
        prefix_len: 32,
    }
}

#[test]
fn anonymize_keeps_the_slash_24_network() {
    let a = anonymize_ip(v4(192, 168, 5, 37));
    let b = anonymize_ip(v4(192, 168, 5, 200));
    let c = anonymize_ip(v4(192, 168, 6, 1));
    assert_eq!(a, b);
    assert_ne!(a, c);
    assert_eq!(
        a,
        IpNetwork::V4 {
            o0: 192,
            o1: 168,
            o2: 5,
            o3: 0,
            prefix_len: 24
        }
    );
}

#[test]
fn anonymize_keeps_four_ipv6_segments() {
    let a = anonymize_ip(IpNetwork::V6 {
        s0: 0x2001,
        s1: 0xdb8,
        s2: 0x1,
        s3: 0x2,
        s4: 0x3,
        s5: 0x4,
        s6: 0x5,
        s7: 0x6,
        prefix_len: 128,
    });
    assert_eq!(
        a,
        IpNetwork::V6 {
            s0: 0x2001,
            s1: 0xdb8,
            s2: 0x1,
            s3: 0x2,
            s4: 0,
            s5: 0,
            s6: 0,
            s7: 0,
            prefix_len: 120,
        }
    );
}

#[test]
fn generated_codes_are_short_and_url_safe() {
    for _ in 0..16 {
        let code = generate_code();
        assert_eq!(code.len(), 5);
        assert!(code
            .chars()
            .all(|c| c.is_ascii_alphanumeric() || c == '_' || c == '-'));
    }
}

#[test]
fn validation_rejects_empty_and_malformed_requests() {
    assert!(!validate_request(&dto(&[])));
    assert!(!validate_request(&dto(&["not a url"])));
    assert!(!validate_request(&dto(&["https://example.org/a", "http"])));
    assert!(validate_request(&dto(&[
        "https://example.org/a",
        "http://localhost:80"
    ])));

    let mut store = LinkStore::new();
    let filter = AbuseFilter::new(vec![], vec![]);
    let ip = v4(10, 0, 0, 1);
    let r = post_link(&mut store, &filter, &dto(&[]), "abc12".to_string(), ip, None);
    assert_eq!(r.err(), Some(Error::ValidationError));
    assert_eq!(Error::ValidationError.status_code(), 400);
    let r = post_link(
        &mut store,
        &filter,
        &dto(&["nonsense"]),
        "abc12".to_string(),
        ip,
        None,
    );
    assert_eq!(r.err(), Some(Error::ValidationError));
    assert_eq!(store.links.len(), 0);
}

#[test]
fn blacklist_matches_anywhere_in_any_target() {
    let filter = AbuseFilter::new(
        vec!["evil.com".to_string()],
        vec!["https://example.org".to_string()],
    );
    let mut store = LinkStore::new();
    let ip = v4(10, 0, 0, 1);

    let first = dto(&["https://evil.com/x", "https://example.org/a"]);
    let last = dto(&["https://example.org/a", "https://sub.evil.com/deep/path"]);
    for body in [&first, &last] {
        let r = post_link(&mut store, &filter, body, "abc12".to_string(), ip, None);
        assert_eq!(r.err(), Some(Error::AbuseRejected));
    }
    assert_eq!(store.links.len(), 0);
    assert_eq!(Error::AbuseRejected.status_code(), 403);

    assert!(filter.is_blacklisted(&last.targets));
    assert!(!filter.is_blacklisted(&dto(&["https://example.org/a"]).targets));
}

#[test]
fn one_whitelisted_target_skips_payment_for_the_whole_request() {
    let filter = AbuseFilter::new(
        vec!["evil.com".to_string()],
        vec!["https://example.org".to_string()],
    );
    let mut store = LinkStore::new();
    let body = dto(&["https://not-listed.net/x", "https://example.org/a"]);
    assert!(filter.is_whitelisted(&body.targets));
    let r = post_link(
        &mut store,
        &filter,
        &body,
        "abc12".to_string(),
        v4(10, 0, 0, 1),
        None,
    );
    match r {
        Ok(urllb::model::CreateResult::Link(payload)) => {
            assert_eq!(payload.link.payment_status, None);
            assert_eq!(payload.targets.len(), 2);
        }
        _ => panic!("an any-target whitelist hit must skip payment"),
    }
}

#[test]
fn reconcile_is_total_and_idempotent() {
    assert_eq!(
        reconcile(Some(PaymentStatus::Pending), true),
        Some(PaymentStatus::Succeeded)
    );
    assert_eq!(
        reconcile(Some(PaymentStatus::Pending), false),
        Some(PaymentStatus::Failed)
    );
    assert_eq!(reconcile(None, true), None);
    assert_eq!(reconcile(None, false), None);
    for status in [Some(PaymentStatus::Succeeded), Some(PaymentStatus::Failed)] {
        for answer in [true, false] {
            assert_eq!(reconcile(status, answer), status);
        }
    }
}

#[test]
fn stats_reads_inside_the_window_are_frozen() {
    let mut store = LinkStore::new();
    let filter = AbuseFilter::new(vec![], vec!["https://example.org".to_string()]);
    let ip = v4(10, 0, 0, 1);
    post_link(
        &mut store,
        &filter,
        &dto(&["https://example.org/a", "https://example.org/b"]),
        "code1".to_string(),
        ip,
        None,
    )
    .unwrap();

    let mut cache = StatsCache::new(120);
    let first = total_stats(&store, &mut cache, 1000);
    assert_eq!(first.links, 1);
    assert_eq!(first.targets, 2);
    assert_eq!(first.redirects, 0);

    post_link(
        &mut store,
        &filter,
        &dto(&["https://example.org/c"]),
        "code2".to_string(),
        ip,
        None,
    )
    .unwrap();
    match urllb::resolve::resolve_link(&mut store, "code1") {
        ResolveOutcome::Redirect { .. } => {}
        _ => panic!("a payable link with targets must redirect"),
    }

    let second = total_stats(&store, &mut cache, 1119);
    assert_eq!(second, first);

    let third = total_stats(&store, &mut cache, 1120);
    assert_eq!(third.links, 2);
    assert_eq!(third.targets, 3);
    assert_eq!(third.redirects, 1);

    let fourth = total_stats(&store, &mut cache, 1121);
    assert_eq!(fourth, third);
}

#[test]
fn stats_of_an_empty_store_are_zero() {
    let store = LinkStore::new();
    let mut cache = StatsCache::new(120);
    let s = total_stats(&store, &mut cache, 0);
    assert_eq!(s.links, 0);
    assert_eq!(s.targets, 0);
    assert_eq!(s.redirects, 0);
}

#[test]
fn best_effort_increment_ignores_unknown_rows() {
    let mut store = LinkStore::new();
    let filter = AbuseFilter::new(vec![], vec!["https://example.org".to_string()]);
    post_link(
        &mut store,
        &filter,
        &dto(&["https://example.org/a"]),
        "code1".to_string(),
        v4(10, 0, 0, 1),
        None,
    )
    .unwrap();
    let stray_link = urllb::model::Link {
        id: 99,
        url: "zzzzz".to_string(),
        redirects: 0,
        permanent_redirect: false,
        fraud: false,
        fraud_reason: None,
        created_by_ip: None,
        stripe_session_id: None,
        payment_status: None,
    };
    let stray_target = urllb::model::Target {
        id: 99,
        link_id: 99,
        target_url: "https://example.org/zzz".to_string(),
        redirects: 0,
    };
    let r = store.increase_redirect_count(&stray_link, &stray_target);
    assert!(r.is_ok());
    assert_eq!(store.links[0].redirects, 0);
    assert_eq!(store.targets[0].redirects, 0);
}
