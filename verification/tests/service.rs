use urllb::error::Error;
use urllb::filter::AbuseFilter;
use urllb::info::{link_info_apply, link_info_query, InfoStep};
use urllb::ip::{anonymize_ip, IpNetwork};
use urllb::model::{
    CreateLinkDto, CreateResult, CreateTargetDto, PaymentSession, PaymentStatus,
};
use urllb::provision::post_link;
use urllb::resolve::{resolve_link, resolve_link_at, ResolveOutcome};
use urllb::store::LinkStore;

fn dto(urls: &[&str]) -> CreateLinkDto {
    CreateLinkDto {
        url: None,
        permanent_redirect: false,
        targets: urls
            .iter()
            .map(|u| CreateTargetDto {
                target_url: u.to_string(),
            })
            .collect(),
    }
}

fn some_ip() -> IpNetwork {
    IpNetwork::V4 {
        o0: 192,
        o1: 168,
        o2: 5,
        o3: 37,
        prefix_len: 32,
    }
}

fn open_filter() -> AbuseFilter {
    AbuseFilter::new(
        vec!["evil.com".to_string(), "scam".to_string()],
        vec!["https://youtube.com".to_string(), "https://example.org".to_string()],
    )
}

fn session() -> Option<PaymentSession> {
    Some(PaymentSession {
        id: "cs_test_123".to_string(),
        hosted_url: "https://checkout.example/cs_test_123".to_string(),
    })
}

#[test]
fn whitelisted_creation_persists_link_with_targets_in_order() {
    let mut store = LinkStore::new();
    let body = dto(&[
        "https://example.org/a",
        "https://example.org/b",
        "https://example.org/c",
    ]);
    let r = post_link(
        &mut store,
        &open_filter(),
        &body,
        "abc12".to_string(),
        some_ip(),
        None,
    );
    match r {
        Ok(CreateResult::Link(payload)) => {
            assert_eq!(payload.link.url, "abc12");
            assert_eq!(payload.link.redirects, 0);
            assert_eq!(payload.link.payment_status, None);
            assert_eq!(payload.link.stripe_session_id, None);
            assert!(!payload.link.fraud);
            assert_eq!(payload.targets.len(), 3);
            assert_eq!(payload.targets[0].target_url, "https://example.org/a");
            assert_eq!(payload.targets[1].target_url, "https://example.org/b");
            assert_eq!(payload.targets[2].target_url, "https://example.org/c");
            for t in &payload.targets {
                assert_eq!(t.redirects, 0);
                assert_eq!(t.link_id, payload.link.id);
            }
        }
        other => panic!("expected a stored link, got {:?}", status_of(&other)),
    }
}

#[test]
fn creation_stores_anonymized_creator_network() {
    let mut store = LinkStore::new();
    let body = dto(&["https://example.org/a"]);
    let r = post_link(
        &mut store,
        &open_filter(),
        &body,
        "abc12".to_string(),
        some_ip(),
        None,
    );
    assert!(r.is_ok());
    assert_eq!(
        store.links[0].created_by_ip,
        Some(anonymize_ip(some_ip()))
    );
    assert_eq!(
        store.links[0].created_by_ip,
        Some(IpNetwork::V4 {
            o0: 192,
            o1: 168,
            o2: 5,
            o3: 0,
            prefix_len: 24
        })
    );
}

fn status_of(r: &Result<CreateResult, Error>) -> u16 {
    match r {
        Ok(_) => 200,
        Err(e) => e.status_code(),
    }
}

#[test]
fn non_whitelisted_creation_is_pending_and_redirects_to_checkout() {
    let mut store = LinkStore::new();
    let body = dto(&["https://not-listed.net/x"]);
    let r = post_link(
        &mut store,
        &open_filter(),
        &body,
        "code0".to_string(),
        some_ip(),
        session(),
    );
    match r {
        Ok(CreateResult::StripeRedirect(url)) => {
            assert_eq!(url, "https://checkout.example/cs_test_123");
        }
        other => panic!("expected a payment redirect, got {:?}", status_of(&other)),
    }
    assert_eq!(
        store.links[0].payment_status,
        Some(PaymentStatus::Pending)
    );
    assert_eq!(
        store.links[0].stripe_session_id,
        Some("cs_test_123".to_string())
    );
}

#[test]
fn gateway_failure_aborts_creation_without_orphan_link() {
    let mut store = LinkStore::new();
    let body = dto(&["https://not-listed.net/x"]);
    let r = post_link(
        &mut store,
        &open_filter(),
        &body,
        "code0".to_string(),
        some_ip(),
        None,
    );
    assert_eq!(r.err(), Some(Error::UpstreamFailure));
    assert_eq!(store.links.len(), 0);
    assert_eq!(store.targets.len(), 0);
}

#[test]
fn reconcile_on_read_succeeds_exactly_once() {
    let mut store = LinkStore::new();
    let body = dto(&["https://not-listed.net/x"]);
    post_link(
        &mut store,
        &open_filter(),
        &body,
        "code0".to_string(),
        some_ip(),
        session(),
    )
    .unwrap();

    match link_info_query(&store, "code0") {
        InfoStep::NeedsCheck { session_id } => assert_eq!(session_id, "cs_test_123"),
        _ => panic!("a pending link must ask for a gateway check"),
    }

    let first = link_info_apply(&mut store, "code0", true).unwrap();
    assert_eq!(first.link.payment_status, Some(PaymentStatus::Succeeded));
    assert_eq!(first.link.stripe_session_id, None);
    assert_eq!(store.links[0].payment_status, Some(PaymentStatus::Succeeded));

    let again = link_info_apply(&mut store, "code0", false).unwrap();
    assert_eq!(again.link.payment_status, Some(PaymentStatus::Succeeded));
    assert_eq!(store.links[0].payment_status, Some(PaymentStatus::Succeeded));

    match link_info_query(&store, "code0") {
        InfoStep::Done(payload) => {
            assert_eq!(payload.link.payment_status, Some(PaymentStatus::Succeeded));
            assert_eq!(payload.link.stripe_session_id, None);
        }
        _ => panic!("a succeeded link is served directly"),
    }
}

#[test]
fn reconcile_incomplete_fails_link_and_hides_it() {
    let mut store = LinkStore::new();
    let body = dto(&["https://not-listed.net/x"]);
    post_link(
        &mut store,
        &open_filter(),
        &body,
        "code0".to_string(),
        some_ip(),
        session(),
    )
    .unwrap();

    let r = link_info_apply(&mut store, "code0", false);
    assert_eq!(r.err(), Some(Error::NotFound));
    assert_eq!(store.links[0].payment_status, Some(PaymentStatus::Failed));

    match resolve_link(&mut store, "code0") {
        ResolveOutcome::NotFound => {}
        _ => panic!("a failed link must resolve to nothing"),
    }
    match link_info_query(&store, "code0") {
        InfoStep::NotFound => {}
        _ => panic!("a failed link must serve nothing"),
    }
}

#[test]
fn pending_link_resolves_to_not_found() {
    let mut store = LinkStore::new();
    let body = dto(&["https://not-listed.net/x"]);
    post_link(
        &mut store,
        &open_filter(),
        &body,
        "code0".to_string(),
        some_ip(),
        session(),
    )
    .unwrap();
    match resolve_link(&mut store, "code0") {
        ResolveOutcome::NotFound => {}
        _ => panic!("a pending link must resolve to nothing"),
    }
    assert_eq!(store.links[0].redirects, 0);
    assert_eq!(store.targets[0].redirects, 0);
}

#[test]
fn every_redirect_hits_one_target_and_counts_one_click() {
    let mut store = LinkStore::new();
    let body = dto(&[
        "https://example.org/a",
        "https://example.org/b",
        "https://example.org/c",
    ]);
    post_link(
        &mut store,
        &open_filter(),
        &body,
        "abc12".to_string(),
        some_ip(),
        None,
    )
    .unwrap();

    for pick in 0..3usize {
        match resolve_link_at(&mut store, "abc12", pick) {
            ResolveOutcome::Redirect { url, permanent } => {
                assert_eq!(url, body.targets[pick].target_url);
                assert!(!permanent);
            }
            _ => panic!("a payable link with targets must redirect"),
        }
    }
    assert_eq!(store.links[0].redirects, 3);
    for t in &store.targets {
        assert_eq!(t.redirects, 1);
    }

    let urls: Vec<String> = body.targets.iter().map(|t| t.target_url.clone()).collect();
    match resolve_link(&mut store, "abc12") {
        ResolveOutcome::Redirect { url, .. } => assert!(urls.contains(&url)),
        _ => panic!("a payable link with targets must redirect"),
    }
    assert_eq!(store.links[0].redirects, 4);
    let total: i32 = store.targets.iter().map(|t| t.redirects).sum();
    assert_eq!(total, 4);
}

#[test]
fn permanent_mode_is_reported_with_the_redirect() {
    let mut store = LinkStore::new();
    let mut body = dto(&["https://example.org/a"]);
    body.permanent_redirect = true;
    post_link(
        &mut store,
        &open_filter(),
        &body,
        "abc12".to_string(),
        some_ip(),
        None,
    )
    .unwrap();
    match resolve_link_at(&mut store, "abc12", 7) {
        ResolveOutcome::Redirect { url, permanent } => {
            assert_eq!(url, "https://example.org/a");
            assert!(permanent);
        }
        _ => panic!("a payable link with targets must redirect"),
    }
}

#[test]
fn fraudulent_link_serves_reason_and_counts_nothing() {
    let mut store = LinkStore::new();
    let body = dto(&["https://example.org/a", "https://example.org/b"]);
    post_link(
        &mut store,
        &open_filter(),
        &body,
        "abc12".to_string(),
        some_ip(),
        None,
    )
    .unwrap();
    store.links[0].fraud = true;
    store.links[0].fraud_reason = Some("used in a phishing attack".to_string());

    for _ in 0..2 {
        match resolve_link(&mut store, "abc12") {
            ResolveOutcome::FraudBlocked(reason) => {
                assert_eq!(reason, "used in a phishing attack");
            }
            _ => panic!("a fraudulent link must be blocked"),
        }
    }
    assert_eq!(store.links[0].redirects, 0);
    assert_eq!(store.targets[0].redirects, 0);
    assert_eq!(store.targets[1].redirects, 0);
    assert_eq!(Error::FraudBlocked.status_code(), 451);
}

#[test]
fn fraudulent_link_without_reason_serves_default() {
    let mut store = LinkStore::new();
    let body = dto(&["https://example.org/a"]);
    post_link(
        &mut store,
        &open_filter(),
        &body,
        "abc12".to_string(),
        some_ip(),
        None,
    )
    .unwrap();
    store.links[0].fraud = true;
    match resolve_link(&mut store, "abc12") {
        ResolveOutcome::FraudBlocked(reason) => assert_eq!(reason, "No reason"),
        _ => panic!("a fraudulent link must be blocked"),
    }
}

#[test]
fn unknown_code_is_not_found() {
    let mut store = LinkStore::new();
    match resolve_link(&mut store, "nope!") {
        ResolveOutcome::NotFound => {}
        _ => panic!("an unknown code must resolve to nothing"),
    }
    assert!(store.get_link_and_targets("nope!").is_err());
    assert_eq!(Error::NotFound.status_code(), 404);
}

#[test]
fn duplicate_code_is_a_storage_failure() {
    let mut store = LinkStore::new();
    let body = dto(&["https://example.org/a"]);
    let filter = open_filter();
    post_link(
        &mut store,
        &filter,
        &body,
        "abc12".to_string(),
        some_ip(),
        None,
    )
    .unwrap();
    let r = post_link(
        &mut store,
        &filter,
        &body,
        "abc12".to_string(),
        some_ip(),
        None,
    );
    assert_eq!(r.err(), Some(Error::UpstreamFailure));
    assert_eq!(store.links.len(), 1);
    assert_eq!(Error::UpstreamFailure.status_code(), 500);
}
