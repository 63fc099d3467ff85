use vstd::prelude::*;

use crate::ip::IpNetwork;

verus! {

/// Payment lifecycle of a gated link's checkout session. A link created
/// without a payment step carries no status at all (`None` at the link).
#[derive(Clone, Copy, PartialEq, Eq, Structural, Debug)]
pub enum PaymentStatus {
    Pending,
    Succeeded,
    Failed,
}

/// A short-code record mapping to one or more destinations. `url` holds the
/// short code itself; `redirects` counts every successful resolution.
#[derive(PartialEq, Eq, Debug)]
pub struct Link {
    pub id: i32,
    pub url: String,
    pub redirects: i32,
    pub permanent_redirect: bool,
    pub fraud: bool,
    pub fraud_reason: Option<String>,
    pub created_by_ip: Option<IpNetwork>,
    pub stripe_session_id: Option<String>,
    pub payment_status: Option<PaymentStatus>,
}

/// One destination URL owned by a link, with its own click counter.
#[derive(PartialEq, Eq, Debug)]
pub struct Target {
    pub id: i32,
    pub link_id: i32,
    pub target_url: String,
    pub redirects: i32,
}

/// One requested destination in a creation request.
#[derive(PartialEq, Eq, Debug)]
pub struct CreateTargetDto {
    pub target_url: String,
}

/// A creation request: the redirect mode and at least one destination.
pub struct CreateLinkDto {
    pub url: Option<String>,
    pub permanent_redirect: bool,
    pub targets: Vec<CreateTargetDto>,
}

/// What a successful creation returns: either the stored link with its
/// destinations, or the hosted checkout URL the creator must visit first.
pub enum CreateResult {
    Link(LinkDto),
    StripeRedirect(String),
}

/// A link together with its destinations, as served to clients.
pub struct LinkDto {
    pub link: Link,
    pub targets: Vec<Target>,
}

/// Store-wide aggregate counts.
#[derive(Clone, Copy, PartialEq, Eq, Structural, Debug)]
pub struct TotalStats {
    pub links: i64,
    pub redirects: i64,
    pub targets: i64,
}

/// The fields of a link as handed to the store for insertion; the store
/// assigns the id and starts the counter at zero.
pub struct NewLink {
    pub url: String,
    pub permanent_redirect: bool,
    pub created_by_ip: Option<IpNetwork>,
    pub stripe_session_id: Option<String>,
    pub payment_status: Option<PaymentStatus>,
}

/// The fields of a destination as handed to the store for insertion.
pub struct NewTarget {
    pub link_id: i32,
    pub target_url: String,
}

/// A checkout session as the payment gateway reports it at creation: the
/// session reference to store, and the hosted URL to send the creator to.
pub struct PaymentSession {
    pub id: String,
    pub hosted_url: String,
}

/// A link may be resolved only when its payment status is absent or
/// `Succeeded`.
pub open spec fn spec_payable(status: Option<PaymentStatus>) -> bool {
    match status {
        None => true,
        Some(s) => s == PaymentStatus::Succeeded,
    }
}

/// Folding a gateway answer into a stored payment status: a pending session
/// becomes `Succeeded` or `Failed` according to the answer, and a status that
/// is already terminal (or absent) is left untouched.
pub open spec fn spec_reconcile(
    status: Option<PaymentStatus>,
    gateway_complete: bool,
) -> Option<PaymentStatus> {
    match status {
        Some(PaymentStatus::Pending) => if gateway_complete {
            Some(PaymentStatus::Succeeded)
        } else {
            Some(PaymentStatus::Failed)
        },
        _ => status,
    }
}

/// Whether a link with this payment status may be resolved.
pub fn is_payable(status: Option<PaymentStatus>) -> (r: bool)
    ensures
        r == spec_payable(status),
{
    match status {
        None => true,
        Some(PaymentStatus::Succeeded) => true,
        Some(_) => false,
    }
}

/// Side-effect-free transition function for the payment fold of the info
/// path; the caller persists the result.
pub fn reconcile(status: Option<PaymentStatus>, gateway_complete: bool) -> (r: Option<
    PaymentStatus,
>)
    ensures
        r == spec_reconcile(status, gateway_complete),
{
    match status {
        Some(PaymentStatus::Pending) => if gateway_complete {
            Some(PaymentStatus::Succeeded)
        } else {
            Some(PaymentStatus::Failed)
        },
        other => other,
    }
}

/// The payment fold is idempotent: once a status has been reconciled,
/// reconciling it again, with any later gateway answer, changes nothing.
/// Concurrent readers may therefore race to apply the fold safely.
pub proof fn lemma_reconcile_idempotent(
    status: Option<PaymentStatus>,
    first: bool,
    second: bool,
)
    ensures
        spec_reconcile(spec_reconcile(status, first), second) == spec_reconcile(status, first),
{
}

/// A reconciled status is never `Pending`: the transition leaves `Pending`
/// only for `Succeeded` or `Failed` and never reverts a terminal status.
pub proof fn lemma_reconcile_resolves_pending(status: Option<PaymentStatus>, complete: bool)
    ensures
        spec_reconcile(status, complete) != Some(PaymentStatus::Pending),
        status matches Some(s) && s != PaymentStatus::Pending ==> spec_reconcile(status, complete)
            == status,
        status == Some(PaymentStatus::Pending) && complete ==> spec_reconcile(status, complete)
            == Some(PaymentStatus::Succeeded),
        status == Some(PaymentStatus::Pending) && !complete ==> spec_reconcile(status, complete)
            == Some(PaymentStatus::Failed),
{
}

/// An exact copy of a link, field by field.
pub fn copy_link(l: &Link) -> (r: Link)
    ensures
        r == *l,
{
    Link {
        id: l.id,
        url: l.url.clone(),
        redirects: l.redirects,
        permanent_redirect: l.permanent_redirect,
        fraud: l.fraud,
        fraud_reason: copy_opt_string(&l.fraud_reason),
        created_by_ip: l.created_by_ip,
        stripe_session_id: copy_opt_string(&l.stripe_session_id),
        payment_status: l.payment_status,
    }
}

/// An exact copy of a target, field by field.
pub fn copy_target(t: &Target) -> (r: Target)
    ensures
        r == *t,
{
    Target { id: t.id, link_id: t.link_id, target_url: t.target_url.clone(), redirects: t.redirects }
}

/// An exact copy of an optional string.
pub fn copy_opt_string(s: &Option<String>) -> (r: Option<String>)
    ensures
        r == *s,
{
    match s {
        Some(inner) => Some(inner.clone()),
        None => None,
    }
}

} // verus!
