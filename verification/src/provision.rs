use vstd::prelude::*;

use crate::error::Error;
use crate::filter::{spec_any_blacklisted, spec_any_whitelisted, spec_urls_of, AbuseFilter};
use crate::ip::{anonymize_ip, spec_anonymize_ip, IpNetwork};
use crate::model::{
    CreateLinkDto, CreateResult, CreateTargetDto, Link, LinkDto, NewLink, PaymentSession,
    PaymentStatus, Target,
};
use crate::store::{spec_new_target_records, LinkStore};

verus! {

/// What the URL parser behind the validation step accepts: whether a string
/// is a well-formed absolute URL. The answer depends on the characters
/// alone.
pub uninterp spec fn is_well_formed_url(s: Seq<char>) -> bool;

/// Relies on validator's ValidateUrl for string slices, which parses the
/// candidate as an absolute URL and reports whether parsing succeeded.
#[verifier::external_body]
pub(crate) fn validate_url(s: &str) -> (r: bool)
    ensures
        r == is_well_formed_url(s@),
{
    validator::ValidateUrl::validate_url(&s)
}

/// Every requested destination parses as a well-formed absolute URL.
pub open spec fn spec_all_urls_valid(ts: Seq<CreateTargetDto>) -> bool {
    forall|i: int| 0 <= i < ts.len() ==> is_well_formed_url((#[trigger] ts[i]).target_url@)
}

/// A creation request is well-formed when it names at least one destination
/// and every destination is a well-formed URL.
pub open spec fn spec_request_valid(dto: CreateLinkDto) -> bool {
    dto.targets@.len() >= 1 && spec_all_urls_valid(dto.targets@)
}

/// The request trips the blacklist: some destination contains some
/// blacklisted substring.
pub open spec fn spec_blacklisted_req(filter: AbuseFilter, dto: CreateLinkDto) -> bool {
    spec_any_blacklisted(filter.blacklist.deep_view(), spec_urls_of(dto.targets@))
}

/// The request is whitelisted as a whole: some destination starts with some
/// whitelisted prefix.
pub open spec fn spec_whitelisted_req(filter: AbuseFilter, dto: CreateLinkDto) -> bool {
    spec_any_whitelisted(filter.whitelist.deep_view(), spec_urls_of(dto.targets@))
}

/// Checks the shape of a creation request: at least one destination, each a
/// well-formed absolute URL.
pub fn validate_request(dto: &CreateLinkDto) -> (r: bool)
    ensures
        r == spec_request_valid(*dto),
{
    if dto.targets.len() < 1 {
        return false;
    }
    let mut i: usize = 0;
    while i < dto.targets.len()
        invariant
            i <= dto.targets@.len(),
            forall|x: int|
                0 <= x < i ==> is_well_formed_url((#[trigger] dto.targets@[x]).target_url@),
        decreases dto.targets@.len() - i,
    {
        if !validate_url(dto.targets[i].target_url.as_str()) {
            return false;
        }
        i += 1;
    }
    true
}

/// The store after a successful creation: one link row appended carrying the
/// code, the redirect mode, the anonymized creator network, the session
/// reference and status; and one target row per requested destination, in
/// submission order, all counters at zero.
pub open spec fn spec_store_gained_link(
    pre: LinkStore,
    post: LinkStore,
    dto: CreateLinkDto,
    code: Seq<char>,
    user_ip: IpNetwork,
    session_ref: Option<String>,
    status: Option<PaymentStatus>,
) -> bool {
    let n = pre.links@.len() as int;
    let l = post.links@[n];
    &&& post.links@.len() == pre.links@.len() + 1
    &&& post.links@.subrange(0, n) == pre.links@
    &&& l.id as int == n
    &&& l.url@ == code
    &&& l.redirects == 0
    &&& l.permanent_redirect == dto.permanent_redirect
    &&& l.fraud == false
    &&& l.fraud_reason is None
    &&& l.created_by_ip == Some(spec_anonymize_ip(user_ip))
    &&& l.stripe_session_id == session_ref
    &&& l.payment_status == status
    &&& post.targets@ == pre.targets@ + spec_new_target_records(
        dto.targets@,
        pre.targets@.len() as int,
        n,
    )
    &&& post.spec_targets_of(n) == spec_new_target_records(dto.targets@, pre.targets@.len() as int, n)
    &&& post.spec_has_code(code)
    &&& post.spec_link_at(code) == n
}

/// Persists a link with its targets: the service-level insert of the
/// creation flow. The creator's address is anonymized before it is stored; a
/// session reference, when present, stores the link as `Pending`.
pub fn create_link(
    store: &mut LinkStore,
    create: &CreateLinkDto,
    path: &str,
    user_ip: IpNetwork,
    stripe_session: Option<String>,
) -> (r: Result<(Link, Vec<Target>), Error>)
    requires
        old(store).wf(),
        path@.len() > 0,
        create.targets@.len() >= 1,
        old(store).links@.len() + 1 <= i32::MAX as int,
        old(store).targets@.len() + create.targets@.len() <= i32::MAX as int,
    ensures
        final(store).wf(),
        match r {
            Ok(p) => {
                &&& !old(store).spec_has_code(path@)
                &&& spec_store_gained_link(
                    *old(store),
                    *final(store),
                    *create,
                    path@,
                    user_ip,
                    stripe_session,
                    (match stripe_session {
                        Some(_) => Some(PaymentStatus::Pending),
                        None => None,
                    }),
                )
                &&& p.0 == final(store).links@[old(store).links@.len() as int]
                &&& p.1@ == final(store).spec_targets_of(old(store).links@.len() as int)
            },
            Err(e) => {
                &&& e == Error::UpstreamFailure
                &&& old(store).spec_has_code(path@)
                &&& final(store).links@ == old(store).links@
                &&& final(store).targets@ == old(store).targets@
            },
        },
{
    let payment_status = match &stripe_session {
        Some(_) => Some(PaymentStatus::Pending),
        None => None,
    };
    let new_link = NewLink {
        url: path.to_owned(),
        permanent_redirect: create.permanent_redirect,
        created_by_ip: Some(anonymize_ip(user_ip)),
        stripe_session_id: stripe_session,
        payment_status,
    };
    let r = store.insert_link(new_link, &create.targets);
    proof {
        if r is Ok {
            assert(store.links@ == old(store).links@.push(
                store.links@[old(store).links@.len() as int],
            ));
            assert(store.links@.subrange(0, old(store).links@.len() as int) =~= old(store).links@);
        }
    }
    r
}

/// The whole creation workflow short of the gateway call itself: validation,
/// abuse filtering, and the store write. The caller creates the checkout
/// session when the request is not whitelisted and hands it in; a missing
/// session on that path aborts the creation, so no `Pending` link is ever
/// stored without a session reference.
pub fn post_link(
    store: &mut LinkStore,
    filter: &AbuseFilter,
    body: &CreateLinkDto,
    code: String,
    user_ip: IpNetwork,
    session: Option<PaymentSession>,
) -> (r: Result<CreateResult, Error>)
    requires
        old(store).wf(),
        code@.len() > 0,
        old(store).links@.len() + 1 <= i32::MAX as int,
        old(store).targets@.len() + body.targets@.len() <= i32::MAX as int,
    ensures
        final(store).wf(),
        !spec_request_valid(*body) ==> r == Err::<CreateResult, Error>(Error::ValidationError)
            && crate::store::spec_store_unchanged(*old(store), *final(store)),
        spec_request_valid(*body) && spec_blacklisted_req(*filter, *body) ==> r == Err::<
            CreateResult,
            Error,
        >(Error::AbuseRejected) && crate::store::spec_store_unchanged(*old(store), *final(store)),
        spec_request_valid(*body) && !spec_blacklisted_req(*filter, *body) && spec_whitelisted_req(
            *filter,
            *body,
        ) ==> {
            &&& old(store).spec_has_code(code@) ==> r == Err::<CreateResult, Error>(
                Error::UpstreamFailure,
            ) && crate::store::spec_store_unchanged(*old(store), *final(store))
            &&& !old(store).spec_has_code(code@) ==> {
                &&& spec_store_gained_link(
                    *old(store),
                    *final(store),
                    *body,
                    code@,
                    user_ip,
                    None,
                    None,
                )
                &&& r matches Ok(CreateResult::Link(dto))
                    && dto.link == final(store).links@[old(store).links@.len() as int]
                    && dto.targets@ == final(store).spec_targets_of(
                    old(store).links@.len() as int,
                )
            }
        },
        spec_request_valid(*body) && !spec_blacklisted_req(*filter, *body)
            && !spec_whitelisted_req(*filter, *body) ==> match session {
            None => r == Err::<CreateResult, Error>(Error::UpstreamFailure)
                && crate::store::spec_store_unchanged(*old(store), *final(store)),
            Some(ps) => {
                &&& old(store).spec_has_code(code@) ==> r == Err::<CreateResult, Error>(
                    Error::UpstreamFailure,
                ) && crate::store::spec_store_unchanged(*old(store), *final(store))
                &&& !old(store).spec_has_code(code@) ==> {
                    &&& spec_store_gained_link(
                        *old(store),
                        *final(store),
                        *body,
                        code@,
                        user_ip,
                        Some(ps.id),
                        Some(PaymentStatus::Pending),
                    )
                    &&& r == Ok::<CreateResult, Error>(
                        CreateResult::StripeRedirect(ps.hosted_url),
                    )
                }
            },
        },
{
    if !validate_request(body) {
        return Err(Error::ValidationError);
    }
    if filter.is_blacklisted(&body.targets) {
        return Err(Error::AbuseRejected);
    }
    let whitelisted = filter.is_whitelisted(&body.targets);
    if whitelisted {
        match create_link(store, body, code.as_str(), user_ip, None) {
            Err(e) => Err(e),
            Ok((l, ts)) => Ok(CreateResult::Link(LinkDto { link: l, targets: ts })),
        }
    } else {
        match session {
            None => Err(Error::UpstreamFailure),
            Some(ps) => {
                match create_link(store, body, code.as_str(), user_ip, Some(ps.id)) {
                    Err(e) => Err(e),
                    Ok(_) => Ok(CreateResult::StripeRedirect(ps.hosted_url)),
                }
            },
        }
    }
}

} // verus!
