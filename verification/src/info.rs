use vstd::prelude::*;

use crate::error::Error;
use crate::model::{
    copy_link, is_payable, reconcile, spec_payable, spec_reconcile, LinkDto, PaymentStatus,
};
use crate::store::{spec_hide_session, spec_store_unchanged, spec_with_opt_status, LinkStore};

verus! {

/// The first half of an informational read: what must happen next.
pub enum InfoStep {
    /// No link is stored under the code, or its payment already failed.
    NotFound,
    /// The stored status is `Pending`: the gateway must be asked whether
    /// this session completed, and the answer folded back in.
    NeedsCheck { session_id: String },
    /// The link with its destinations, ready to serve; the session
    /// reference is withheld.
    Done(LinkDto),
}

/// The served form of a stored link: the session reference withheld, the
/// targets in stored order.
pub open spec fn spec_info_dto(s: LinkStore, i: int, dto: LinkDto) -> bool {
    &&& dto.link == spec_hide_session(s.links@[i])
    &&& dto.targets@ == s.spec_targets_of(s.links@[i].id as int)
}

/// Reads a link for the info endpoint without touching the store: reports
/// either the payload to serve, or that the pending session must first be
/// checked against the gateway, or that nothing is served under the code.
pub fn link_info_query(store: &LinkStore, code: &str) -> (r: InfoStep)
    requires
        store.wf(),
    ensures
        !store.spec_has_code(code@) ==> r == InfoStep::NotFound,
        store.spec_has_code(code@) ==> ({
            let i = store.spec_link_at(code@);
            let l = store.links@[i];
            match l.payment_status {
                Some(PaymentStatus::Failed) => r == InfoStep::NotFound,
                Some(PaymentStatus::Pending) => r matches InfoStep::NeedsCheck { session_id }
                    && l.stripe_session_id == Some(session_id),
                _ => r matches InfoStep::Done(dto) && spec_info_dto(*store, i, dto),
            }
        }),
{
    let i = match store.find_index(code) {
        None => {
            return InfoStep::NotFound;
        },
        Some(i) => i,
    };
    match store.links[i].payment_status {
        Some(PaymentStatus::Failed) => InfoStep::NotFound,
        Some(PaymentStatus::Pending) => {
            proof {
                assert(store.link_ok(i as int));
            }
            match &store.links[i].stripe_session_id {
                Some(sid) => InfoStep::NeedsCheck { session_id: sid.clone() },
                None => {
                    // Unreachable: the store ties a Pending status to a
                    // session reference.
                    proof {
                        assert(false);
                    }
                    InfoStep::NotFound
                },
            }
        },
        _ => {
            let mut l = copy_link(&store.links[i]);
            l.stripe_session_id = None;
            let ts = store.targets_of(l.id);
            InfoStep::Done(LinkDto { link: l, targets: ts })
        },
    }
}

/// The second half of an informational read of a pending link: folds the
/// gateway's answer into the stored status (idempotently — a status that is
/// already terminal stays put) and serves the link if it became payable, or
/// hides it if the payment failed.
pub fn link_info_apply(store: &mut LinkStore, code: &str, gateway_complete: bool) -> (r: Result<
    LinkDto,
    Error,
>)
    requires
        old(store).wf(),
    ensures
        final(store).wf(),
        !old(store).spec_has_code(code@) ==> r == Err::<LinkDto, Error>(Error::NotFound)
            && spec_store_unchanged(*old(store), *final(store)),
        old(store).spec_has_code(code@) ==> ({
            let i = old(store).spec_link_at(code@);
            let l = old(store).links@[i];
            let folded = spec_reconcile(l.payment_status, gateway_complete);
            &&& final(store).targets@ == old(store).targets@
            &&& final(store).links@ == old(store).links@.update(i, spec_with_opt_status(l, folded))
            &&& spec_payable(folded) ==> (r matches Ok(dto) && dto.link == spec_hide_session(
                spec_with_opt_status(l, folded),
            ) && dto.targets@ == old(store).spec_targets_of(l.id as int))
            &&& !spec_payable(folded) ==> r == Err::<LinkDto, Error>(Error::NotFound)
        }),
{
    let i = match store.find_index(code) {
        None => {
            return Err(Error::NotFound);
        },
        Some(i) => i,
    };
    let current = store.links[i].payment_status;
    let folded = reconcile(current, gateway_complete);
    match folded {
        Some(s) => {
            proof {
                crate::model::lemma_reconcile_resolves_pending(current, gateway_complete);
            }
            let outcome = store.set_link_payment_status(code, s);
            let _ = outcome;
        },
        None => {
            proof {
                assert(store.links@ =~= old(store).links@.update(
                    i as int,
                    spec_with_opt_status(old(store).links@[i as int], folded),
                ));
            }
        },
    }
    if is_payable(folded) {
        match store.get_link_and_targets(code) {
            Err(_) => {
                // Unreachable: the fold never removes a stored code.
                proof {
                    assert(false);
                }
                Err(Error::NotFound)
            },
            Ok((got, ts)) => {
                let mut l = got;
                l.stripe_session_id = None;
                proof {
                    let gi = old(store).spec_link_at(code@);
                    assert(store.spec_link_at(code@) == gi);
                    assert(store.links@[gi] == spec_with_opt_status(
                        old(store).links@[gi],
                        spec_reconcile(old(store).links@[gi].payment_status, gateway_complete),
                    ));
                }
                Ok(LinkDto { link: l, targets: ts })
            },
        }
    } else {
        Err(Error::NotFound)
    }
}

} // verus!
