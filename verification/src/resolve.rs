use vstd::prelude::*;

use crate::model::{copy_link, copy_target, is_payable, spec_payable, Link};
use crate::store::{
    lemma_filter_targets_nonempty, lemma_filter_targets_props, spec_bump_link, spec_bump_target,
    spec_store_unchanged, LinkStore,
};

verus! {

/// How a resolution request is answered.
pub enum ResolveOutcome {
    /// Unknown code, a link that may not be resolved yet, or no
    /// destinations.
    NotFound,
    /// The link is blocked for fraud; carried along is the stored reason, or
    /// the default explanation when none was stored.
    FraudBlocked(String),
    /// Send the visitor to `url`; permanently exactly when the link's mode
    /// is permanent.
    Redirect { url: String, permanent: bool },
}

/// Relies on rand::random_range over `0..len`: a uniformly drawn index
/// strictly below `len` (the call rejects an empty range, which the
/// precondition rules out). The draw comes from the thread's generator, so
/// nothing beyond the bound is promised.
#[verifier::external_body]
fn random_index(len: usize) -> (r: usize)
    requires
        len > 0,
    ensures
        r < len,
{
    rand::random_range(0..len)
}

/// The payment/fraud gates of resolution, first match wins: an unpayable
/// link is hidden, a fraudulent one is blocked with its reason.
pub open spec fn spec_gated_outcome(l: Link, r: ResolveOutcome) -> bool {
    &&& !spec_payable(l.payment_status) ==> r == ResolveOutcome::NotFound
    &&& spec_payable(l.payment_status) && l.fraud ==> {
        &&& r matches ResolveOutcome::FraudBlocked(reason)
        &&& (l.fraud_reason matches Some(fr) ==> reason == fr)
        &&& (l.fraud_reason is None ==> reason@ == "No reason"@)
    }
}

/// Resolution with the random choice injected: the destination taken is the
/// one at `pick` modulo the number of the link's targets. Everything else —
/// the gates, the counter increments, the redirect mode — is as in
/// `resolve_link`.
pub fn resolve_link_at(store: &mut LinkStore, code: &str, pick: usize) -> (r: ResolveOutcome)
    requires
        old(store).wf(),
    ensures
        final(store).wf(),
        !old(store).spec_has_code(code@) ==> r == ResolveOutcome::NotFound && spec_store_unchanged(
            *old(store),
            *final(store),
        ),
        old(store).spec_has_code(code@) ==> ({
            let i = old(store).spec_link_at(code@);
            let l = old(store).links@[i];
            let ts = old(store).spec_targets_of(l.id as int);
            &&& spec_gated_outcome(l, r)
            &&& (!spec_payable(l.payment_status) || l.fraud) ==> spec_store_unchanged(
                *old(store),
                *final(store),
            )
            &&& spec_payable(l.payment_status) && !l.fraud ==> ({
                let k = pick as int % ts.len() as int;
                let chosen = ts[k];
                &&& ts.len() > 0
                &&& r == (ResolveOutcome::Redirect {
                    url: chosen.target_url,
                    permanent: l.permanent_redirect,
                })
                &&& old(store).targets@[chosen.id as int] == chosen
                &&& final(store).links@ == old(store).links@.update(i, spec_bump_link(l))
                &&& final(store).targets@ == old(store).targets@.update(
                    chosen.id as int,
                    spec_bump_target(chosen),
                )
            })
        }),
{
    let i = match store.find_index(code) {
        None => {
            return ResolveOutcome::NotFound;
        },
        Some(i) => i,
    };
    if !is_payable(store.links[i].payment_status) {
        return ResolveOutcome::NotFound;
    }
    if store.links[i].fraud {
        let reason = match &store.links[i].fraud_reason {
            Some(s) => s.clone(),
            None => "No reason".to_owned(),
        };
        return ResolveOutcome::FraudBlocked(reason);
    }
    let lid = store.links[i].id;
    proof {
        assert(store.link_ok(i as int));
        assert(store.spec_has_target(i as int));
        lemma_filter_targets_nonempty(store.targets@, lid as int);
    }
    let ts = store.targets_of(lid);
    let n = ts.len();
    let k = pick % n;
    let chosen = copy_target(&ts[k]);
    proof {
        lemma_filter_targets_props(store.targets@, lid as int);
        assert(store.targets@.contains(chosen));
        let j = choose|j: int| 0 <= j < store.targets@.len() && store.targets@[j] == chosen;
        assert(store.target_ok(j));
        assert(store.targets@[chosen.id as int] == chosen);
    }
    let link_copy = copy_link(&store.links[i]);
    let outcome = store.increase_redirect_count(&link_copy, &chosen);
    let _ = outcome;
    ResolveOutcome::Redirect { url: chosen.target_url, permanent: link_copy.permanent_redirect }
}

/// Resolves a short code: looks the link up, applies the payment and fraud
/// gates, picks one destination uniformly at random, adds the click to the
/// chosen target's counter and the link's total, and names the redirect
/// mode. The destination is always one of the link's stored targets.
pub fn resolve_link(store: &mut LinkStore, code: &str) -> (r: ResolveOutcome)
    requires
        old(store).wf(),
    ensures
        final(store).wf(),
        !old(store).spec_has_code(code@) ==> r == ResolveOutcome::NotFound && spec_store_unchanged(
            *old(store),
            *final(store),
        ),
        old(store).spec_has_code(code@) ==> ({
            let i = old(store).spec_link_at(code@);
            let l = old(store).links@[i];
            let ts = old(store).spec_targets_of(l.id as int);
            &&& spec_gated_outcome(l, r)
            &&& (!spec_payable(l.payment_status) || l.fraud) ==> spec_store_unchanged(
                *old(store),
                *final(store),
            )
            &&& spec_payable(l.payment_status) && !l.fraud ==> exists|k: int|
                {
                    &&& 0 <= k < ts.len()
                    &&& r == (ResolveOutcome::Redirect {
                        url: (#[trigger] ts[k]).target_url,
                        permanent: l.permanent_redirect,
                    })
                    &&& old(store).targets@[ts[k].id as int] == ts[k]
                    &&& final(store).links@ == old(store).links@.update(i, spec_bump_link(l))
                    &&& final(store).targets@ == old(store).targets@.update(
                        ts[k].id as int,
                        spec_bump_target(ts[k]),
                    )
                }
        }),
{
    let pick: usize = match store.find_index(code) {
        None => 0,
        Some(i) => {
            let lid = store.links[i].id;
            proof {
                assert(store.link_ok(i as int));
                assert(store.spec_has_target(i as int));
                lemma_filter_targets_nonempty(store.targets@, lid as int);
            }
            let ts = store.targets_of(lid);
            random_index(ts.len())
        },
    };
    let r = resolve_link_at(store, code, pick);
    proof {
        if old(store).spec_has_code(code@) {
            let i = old(store).spec_link_at(code@);
            let l = old(store).links@[i];
            let ts = old(store).spec_targets_of(l.id as int);
            if spec_payable(l.payment_status) && !l.fraud {
                let k = pick as int % ts.len() as int;
                assert(0 <= k < ts.len());
                assert(r == (ResolveOutcome::Redirect {
                    url: ts[k].target_url,
                    permanent: l.permanent_redirect,
                }));
            }
        }
    }
    r
}

} // verus!
