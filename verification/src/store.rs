use vstd::prelude::*;

use crate::error::Error;
use crate::model::{copy_link, copy_target, CreateTargetDto, Link, NewLink, PaymentStatus, Target};
use crate::text::str_eq;

verus! {

/// The targets of `s` that belong to the link with id `lid`, in stored order.
pub open spec fn spec_filter_targets(s: Seq<Target>, lid: int) -> Seq<Target>
    decreases s.len(),
{
    if s.len() == 0 {
        Seq::empty()
    } else {
        let rest = spec_filter_targets(s.drop_last(), lid);
        if s.last().link_id as int == lid {
            rest.push(s.last())
        } else {
            rest
        }
    }
}

/// Filtering distributes over concatenation.
pub proof fn lemma_filter_targets_app(s: Seq<Target>, t: Seq<Target>, lid: int)
    ensures
        spec_filter_targets(s + t, lid) == spec_filter_targets(s, lid) + spec_filter_targets(
            t,
            lid,
        ),
    decreases t.len(),
{
    if t.len() == 0 {
        assert(s + t =~= s);
        assert(spec_filter_targets(s, lid) + spec_filter_targets(t, lid) =~= spec_filter_targets(
            s,
            lid,
        ));
    } else {
        lemma_filter_targets_app(s, t.drop_last(), lid);
        assert((s + t).drop_last() =~= s + t.drop_last());
        assert((s + t).last() == t.last());
    }
}

/// Filtering keeps nothing when no element belongs to the link.
pub proof fn lemma_filter_targets_none(s: Seq<Target>, lid: int)
    requires
        forall|j: int| 0 <= j < s.len() ==> (#[trigger] s[j]).link_id as int != lid,
    ensures
        spec_filter_targets(s, lid) == Seq::<Target>::empty(),
    decreases s.len(),
{
    if s.len() > 0 {
        lemma_filter_targets_none(s.drop_last(), lid);
    }
}

/// Filtering keeps everything when every element belongs to the link.
pub proof fn lemma_filter_targets_all(s: Seq<Target>, lid: int)
    requires
        forall|j: int| 0 <= j < s.len() ==> (#[trigger] s[j]).link_id as int == lid,
    ensures
        spec_filter_targets(s, lid) == s,
    decreases s.len(),
{
    if s.len() > 0 {
        lemma_filter_targets_all(s.drop_last(), lid);
        assert(spec_filter_targets(s, lid) =~= s);
    }
}

/// Every filtered element belongs to the link and is drawn from the
/// sequence.
pub proof fn lemma_filter_targets_props(s: Seq<Target>, lid: int)
    ensures
        forall|k: int|
            0 <= k < spec_filter_targets(s, lid).len() ==> (#[trigger] spec_filter_targets(
                s,
                lid,
            )[k]).link_id as int == lid && s.contains(spec_filter_targets(s, lid)[k]),
    decreases s.len(),
{
    if s.len() > 0 {
        lemma_filter_targets_props(s.drop_last(), lid);
        let rest = spec_filter_targets(s.drop_last(), lid);
        let f = spec_filter_targets(s, lid);
        assert forall|k: int|
            0 <= k < f.len() implies (#[trigger] f[k]).link_id as int == lid && s.contains(
            f[k],
        ) by {
            if s.last().link_id as int == lid && k == f.len() - 1 {
                assert(f[k] == s.last());
                assert(s[s.len() - 1] == s.last());
                assert(s.contains(s.last()));
            } else {
                assert(f[k] == rest[k]);
                assert(s.drop_last().contains(rest[k]));
                let j = choose|j: int| 0 <= j < s.drop_last().len() && s.drop_last()[j] == rest[k];
                assert(s[j] == rest[k]);
                assert(s.contains(rest[k]));
            }
        }
    }
}

/// A link that some element belongs to has a non-empty filtered sequence.
pub proof fn lemma_filter_targets_nonempty(s: Seq<Target>, lid: int)
    requires
        exists|j: int| 0 <= j < s.len() && (#[trigger] s[j]).link_id as int == lid,
    ensures
        spec_filter_targets(s, lid).len() > 0,
    decreases s.len(),
{
    let j = choose|j: int| 0 <= j < s.len() && (#[trigger] s[j]).link_id as int == lid;
    if j == s.len() - 1 {
    } else {
        assert(s.drop_last()[j] == s[j]);
        lemma_filter_targets_nonempty(s.drop_last(), lid);
    }
}

/// The link row the store creates for the inserted fields: the id is the
/// position, the counter starts at zero, and the fraud flag starts clear.
pub open spec fn spec_new_link_record(new_link: NewLink, id: int) -> Link {
    Link {
        id: id as i32,
        url: new_link.url,
        redirects: 0,
        permanent_redirect: new_link.permanent_redirect,
        fraud: false,
        fraud_reason: None,
        created_by_ip: new_link.created_by_ip,
        stripe_session_id: new_link.stripe_session_id,
        payment_status: new_link.payment_status,
    }
}

/// The target rows the store creates for the requested destinations, in
/// submission order, with counters at zero.
pub open spec fn spec_new_target_records(ts: Seq<CreateTargetDto>, base: int, lid: int) -> Seq<
    Target,
> {
    Seq::new(
        ts.len(),
        |k: int|
            Target { id: (base + k) as i32, link_id: lid as i32, target_url: ts[k].target_url, redirects: 0 },
    )
}

/// A counter after one more click: one higher, except that a counter already
/// at the maximum stays put rather than wrap (it still never decreases).
pub open spec fn spec_bump(n: i32) -> i32 {
    if n < i32::MAX {
        (n + 1) as i32
    } else {
        n
    }
}

/// A successful redirect adds exactly one click: the bumped counter is one
/// higher whenever it has not yet saturated.
pub proof fn lemma_bump_adds_one(n: i32)
    requires
        n < i32::MAX,
    ensures
        spec_bump(n) == n + 1,
{
}

/// The link row after one more redirect.
pub open spec fn spec_bump_link(l: Link) -> Link {
    Link { redirects: spec_bump(l.redirects), ..l }
}

/// The target row after one more redirect.
pub open spec fn spec_bump_target(t: Target) -> Target {
    Target { redirects: spec_bump(t.redirects), ..t }
}

/// The link row with its payment status replaced.
pub open spec fn spec_with_status(l: Link, status: PaymentStatus) -> Link {
    Link { payment_status: Some(status), ..l }
}

/// The link row with its payment status replaced by an optional status.
pub open spec fn spec_with_opt_status(l: Link, status: Option<PaymentStatus>) -> Link {
    Link { payment_status: status, ..l }
}

/// The link row as served to clients: the session reference is withheld.
pub open spec fn spec_hide_session(l: Link) -> Link {
    Link { stripe_session_id: None, ..l }
}

/// Neither relation changed between the two store states.
pub open spec fn spec_store_unchanged(pre: LinkStore, post: LinkStore) -> bool {
    post.links@ == pre.links@ && post.targets@ == pre.targets@
}

/// The running total of redirects over the stored links.
pub open spec fn spec_sum_redirects(s: Seq<Link>) -> int
    decreases s.len(),
{
    if s.len() == 0 {
        0
    } else {
        spec_sum_redirects(s.drop_last()) + s.last().redirects
    }
}

/// With non-negative counters the total is non-negative and bounded by one
/// maximal counter per link.
pub proof fn lemma_sum_redirects_bounds(s: Seq<Link>)
    requires
        forall|i: int| 0 <= i < s.len() ==> 0 <= (#[trigger] s[i]).redirects,
    ensures
        0 <= spec_sum_redirects(s) <= s.len() * (i32::MAX as int),
    decreases s.len(),
{
    if s.len() > 0 {
        assert(forall|i: int|
            0 <= i < s.drop_last().len() ==> 0 <= (#[trigger] s.drop_last()[i]).redirects);
        lemma_sum_redirects_bounds(s.drop_last());
    }
}

/// In-memory persistence of the two relations. The store assigns ids by
/// position: the id of a row is its index, which makes ids unique and stable
/// (there is no deletion path).
pub struct LinkStore {
    pub links: Vec<Link>,
    pub targets: Vec<Target>,
}

impl LinkStore {
    /// The stored invariants of one link row.
    pub open spec fn link_ok(self, i: int) -> bool {
        &&& self.links@[i].id as int == i
        &&& self.links@[i].url@.len() > 0
        &&& self.links@[i].redirects >= 0
        &&& (self.links@[i].payment_status == Some(PaymentStatus::Pending)
            ==> self.links@[i].stripe_session_id is Some)
    }

    /// The stored invariants of one target row.
    pub open spec fn target_ok(self, j: int) -> bool {
        &&& self.targets@[j].id as int == j
        &&& self.targets@[j].redirects >= 0
        &&& 0 <= self.targets@[j].link_id as int
        &&& (self.targets@[j].link_id as int) < self.links@.len()
    }

    /// Some target belongs to the link with id `lid`.
    pub open spec fn spec_has_target(self, lid: int) -> bool {
        exists|j: int|
            0 <= j < self.targets@.len() && (#[trigger] self.targets@[j]).link_id as int == lid
    }

    /// Well-formedness: ids are indices, short codes are unique and
    /// non-empty, counters are non-negative, every target belongs to a stored
    /// link, every link owns at least one target, and a `Pending` status
    /// appears only beside a session reference.
    pub open spec fn wf(self) -> bool {
        &&& self.links@.len() <= i32::MAX as int
        &&& self.targets@.len() <= i32::MAX as int
        &&& forall|i: int| 0 <= i < self.links@.len() ==> #[trigger] self.link_ok(i)
        &&& forall|j: int| 0 <= j < self.targets@.len() ==> #[trigger] self.target_ok(j)
        &&& forall|i: int, j: int|
            0 <= i < j < self.links@.len() ==> (#[trigger] self.links@[i]).url@ != (
            #[trigger] self.links@[j]).url@
        &&& forall|i: int| 0 <= i < self.links@.len() ==> #[trigger] self.spec_has_target(i)
    }

    /// A link with this short code is stored.
    pub open spec fn spec_has_code(self, code: Seq<char>) -> bool {
        exists|i: int| 0 <= i < self.links@.len() && (#[trigger] self.links@[i]).url@ == code
    }

    /// The index of the link with this short code (unique under `wf`).
    pub open spec fn spec_link_at(self, code: Seq<char>) -> int {
        choose|i: int| 0 <= i < self.links@.len() && (#[trigger] self.links@[i]).url@ == code
    }

    /// The stored targets of the link with id `lid`, in insertion order.
    pub open spec fn spec_targets_of(self, lid: int) -> Seq<Target> {
        spec_filter_targets(self.targets@, lid)
    }

    /// An empty store.
    pub fn new() -> (r: LinkStore)
        ensures
            r.wf(),
            r.links@ == Seq::<Link>::empty(),
            r.targets@ == Seq::<Target>::empty(),
    {
        LinkStore { links: Vec::new(), targets: Vec::new() }
    }

    /// The index of the link stored under `code`, if any.
    pub(crate) fn find_index(&self, code: &str) -> (r: Option<usize>)
        requires
            self.wf(),
        ensures
            match r {
                Some(i) => {
                    &&& (i as int) < self.links@.len()
                    &&& self.links@[i as int].url@ == code@
                    &&& self.spec_has_code(code@)
                    &&& self.spec_link_at(code@) == i as int
                },
                None => !self.spec_has_code(code@),
            },
    {
        let mut i: usize = 0;
        while i < self.links.len()
            invariant
                self.wf(),
                i <= self.links@.len(),
                forall|x: int| 0 <= x < i ==> (#[trigger] self.links@[x]).url@ != code@,
            decreases self.links@.len() - i,
        {
            if str_eq(self.links[i].url.as_str(), code) {
                proof {
                    assert(self.spec_has_code(code@));
                    let k = self.spec_link_at(code@);
                    if k != i as int {
                        assert(self.links@[k].url@ == self.links@[i as int].url@);
                        assert(false);
                    }
                }
                return Some(i);
            }
            i += 1;
        }
        None
    }

    /// The stored targets of the link with id `lid`, as fresh copies.
    pub(crate) fn targets_of(&self, lid: i32) -> (r: Vec<Target>)
        ensures
            r@ == self.spec_targets_of(lid as int),
    {
        let mut out: Vec<Target> = Vec::new();
        let mut j: usize = 0;
        while j < self.targets.len()
            invariant
                j <= self.targets@.len(),
                out@ == spec_filter_targets(self.targets@.take(j as int), lid as int),
            decreases self.targets@.len() - j,
        {
            if self.targets[j].link_id == lid {
                out.push(copy_target(&self.targets[j]));
            }
            proof {
                assert(self.targets@.take(j + 1).drop_last() =~= self.targets@.take(j as int));
                assert(self.targets@.take(j + 1).last() == self.targets@[j as int]);
            }
            j += 1;
        }
        proof {
            assert(self.targets@.take(self.targets@.len() as int) =~= self.targets@);
        }
        out
    }

    /// Looks a link up by its short code and returns it with its targets in
    /// stored order, or `NotFound` when no link carries the code.
    pub fn get_link_and_targets(&self, link: &str) -> (r: Result<(Link, Vec<Target>), Error>)
        requires
            self.wf(),
        ensures
            match r {
                Ok(p) => {
                    &&& self.spec_has_code(link@)
                    &&& p.0 == self.links@[self.spec_link_at(link@)]
                    &&& p.1@ == self.spec_targets_of(p.0.id as int)
                },
                Err(e) => e == Error::NotFound && !self.spec_has_code(link@),
            },
    {
        match self.find_index(link) {
            None => Err(Error::NotFound),
            Some(i) => {
                let l = copy_link(&self.links[i]);
                let ts = self.targets_of(l.id);
                Ok((l, ts))
            },
        }
    }

    /// Stores a link and its targets together, atomically: either everything
    /// is appended, or (on a short-code collision, the store's uniqueness
    /// violation) nothing changes and the storage failure is reported.
    pub fn insert_link(&mut self, new_link: NewLink, create_targets: &Vec<CreateTargetDto>) -> (r:
        Result<(Link, Vec<Target>), Error>)
        requires
            old(self).wf(),
            new_link.url@.len() > 0,
            create_targets@.len() >= 1,
            new_link.payment_status == Some(PaymentStatus::Pending)
                ==> new_link.stripe_session_id is Some,
            old(self).links@.len() + 1 <= i32::MAX as int,
            old(self).targets@.len() + create_targets@.len() <= i32::MAX as int,
        ensures
            final(self).wf(),
            match r {
                Ok(p) => {
                    &&& !old(self).spec_has_code(new_link.url@)
                    &&& p.0 == spec_new_link_record(new_link, old(self).links@.len() as int)
                    &&& p.1@ == spec_new_target_records(
                        create_targets@,
                        old(self).targets@.len() as int,
                        old(self).links@.len() as int,
                    )
                    &&& final(self).links@ == old(self).links@.push(p.0)
                    &&& final(self).targets@ == old(self).targets@ + p.1@
                    &&& final(self).spec_targets_of(old(self).links@.len() as int) == p.1@
                    &&& final(self).spec_has_code(new_link.url@)
                    &&& final(self).spec_link_at(new_link.url@) == old(self).links@.len() as int
                },
                Err(e) => {
                    &&& e == Error::UpstreamFailure
                    &&& old(self).spec_has_code(new_link.url@)
                    &&& final(self).links@ == old(self).links@
                    &&& final(self).targets@ == old(self).targets@
                },
            },
    {
        let ghost nl = new_link;
        let ghost old_links = self.links@;
        let ghost old_targets = self.targets@;
        match self.find_index(new_link.url.as_str()) {
            Some(_) => {
                return Err(Error::UpstreamFailure);
            },
            None => {},
        }
        let lid_usize: usize = self.links.len();
        let lid: i32 = lid_usize as i32;
        let base: usize = self.targets.len();
        let link = Link {
            id: lid,
            url: new_link.url,
            redirects: 0,
            permanent_redirect: new_link.permanent_redirect,
            fraud: false,
            fraud_reason: None,
            created_by_ip: new_link.created_by_ip,
            stripe_session_id: new_link.stripe_session_id,
            payment_status: new_link.payment_status,
        };
        let ret_link = copy_link(&link);
        self.links.push(link);
        let ghost records = spec_new_target_records(create_targets@, base as int, lid_usize as int);
        assert(ret_link == spec_new_link_record(nl, old_links.len() as int));

        let mut out: Vec<Target> = Vec::new();
        let mut k: usize = 0;
        while k < create_targets.len()
            invariant
                k <= create_targets@.len(),
                base as int == old_targets.len(),
                lid as int == lid_usize as int,
                lid_usize as int == old_links.len(),
                base + create_targets@.len() <= i32::MAX as int,
                old_links.len() + 1 <= i32::MAX as int,
                records == spec_new_target_records(create_targets@, base as int, lid_usize as int),
                out@ == records.take(k as int),
                self.targets@ == old_targets + out@,
                self.links@ == old_links.push(ret_link),
            decreases create_targets@.len() - k,
        {
            let t = Target {
                id: (base + k) as i32,
                link_id: lid,
                target_url: create_targets[k].target_url.clone(),
                redirects: 0,
            };
            self.targets.push(copy_target(&t));
            out.push(t);
            proof {
                assert(out@ =~= records.take(k as int + 1));
                assert(self.targets@ =~= old_targets + out@);
            }
            k += 1;
        }
        proof {
            assert(out@ =~= records);
            let n = old_links.len() as int;
            assert forall|i: int| 0 <= i < self.links@.len() implies #[trigger] self.link_ok(i) by {
                if i < n {
                    assert(old(self).link_ok(i));
                    assert(self.links@[i] == old_links[i]);
                } else {
                    assert(self.links@[i] == ret_link);
                }
            }
            assert forall|j: int|
                0 <= j < self.targets@.len() implies #[trigger] self.target_ok(j) by {
                if j < old_targets.len() {
                    assert(old(self).target_ok(j));
                    assert(self.targets@[j] == old_targets[j]);
                } else {
                    assert(self.targets@[j] == records[j - old_targets.len()]);
                }
            }
            assert forall|i: int, j: int|
                0 <= i < j < self.links@.len() implies (#[trigger] self.links@[i]).url@ != (
            #[trigger] self.links@[j]).url@ by {
                if j < n {
                    assert(self.links@[i] == old_links[i]);
                    assert(self.links@[j] == old_links[j]);
                } else {
                    assert(self.links@[i] == old_links[i]);
                    assert(self.links@[j] == ret_link);
                    if old_links[i].url@ == nl.url@ {
                        assert(old(self).spec_has_code(nl.url@));
                        assert(false);
                    }
                }
            }
            assert forall|i: int|
                0 <= i < self.links@.len() implies #[trigger] self.spec_has_target(i) by {
                if i < n {
                    assert(old(self).spec_has_target(i));
                    let j = choose|j: int|
                        0 <= j < old_targets.len() && (#[trigger] old_targets[j]).link_id as int
                            == i;
                    assert(self.targets@[j] == old_targets[j]);
                    assert(self.spec_has_target(i));
                } else {
                    assert(self.targets@[old_targets.len() as int] == records[0]);
                    assert(records[0].link_id as int == i);
                    assert(self.spec_has_target(i));
                }
            }
            assert forall|j: int|
                0 <= j < old_targets.len() implies (#[trigger] old_targets[j]).link_id as int
                    != n by {
                assert(old(self).target_ok(j));
            }
            lemma_filter_targets_app(old_targets, records, n);
            lemma_filter_targets_none(old_targets, n);
            assert(forall|j: int|
                0 <= j < records.len() ==> (#[trigger] records[j]).link_id as int == n);
            lemma_filter_targets_all(records, n);
            assert(self.targets@ == old_targets + records);
            assert(self.spec_targets_of(n) =~= records);
            assert(self.links@[n].url@ == nl.url@);
            assert(self.spec_has_code(nl.url@));
            let k2 = self.spec_link_at(nl.url@);
            if k2 != n {
                assert(self.links@[k2].url@ == self.links@[n].url@);
                assert(false);
            }
        }
        Ok((ret_link, out))
    }

    /// Adds one click to the link's total counter and to the chosen target's
    /// counter, addressing both rows by id. A row whose id is not stored is
    /// left untouched (the write is best-effort, as the caller treats it).
    pub fn increase_redirect_count(&mut self, link: &Link, target: &Target) -> (r: Result<
        (),
        Error,
    >)
        requires
            old(self).wf(),
        ensures
            final(self).wf(),
            r is Ok,
            0 <= link.id as int && (link.id as int) < old(self).links@.len()
                ==> final(self).links@ == old(self).links@.update(
                link.id as int,
                spec_bump_link(old(self).links@[link.id as int]),
            ),
            !(0 <= link.id as int && (link.id as int) < old(self).links@.len())
                ==> final(self).links@ == old(self).links@,
            0 <= target.id as int && (target.id as int) < old(self).targets@.len()
                ==> final(self).targets@ == old(self).targets@.update(
                target.id as int,
                spec_bump_target(old(self).targets@[target.id as int]),
            ),
            !(0 <= target.id as int && (target.id as int) < old(self).targets@.len())
                ==> final(self).targets@ == old(self).targets@,
    {
        if link.id >= 0 && (link.id as usize) < self.links.len() {
            let i = link.id as usize;
            let mut l = copy_link(&self.links[i]);
            if l.redirects < i32::MAX {
                l.redirects = l.redirects + 1;
            }
            self.links[i] = l;
            proof {
                assert(self.links@ =~= old(self).links@.update(
                    link.id as int,
                    spec_bump_link(old(self).links@[link.id as int]),
                ));
            }
        }
        let ghost links_after = self.links@;
        if target.id >= 0 && (target.id as usize) < self.targets.len() {
            let j = target.id as usize;
            let mut t = copy_target(&self.targets[j]);
            if t.redirects < i32::MAX {
                t.redirects = t.redirects + 1;
            }
            self.targets[j] = t;
            proof {
                assert(self.targets@ =~= old(self).targets@.update(
                    target.id as int,
                    spec_bump_target(old(self).targets@[target.id as int]),
                ));
            }
        }
        proof {
            assert(self.links@ == links_after);
            lemma_bump_preserves_wf(*old(self), *self, link.id as int, target.id as int);
        }
        Ok(())
    }

    /// Overwrites the payment status of the link stored under `code` with a
    /// terminal status; a code that is not stored changes nothing. The status
    /// written is never `Pending`: after creation a status only ever moves
    /// from `Pending` to a terminal value.
    pub fn set_link_payment_status(&mut self, link: &str, status: PaymentStatus) -> (r: Result<
        (),
        Error,
    >)
        requires
            old(self).wf(),
            status != PaymentStatus::Pending,
        ensures
            final(self).wf(),
            r is Ok,
            final(self).targets@ == old(self).targets@,
            old(self).spec_has_code(link@) ==> final(self).links@ == old(self).links@.update(
                old(self).spec_link_at(link@),
                spec_with_status(old(self).links@[old(self).spec_link_at(link@)], status),
            ),
            old(self).spec_has_code(link@)
                ==> final(self).spec_has_code(link@) && final(self).spec_link_at(link@) == old(
                self,
            ).spec_link_at(link@),
            !old(self).spec_has_code(link@) ==> final(self).links@ == old(self).links@,
    {
        match self.find_index(link) {
            None => Ok(()),
            Some(i) => {
                let mut l = copy_link(&self.links[i]);
                l.payment_status = Some(status);
                self.links[i] = l;
                proof {
                    let ghost at = old(self).spec_link_at(link@);
                    assert(self.links@ =~= old(self).links@.update(
                        at,
                        spec_with_status(old(self).links@[at], status),
                    ));
                    assert forall|x: int|
                        0 <= x < self.links@.len() implies #[trigger] self.link_ok(x) by {
                        assert(old(self).link_ok(x));
                        if x != at {
                            assert(self.links@[x] == old(self).links@[x]);
                        }
                    }
                    assert forall|j: int|
                        0 <= j < self.targets@.len() implies #[trigger] self.target_ok(j) by {
                        assert(old(self).target_ok(j));
                    }
                    assert forall|x: int, y: int|
                        0 <= x < y < self.links@.len() implies (#[trigger] self.links@[x]).url@
                            != (#[trigger] self.links@[y]).url@ by {
                        assert(old(self).links@[x].url@ != old(self).links@[y].url@);
                        assert(self.links@[x].url@ == old(self).links@[x].url@);
                        assert(self.links@[y].url@ == old(self).links@[y].url@);
                    }
                    assert forall|x: int|
                        0 <= x < self.links@.len() implies #[trigger] self.spec_has_target(
                        x,
                    ) by {
                        assert(old(self).spec_has_target(x));
                    }
                    assert(self.links@[at].url@ == link@);
                    assert(self.spec_has_code(link@));
                    let k2 = self.spec_link_at(link@);
                    if k2 != at {
                        assert(self.links@[k2].url@ == self.links@[at].url@);
                        assert(false);
                    }
                }
                Ok(())
            },
        }
    }

    /// The number of stored links.
    pub fn count_links(&self) -> (r: i64)
        requires
            self.wf(),
        ensures
            r as int == self.links@.len(),
    {
        self.links.len() as i64
    }

    /// The number of stored targets.
    pub fn count_targets(&self) -> (r: i64)
        requires
            self.wf(),
        ensures
            r as int == self.targets@.len(),
    {
        self.targets.len() as i64
    }

    /// The total of the per-link redirect counters.
    pub fn sum_redirects(&self) -> (r: i64)
        requires
            self.wf(),
        ensures
            r as int == spec_sum_redirects(self.links@),
    {
        let mut acc: i64 = 0;
        let mut i: usize = 0;
        while i < self.links.len()
            invariant
                self.wf(),
                i <= self.links@.len(),
                acc as int == spec_sum_redirects(self.links@.take(i as int)),
                0 <= acc as int <= (i as int) * (i32::MAX as int),
            decreases self.links@.len() - i,
        {
            proof {
                assert(self.links@.take(i as int + 1).drop_last() =~= self.links@.take(i as int));
                assert(self.links@.take(i as int + 1).last() == self.links@[i as int]);
                assert(self.link_ok(i as int));
            }
            acc = acc + self.links[i].redirects as i64;
            i += 1;
        }
        proof {
            assert(self.links@.take(self.links@.len() as int) =~= self.links@);
        }
        acc
    }
}

/// Bumping one link counter and one target counter preserves the store
/// invariant: ids, codes and ownership are untouched and counters stay
/// non-negative.
proof fn lemma_bump_preserves_wf(pre: LinkStore, post: LinkStore, li: int, ti: int)
    requires
        pre.wf(),
        post.links@ == if 0 <= li < pre.links@.len() {
            pre.links@.update(li, spec_bump_link(pre.links@[li]))
        } else {
            pre.links@
        },
        post.targets@ == if 0 <= ti < pre.targets@.len() {
            pre.targets@.update(ti, spec_bump_target(pre.targets@[ti]))
        } else {
            pre.targets@
        },
    ensures
        post.wf(),
{
    assert forall|x: int| 0 <= x < post.links@.len() implies #[trigger] post.link_ok(x) by {
        assert(pre.link_ok(x));
        if x != li {
            assert(post.links@[x] == pre.links@[x]);
        }
    }
    assert forall|j: int| 0 <= j < post.targets@.len() implies #[trigger] post.target_ok(j) by {
        assert(pre.target_ok(j));
        if j != ti {
            assert(post.targets@[j] == pre.targets@[j]);
        }
    }
    assert forall|x: int, y: int|
        0 <= x < y < post.links@.len() implies (#[trigger] post.links@[x]).url@ != (
    #[trigger] post.links@[y]).url@ by {
        assert(pre.links@[x].url@ != pre.links@[y].url@);
        assert(post.links@[x].url@ == pre.links@[x].url@);
        assert(post.links@[y].url@ == pre.links@[y].url@);
    }
    assert forall|x: int| 0 <= x < post.links@.len() implies #[trigger] post.spec_has_target(
        x,
    ) by {
        assert(pre.spec_has_target(x));
        let j = choose|j: int|
            0 <= j < pre.targets@.len() && (#[trigger] pre.targets@[j]).link_id as int == x;
        assert(post.targets@[j].link_id as int == x);
    }
}

} // verus!
