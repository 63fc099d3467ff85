use vstd::prelude::*;

use crate::model::CreateTargetDto;
use crate::text::{spec_contains_substring, str_contains, str_starts_with};

verus! {

/// The destination URLs of a creation request, as character sequences.
pub open spec fn spec_urls_of(ts: Seq<CreateTargetDto>) -> Seq<Seq<char>> {
    Seq::new(ts.len(), |i: int| ts[i].target_url@)
}

/// Some destination URL contains the pattern as a substring.
pub open spec fn spec_any_url_contains(urls: Seq<Seq<char>>, pattern: Seq<char>) -> bool {
    exists|j: int| 0 <= j < urls.len() && spec_contains_substring(urls[j], pattern)
}

/// Some destination URL starts with the prefix.
pub open spec fn spec_any_url_starts_with(urls: Seq<Seq<char>>, prefix: Seq<char>) -> bool {
    exists|j: int| 0 <= j < urls.len() && prefix.is_prefix_of(urls[j])
}

/// ANY destination URL contains ANY blacklist pattern: the whole request is
/// rejected.
pub open spec fn spec_any_blacklisted(patterns: Seq<Seq<char>>, urls: Seq<Seq<char>>) -> bool {
    exists|i: int| 0 <= i < patterns.len() && spec_any_url_contains(urls, patterns[i])
}

/// ANY destination URL starts with ANY whitelist prefix: the whole request
/// skips the payment step.
pub open spec fn spec_any_whitelisted(prefixes: Seq<Seq<char>>, urls: Seq<Seq<char>>) -> bool {
    exists|i: int| 0 <= i < prefixes.len() && spec_any_url_starts_with(urls, prefixes[i])
}

/// Static blacklist/whitelist substring matcher over destination URLs,
/// loaded once at process start and held immutable for the process lifetime.
pub struct AbuseFilter {
    pub blacklist: Vec<String>,
    pub whitelist: Vec<String>,
}

impl AbuseFilter {
    /// Builds the filter from the two pattern lists, one pattern per entry.
    pub fn new(blacklist: Vec<String>, whitelist: Vec<String>) -> (r: AbuseFilter)
        ensures
            r.blacklist == blacklist,
            r.whitelist == whitelist,
    {
        AbuseFilter { blacklist, whitelist }
    }

    /// True if any destination URL contains any blacklist substring; such a
    /// request is rejected as a whole, wherever in the list the match sits.
    pub fn is_blacklisted(&self, targets: &Vec<CreateTargetDto>) -> (r: bool)
        ensures
            r == spec_any_blacklisted(self.blacklist.deep_view(), spec_urls_of(targets@)),
    {
        let mut i: usize = 0;
        while i < self.blacklist.len()
            invariant
                i <= self.blacklist@.len(),
                forall|x: int|
                    0 <= x < i ==> !spec_any_url_contains(
                        spec_urls_of(targets@),
                        self.blacklist.deep_view()[x],
                    ),
            decreases self.blacklist@.len() - i,
        {
            if any_target_contains(targets, &self.blacklist[i]) {
                assert(self.blacklist.deep_view()[i as int] == self.blacklist@[i as int]@);
                return true;
            }
            assert(self.blacklist.deep_view()[i as int] == self.blacklist@[i as int]@);
            i += 1;
        }
        false
    }

    /// True if any destination URL starts with any whitelist prefix; this one
    /// request-wide flag decides whether the whole creation skips payment.
    pub fn is_whitelisted(&self, targets: &Vec<CreateTargetDto>) -> (r: bool)
        ensures
            r == spec_any_whitelisted(self.whitelist.deep_view(), spec_urls_of(targets@)),
    {
        let mut i: usize = 0;
        while i < self.whitelist.len()
            invariant
                i <= self.whitelist@.len(),
                forall|x: int|
                    0 <= x < i ==> !spec_any_url_starts_with(
                        spec_urls_of(targets@),
                        self.whitelist.deep_view()[x],
                    ),
            decreases self.whitelist@.len() - i,
        {
            if any_target_starts_with(targets, &self.whitelist[i]) {
                assert(self.whitelist.deep_view()[i as int] == self.whitelist@[i as int]@);
                return true;
            }
            assert(self.whitelist.deep_view()[i as int] == self.whitelist@[i as int]@);
            i += 1;
        }
        false
    }
}

/// Whether any of the requested destinations contains the pattern.
fn any_target_contains(targets: &Vec<CreateTargetDto>, pattern: &String) -> (r: bool)
    ensures
        r == spec_any_url_contains(spec_urls_of(targets@), pattern@),
{
    let mut j: usize = 0;
    while j < targets.len()
        invariant
            j <= targets@.len(),
            forall|y: int|
                0 <= y < j ==> !spec_contains_substring(targets@[y].target_url@, pattern@),
        decreases targets@.len() - j,
    {
        if str_contains(targets[j].target_url.as_str(), pattern.as_str()) {
            assert(spec_urls_of(targets@)[j as int] == targets@[j as int].target_url@);
            return true;
        }
        j += 1;
    }
    assert(forall|y: int|
        0 <= y < targets@.len() ==> spec_urls_of(targets@)[y] == targets@[y].target_url@);
    false
}

/// Whether any of the requested destinations starts with the prefix.
fn any_target_starts_with(targets: &Vec<CreateTargetDto>, prefix: &String) -> (r: bool)
    ensures
        r == spec_any_url_starts_with(spec_urls_of(targets@), prefix@),
{
    let mut j: usize = 0;
    while j < targets.len()
        invariant
            j <= targets@.len(),
            forall|y: int| 0 <= y < j ==> !prefix@.is_prefix_of(targets@[y].target_url@),
        decreases targets@.len() - j,
    {
        if str_starts_with(targets[j].target_url.as_str(), prefix.as_str()) {
            assert(spec_urls_of(targets@)[j as int] == targets@[j as int].target_url@);
            return true;
        }
        j += 1;
    }
    assert(forall|y: int|
        0 <= y < targets@.len() ==> spec_urls_of(targets@)[y] == targets@[y].target_url@);
    false
}

/// A URL that contains a blacklisted substring poisons the whole request,
/// regardless of its position among the targets or of the pattern's position
/// in the list.
pub proof fn lemma_blacklist_any_position(
    patterns: Seq<Seq<char>>,
    urls: Seq<Seq<char>>,
    i: int,
    j: int,
)
    requires
        0 <= i < patterns.len(),
        0 <= j < urls.len(),
        spec_contains_substring(urls[j], patterns[i]),
    ensures
        spec_any_blacklisted(patterns, urls),
{
    assert(spec_any_url_contains(urls, patterns[i]));
}

/// A single target matching a single whitelist prefix whitelists the whole
/// request, whatever the other targets are.
pub proof fn lemma_whitelist_any_target(
    prefixes: Seq<Seq<char>>,
    urls: Seq<Seq<char>>,
    i: int,
    j: int,
)
    requires
        0 <= i < prefixes.len(),
        0 <= j < urls.len(),
        prefixes[i].is_prefix_of(urls[j]),
    ensures
        spec_any_whitelisted(prefixes, urls),
{
    assert(spec_any_url_starts_with(urls, prefixes[i]));
}

} // verus!
