//! Severity levels and the link-checker policy: which failures are fatal,
//! and which URLs are exempt from existence or anchor checking.

use vstd::prelude::*;

use crate::text::starts_with_str;

verus! {

/// Severity of a failed link or anchor check: `ErrorLevel` aborts the build,
/// `WarnLevel` only reports.
#[derive(Copy, Clone, Debug, PartialEq, Eq, Structural)]
pub enum LinkCheckerLevel {
    ErrorLevel,
    WarnLevel,
}

impl Default for LinkCheckerLevel {
    fn default() -> (r: Self)
        ensures
            r == LinkCheckerLevel::ErrorLevel,
    {
        LinkCheckerLevel::ErrorLevel
    }
}

impl LinkCheckerLevel {
    /// The prefix a reporter puts before a failure message of this severity.
    pub fn log_prefix(&self) -> (r: &str)
        ensures
            *self == LinkCheckerLevel::ErrorLevel ==> r@ == "Error: "@,
            *self == LinkCheckerLevel::WarnLevel ==> r@ == "Warning: "@,
    {
        match self {
            LinkCheckerLevel::ErrorLevel => "Error: ",
            LinkCheckerLevel::WarnLevel => "Warning: ",
        }
    }

    /// The serialized form of the level, as it appears in site configuration.
    pub fn as_str(&self) -> (r: &str)
        ensures
            *self == LinkCheckerLevel::ErrorLevel ==> r@ == "error"@,
            *self == LinkCheckerLevel::WarnLevel ==> r@ == "warn"@,
    {
        match self {
            LinkCheckerLevel::ErrorLevel => "error",
            LinkCheckerLevel::WarnLevel => "warn",
        }
    }
}

/// What the policy decides for one link: leave it unchecked, or check it and
/// report any failure at the given severity.
#[derive(Copy, Clone, Debug, PartialEq, Eq, Structural)]
pub enum CheckDecision {
    Skip,
    Check(LinkCheckerLevel),
}

/// True when some entry of `prefixes` stands at the front of `url`.
pub open spec fn some_prefix_matches(prefixes: Seq<Seq<char>>, url: Seq<char>) -> bool {
    exists|i: int| 0 <= i < prefixes.len() && (#[trigger] prefixes[i]).is_prefix_of(url)
}

/// The link-checker policy: which URL prefixes are exempt from existence or
/// anchor checking, and how severe a non-exempt failure is, for internal and
/// external links independently. Read-only for the duration of a build.
#[derive(Clone, Debug, PartialEq)]
pub struct LinkChecker {
    /// Skip link checking for these URL prefixes
    pub skip_prefixes: Vec<String>,
    /// Skip anchor checking for these URL prefixes
    pub skip_anchor_prefixes: Vec<String>,
    /// Severity of a broken internal link (anchor links included).
    pub internal_level: LinkCheckerLevel,
    /// Severity of a broken external link (anchor links included).
    pub external_level: LinkCheckerLevel,
}

impl Default for LinkChecker {
    /// No exemptions, and every failure is an error.
    fn default() -> (r: Self)
        ensures
            r.skip_prefixes@.len() == 0,
            r.skip_anchor_prefixes@.len() == 0,
            r.internal_level == LinkCheckerLevel::ErrorLevel,
            r.external_level == LinkCheckerLevel::ErrorLevel,
    {
        LinkChecker {
            skip_prefixes: Vec::new(),
            skip_anchor_prefixes: Vec::new(),
            internal_level: LinkCheckerLevel::ErrorLevel,
            external_level: LinkCheckerLevel::ErrorLevel,
        }
    }
}

/// True when some entry of `prefixes` stands at the front of `url`.
fn matches_any_prefix(prefixes: &Vec<String>, url: &str) -> (r: bool)
    ensures
        r == some_prefix_matches(prefixes.deep_view(), url@),
{
    let n = prefixes.len();
    let mut i: usize = 0;
    while i < n
        invariant
            i <= n,
            n == prefixes@.len(),
            forall|j: int| 0 <= j < i ==> !(#[trigger] prefixes.deep_view()[j]).is_prefix_of(url@),
        decreases n - i,
    {
        if starts_with_str(url, prefixes[i].as_str()) {
            proof {
                assert(prefixes.deep_view()[i as int].is_prefix_of(url@));
            }
            return true;
        }
        i = i + 1;
    }
    false
}

impl LinkChecker {
    /// Severity applied to a failure of the given origin.
    pub open spec fn spec_level_for(&self, is_external: bool) -> LinkCheckerLevel {
        if is_external {
            self.external_level
        } else {
            self.internal_level
        }
    }

    /// What `should_check` decides: a URL matching some `skip_prefixes` entry
    /// is exempt; any other is checked, at the severity of its origin.
    pub open spec fn spec_should_check(&self, url: Seq<char>, is_external: bool) -> CheckDecision {
        if some_prefix_matches(self.skip_prefixes.deep_view(), url) {
            CheckDecision::Skip
        } else {
            CheckDecision::Check(self.spec_level_for(is_external))
        }
    }

    /// True when `should_check_anchor` asks for an anchor check: exactly when
    /// no `skip_anchor_prefixes` entry stands at the front of the URL.
    pub open spec fn spec_should_check_anchor(&self, url: Seq<char>) -> bool {
        !some_prefix_matches(self.skip_anchor_prefixes.deep_view(), url)
    }

    /// Decide whether a link's existence is checked at all and, when it is,
    /// how severe a failure is.
    pub fn should_check(&self, url: &str, is_external: bool) -> (r: CheckDecision)
        ensures
            r == self.spec_should_check(url@, is_external),
    {
        if matches_any_prefix(&self.skip_prefixes, url) {
            CheckDecision::Skip
        } else if is_external {
            CheckDecision::Check(self.external_level)
        } else {
            CheckDecision::Check(self.internal_level)
        }
    }

    /// Decide whether a link's anchor is checked, independently of the
    /// existence-check exemption.
    pub fn should_check_anchor(&self, url: &str) -> (r: bool)
        ensures
            r == self.spec_should_check_anchor(url@),
    {
        !matches_any_prefix(&self.skip_anchor_prefixes, url)
    }
}

/// A URL with some `skip_prefixes` entry at its front is never checked for
/// existence, whatever its origin.
pub proof fn lemma_skip_prefix_exempts(
    policy: LinkChecker,
    url: Seq<char>,
    i: int,
    is_external: bool,
)
    requires
        0 <= i < policy.skip_prefixes.deep_view().len(),
        policy.skip_prefixes.deep_view()[i].is_prefix_of(url),
    ensures
        policy.spec_should_check(url, is_external) == CheckDecision::Skip,
{
}

/// A URL with a `skip_anchor_prefixes` entry at its front, but no
/// `skip_prefixes` entry, is still checked for existence, at the severity of
/// its origin, yet not for anchor presence.
pub proof fn lemma_anchor_prefix_exempts_anchor_only(policy: LinkChecker, url: Seq<char>, i: int)
    requires
        forall|j: int|
            0 <= j < policy.skip_prefixes.deep_view().len() ==> !(#[trigger] policy.skip_prefixes.deep_view()[j]).is_prefix_of(url),
        0 <= i < policy.skip_anchor_prefixes.deep_view().len(),
        policy.skip_anchor_prefixes.deep_view()[i].is_prefix_of(url),
    ensures
        policy.spec_should_check(url, false) == CheckDecision::Check(policy.internal_level),
        policy.spec_should_check(url, true) == CheckDecision::Check(policy.external_level),
        !policy.spec_should_check_anchor(url),
{
}

} // verus!
