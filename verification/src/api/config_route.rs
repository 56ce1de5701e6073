//! `GET /config`: a read-only, redacted summary of the policy in effect.
//! The UI uses it for its location-bar indicator and `acb-cli config`
//! prints it. The policy text itself is never exposed (it may hold CIDR
//! internals or patterns the operator considers sensitive): only rule
//! names, kinds and allowed classes, the resource settings, the etag and
//! the page helper's fingerprint.

use vstd::prelude::*;

use crate::api::actions::copy_strings;
use crate::protect::string_views;
use crate::text::owned;

verus! {

/// How a policy rule matches URLs.
#[derive(Debug, Clone, Copy, PartialEq, Eq)]
pub enum RuleKind {
    Regex,
    Fqdn,
    IpCidr,
}

/// What the summary needs of one compiled rule.
#[derive(Debug)]
pub struct PolicyRule {
    pub name: String,
    pub kind: RuleKind,
    pub allowed_classes: Vec<String>,
}

/// What the summary needs of the compiled policy.
#[derive(Debug)]
pub struct PolicyOverview {
    pub etag: String,
    pub rules: Vec<PolicyRule>,
    pub always_block_schemes: Vec<String>,
    pub subresources_inherit_page: bool,
}

#[derive(Debug)]
pub struct RuleSummary {
    pub name: String,
    pub kind: String,
    pub allowed_classes: Vec<String>,
}

#[derive(Debug)]
pub struct ConfigSummary {
    pub etag: String,
    pub rules: Vec<RuleSummary>,
    pub always_block_schemes: Vec<String>,
    pub subresources_inherit_page: bool,
    pub helper_sha256: String,
}

/// The name a rule kind is reported under.
pub open spec fn kind_name(k: RuleKind) -> Seq<char> {
    match k {
        RuleKind::Regex => "regex"@,
        RuleKind::Fqdn => "fqdn"@,
        RuleKind::IpCidr => "ip_cidr"@,
    }
}

pub fn rule_kind_name(k: RuleKind) -> (s: &'static str)
    ensures
        s@ == kind_name(k),
{
    match k {
        RuleKind::Regex => "regex",
        RuleKind::Fqdn => "fqdn",
        RuleKind::IpCidr => "ip_cidr",
    }
}

/// A rule's summary says exactly its name, kind and allowed classes.
pub open spec fn summarizes(s: RuleSummary, r: PolicyRule) -> bool {
    &&& s.name@ == r.name@
    &&& s.kind@ == kind_name(r.kind)
    &&& string_views(s.allowed_classes@) == string_views(r.allowed_classes@)
}

pub fn summarize_rule(r: &PolicyRule) -> (s: RuleSummary)
    ensures
        summarizes(s, *r),
{
    RuleSummary {
        name: owned(r.name.as_str()),
        kind: owned(rule_kind_name(r.kind)),
        allowed_classes: copy_strings(&r.allowed_classes),
    }
}

/// The summary of `p`; `helper_sha256` is the fingerprint of the page
/// helper the daemon injects.
pub fn summarize(p: &PolicyOverview, helper_sha256: &str) -> (c: ConfigSummary)
    ensures
        c.etag@ == p.etag@,
        c.rules.len() == p.rules.len(),
        forall|i: int| 0 <= i < p.rules.len() ==> summarizes(#[trigger] c.rules@[i], p.rules@[i]),
        string_views(c.always_block_schemes@) == string_views(p.always_block_schemes@),
        c.subresources_inherit_page == p.subresources_inherit_page,
        c.helper_sha256@ == helper_sha256@,
{
    let mut rules: Vec<RuleSummary> = Vec::new();
    let mut i: usize = 0;
    while i < p.rules.len()
        invariant
            i <= p.rules.len(),
            rules.len() == i,
            forall|j: int| 0 <= j < i ==> summarizes(#[trigger] rules@[j], p.rules@[j]),
        decreases p.rules.len() - i,
    {
        rules.push(summarize_rule(&p.rules[i]));
        i = i + 1;
    }
    ConfigSummary {
        etag: owned(p.etag.as_str()),
        rules,
        always_block_schemes: copy_strings(&p.always_block_schemes),
        subresources_inherit_page: p.subresources_inherit_page,
        helper_sha256: owned(helper_sha256),
    }
}

} // verus!
