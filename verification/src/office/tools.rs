//! Which tools an agent may use.
use crate::text_set::{with_text, TextSet};
use crate::text::texts;
use vstd::prelude::*;

verus! {

#[derive(Clone, Debug, Eq, PartialEq)]
pub enum GatewayDecision {
    Allowed,
    Denied { reason: String },
}

#[derive(Clone, Debug, Eq, PartialEq)]
pub struct ToolCapabilityPolicy {
    allow_all: bool,
    allowed_tools: TextSet,
}

/// Which tools a policy allows: all, or those that are listed, in order.
#[verifier::ext_equal]
pub struct PolicyModel {
    pub allow_all: bool,
    pub allowed: Seq<Seq<char>>,
}

impl View for ToolCapabilityPolicy {
    type V = PolicyModel;

    closed spec fn view(&self) -> PolicyModel {
        PolicyModel { allow_all: self.allow_all, allowed: self.allowed_tools@ }
    }
}

pub open spec fn allows(p: PolicyModel, tool: Seq<char>) -> bool {
    p.allow_all || p.allowed.contains(tool)
}

pub open spec fn denial(tool: Seq<char>) -> Seq<char> {
    "tool `"@ + tool + "` is not allowed for this Agent profile"@
}

impl Default for ToolCapabilityPolicy {
    fn default() -> (r: ToolCapabilityPolicy)
        ensures
            r@ == (PolicyModel { allow_all: false, allowed: Seq::empty() }),
    {
        ToolCapabilityPolicy { allow_all: false, allowed_tools: TextSet::new() }
    }
}

impl ToolCapabilityPolicy {
    pub fn allow_all() -> (r: ToolCapabilityPolicy)
        ensures
            r@ == (PolicyModel { allow_all: true, allowed: Seq::empty() }),
    {
        ToolCapabilityPolicy { allow_all: true, allowed_tools: TextSet::new() }
    }

    /// The policy that allows this tool too.
    pub fn allow(self, tool_name: &str) -> (r: ToolCapabilityPolicy)
        ensures
            r@ == (PolicyModel { allowed: with_text(self@.allowed, tool_name@), ..self@ }),
    {
        let mut policy = self;
        policy.allowed_tools.insert(tool_name);
        policy
    }

    pub fn check(&self, tool_name: &str) -> (r: GatewayDecision)
        ensures
            match r {
                GatewayDecision::Allowed => allows(self@, tool_name@),
                GatewayDecision::Denied { reason } => !allows(self@, tool_name@) && reason@
                    == denial(tool_name@),
            },
    {
        if self.allow_all || self.allowed_tools.contains(tool_name) {
            GatewayDecision::Allowed
        } else {
            let mut reason = "tool `".to_string();
            reason.append(tool_name);
            reason.append("` is not allowed for this Agent profile");
            GatewayDecision::Denied { reason }
        }
    }

    pub fn is_unrestricted(&self) -> (r: bool)
        ensures
            r == self@.allow_all,
    {
        self.allow_all
    }

    /// The tools that are listed, in order.
    pub fn allowed_tools(&self) -> (r: Vec<String>)
        ensures
            texts(r@) == self@.allowed,
            crate::text_set::ascending(texts(r@)),
    {
        self.allowed_tools.to_vec()
    }
}

/// Allowing a tool allows it, and changes nothing for the others.
pub proof fn law_allow_adds_one_tool(p: PolicyModel, tool: Seq<char>, other: Seq<char>)
    requires
        crate::text_set::ascending(p.allowed),
    ensures
        ({
            let q = PolicyModel { allowed: with_text(p.allowed, tool), ..p };
            &&& allows(q, tool)
            &&& other != tool ==> allows(q, other) == allows(p, other)
        }),
{
    crate::text_set::lemma_with_text(p.allowed, tool);
}

/// A policy that allows all denies nothing; any other denies what it does not list.
pub proof fn law_policies_deny_what_they_do_not_list(p: PolicyModel, tool: Seq<char>)
    ensures
        p.allow_all ==> allows(p, tool),
        !p.allow_all ==> (allows(p, tool) <==> exists|i: int|
            0 <= i < p.allowed.len() && #[trigger] p.allowed[i] == tool),
{
}

} // verus!
