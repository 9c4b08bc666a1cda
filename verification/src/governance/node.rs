//! Governance node: applies role-scoped manifest guidance to agent state.

use crate::governance::config::GovernanceConfig;
use crate::governance::guidance::{
    guidance_text, plan_role_guidance, prompt_of, system_text, GuidanceUpdate,
};
use crate::governance::roles::{tag_of, AgentRole};
use crate::graph::{NodeOutput, OutputView};
use crate::text::owned;
use vstd::prelude::*;

verus! {

/// Node that applies role-scoped guidance from a manifest.
#[derive(Clone, Debug)]
pub struct GovernanceNode {
    /// Node id.
    pub id: String,
    /// Manifest text.
    pub manifest: String,
    /// Active role.
    pub role: AgentRole,
    /// How guidance is applied.
    pub config: GovernanceConfig,
}

impl GovernanceNode {
    /// A node with an inline manifest and the default config (no system
    /// message, no tool policy hint).
    pub fn new(id: &str, manifest: &str, role: AgentRole) -> (r: Self)
        ensures
            r.id@ == id@,
            r.manifest@ == manifest@,
            r.role@ == role@,
            !r.config.inject_system_message,
            !r.config.store_tool_policy,
    {
        GovernanceNode {
            id: owned(id),
            manifest: owned(manifest),
            role,
            config: GovernanceConfig::default(),
        }
    }

    /// Override governance application behavior.
    pub fn with_config(self, config: GovernanceConfig) -> (r: Self)
        ensures
            r.id == self.id,
            r.manifest == self.manifest,
            r.role == self.role,
            r.config == config,
    {
        GovernanceNode { config, ..self }
    }

    /// Active role for this node.
    pub fn role(&self) -> (r: &AgentRole)
        ensures
            r == &self.role,
    {
        &self.role
    }

    /// The guidance the node applies, and its output: continue.
    pub fn apply(&self) -> (r: (GuidanceUpdate, NodeOutput))
        ensures
            r.0.role_tag@ == tag_of(self.role@),
            r.0.guidance@ == guidance_text(self.manifest@, self.role@),
            r.0.preamble@ == prompt_of(self.role@),
            self.config.store_tool_policy ==> (r.0.tool_policy_role matches Some(t) && t@
                == tag_of(self.role@)),
            !self.config.store_tool_policy ==> r.0.tool_policy_role is None,
            self.config.inject_system_message ==> (r.0.system_message matches Some(m) && m@
                == system_text(prompt_of(self.role@), guidance_text(self.manifest@, self.role@))),
            !self.config.inject_system_message ==> r.0.system_message is None,
            r.1@ == OutputView::Continue(None),
    {
        (plan_role_guidance(self.manifest.as_str(), &self.role, &self.config), NodeOutput::cont())
    }
}

} // verus!
