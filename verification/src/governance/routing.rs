//! Role-based routing primitives for governance-aware graphs.

use crate::governance::config::{role_policy, tool_policy_for_role, GovernanceConfig};
use crate::governance::guidance::{
    guidance_text, plan_role_guidance, prompt_of, system_text, GuidanceUpdate,
};
use crate::governance::roles::{spec_parse_role, tag_of, AgentRole, RoleView};
use crate::graph::{NodeOutput, OutputView};
use crate::kv::{kv_get, kv_map};
use crate::text::owned;
use crate::tools::policy::ToolExecutionPolicy;
use vstd::prelude::*;

verus! {

broadcast use vstd::string::group_string_axioms;

/// Routes execution with a transition key derived from the `agent_role`
/// context entry; wire its edges with the role tags as keys.
#[derive(Clone, Debug)]
pub struct RoleRouterNode {
    /// Node id.
    pub id: String,
    /// Transition key used when no role is set in context.
    pub default_transition: String,
}

impl RoleRouterNode {
    /// A router that falls back to `default_transition` when no role is set.
    pub fn new(id: &str, default_transition: &str) -> (r: Self)
        ensures
            r.id@ == id@,
            r.default_transition@ == default_transition@,
    {
        RoleRouterNode { id: owned(id), default_transition: owned(default_transition) }
    }

    /// The output for the role tag stored in context (if any): a transition
    /// keyed by the canonical tag of the role it parses to, else the default
    /// transition.
    pub fn route_for(&self, role_tag: Option<&str>) -> (r: NodeOutput)
        ensures
            r@ == OutputView::Transition(
                match role_tag {
                    Some(t) => match spec_parse_role(t@) {
                        Ok(role) => tag_of(role),
                        Err(_) => self.default_transition@,
                    },
                    None => self.default_transition@,
                },
            ),
    {
        let role = match role_tag {
            Some(t) => match AgentRole::parse_role(t) {
                Ok(role) => Some(role),
                Err(_) => None,
            },
            None => None,
        };
        match role {
            Some(r) => NodeOutput::transition(r.as_tag()),
            None => NodeOutput::transition(self.default_transition.as_str()),
        }
    }
}

/// Hands execution to a new role, re-applying manifest guidance and tool
/// policy hints.
#[derive(Clone, Debug)]
pub struct RoleHandoffNode {
    /// Node id.
    pub id: String,
    /// Manifest text.
    pub manifest: String,
    /// Role taking over.
    pub next_role: AgentRole,
    /// How guidance is applied.
    pub config: GovernanceConfig,
}

impl RoleHandoffNode {
    /// A handoff node with an inline manifest and the permissive config.
    pub fn new(id: &str, manifest: &str, next_role: AgentRole) -> (r: Self)
        ensures
            r.id@ == id@,
            r.manifest@ == manifest@,
            r.next_role@ == next_role@,
            r.config.inject_system_message,
            r.config.store_tool_policy,
    {
        RoleHandoffNode {
            id: owned(id),
            manifest: owned(manifest),
            next_role,
            config: GovernanceConfig::permissive(),
        }
    }

    /// Override governance application behavior.
    pub fn with_config(self, config: GovernanceConfig) -> (r: Self)
        ensures
            r.id == self.id,
            r.manifest == self.manifest,
            r.next_role == self.next_role,
            r.config == config,
    {
        RoleHandoffNode { config, ..self }
    }

    /// The guidance the handoff applies, and the output: continue.
    pub fn handoff(&self) -> (r: (GuidanceUpdate, NodeOutput))
        ensures
            r.0.role_tag@ == tag_of(self.next_role@),
            r.0.guidance@ == guidance_text(self.manifest@, self.next_role@),
            r.0.preamble@ == prompt_of(self.next_role@),
            self.config.store_tool_policy ==> (r.0.tool_policy_role matches Some(t) && t@
                == tag_of(self.next_role@)),
            !self.config.store_tool_policy ==> r.0.tool_policy_role is None,
            self.config.inject_system_message ==> (r.0.system_message matches Some(m) && m@
                == system_text(
                prompt_of(self.next_role@),
                guidance_text(self.manifest@, self.next_role@),
            )),
            !self.config.inject_system_message ==> r.0.system_message is None,
            r.1@ == OutputView::Continue(None),
    {
        (plan_role_guidance(self.manifest.as_str(), &self.next_role, &self.config), NodeOutput::cont())
    }
}

/// The tool policy for the role in context, or for `fallback` when none is
/// set or the tag does not parse.
pub fn tool_policy_for_state(role_tag: Option<&str>, fallback: &AgentRole) -> (r:
    ToolExecutionPolicy)
    ensures
        r@ == role_policy(
            match role_tag {
                Some(t) => match spec_parse_role(t@) {
                    Ok(role) => role,
                    Err(_) => fallback@,
                },
                None => fallback@,
            },
        ),
{
    let role = match role_tag {
        Some(t) => match AgentRole::parse_role(t) {
            Ok(role) => role,
            Err(_) => fallback.duplicate(),
        },
        None => fallback.duplicate(),
    };
    tool_policy_for_role(&role)
}

/// Routes to explicit node targets by the raw role tag in context.
#[derive(Clone, Debug)]
pub struct RoleTargetRouterNode {
    /// Node id.
    pub id: String,
    /// Role tag to target node; a later entry for a tag replaces an earlier.
    pub routes: Vec<(String, String)>,
    /// Target when no role matches.
    pub default_target: Option<String>,
}

impl RoleTargetRouterNode {
    /// A router with no routes and no default.
    pub fn new(id: &str) -> (r: Self)
        ensures
            r.id@ == id@,
            kv_map(r.routes@) == Map::<Seq<char>, Seq<char>>::empty(),
            r.default_target is None,
    {
        RoleTargetRouterNode { id: owned(id), routes: Vec::new(), default_target: None }
    }

    /// Route a role's tag to a node id.
    pub fn route(self, role: &AgentRole, target: &str) -> (r: Self)
        ensures
            r.id == self.id,
            kv_map(r.routes@) == kv_map(self.routes@).insert(tag_of(role@), target@),
            r.default_target == self.default_target,
    {
        let mut s = self;
        let ghost before = s.routes@;
        s.routes.push((owned(role.as_tag()), owned(target)));
        assert(s.routes@.drop_last() == before);
        s
    }

    /// Target when no role matches.
    pub fn default_target(self, target: &str) -> (r: Self)
        ensures
            r.id == self.id,
            r.routes == self.routes,
            r.default_target matches Some(t) && t@ == target@,
    {
        RoleTargetRouterNode { default_target: Some(owned(target)), ..self }
    }

    /// The output for the role tag in context: continue to the routed node,
    /// else to the default target, else finish.
    pub fn route_for(&self, role_tag: Option<&str>) -> (r: NodeOutput)
        ensures
            r@ == match role_tag {
                Some(t) if kv_map(self.routes@).contains_key(t@) => OutputView::Continue(
                    Some(kv_map(self.routes@)[t@]),
                ),
                _ => match self.default_target {
                    Some(d) => OutputView::Continue(Some(d@)),
                    None => OutputView::Finish,
                },
            },
    {
        match role_tag {
            Some(t) => match kv_get(&self.routes, t) {
                Some(target) => {
                    return NodeOutput::continue_to(target.as_str());
                },
                None => {},
            },
            None => {},
        }
        match &self.default_target {
            Some(d) => NodeOutput::continue_to(d.as_str()),
            None => NodeOutput::finish(),
        }
    }
}

} // verus!
