//! Governance configuration and per-role tool restrictions.

use crate::governance::roles::{AgentRole, RoleView};
use crate::tools::policy::{Capability, PolicyView, ToolExecutionPolicy};
use vstd::prelude::*;

verus! {

/// How a governance node applies guidance.
#[derive(Clone, Copy, Debug, PartialEq, Eq, Structural)]
pub struct GovernanceConfig {
    /// When true, prepend a system message with composed role guidance.
    pub inject_system_message: bool,
    /// When true, store a role-scoped tool policy hint in agent context.
    pub store_tool_policy: bool,
}

/// Value a missing configuration field takes when a configuration is read
/// from serialized form.
pub fn default_true() -> (r: bool)
    ensures
        r,
{
    true
}

impl Default for GovernanceConfig {
    /// Both switches off.
    fn default() -> (r: Self)
        ensures
            !r.inject_system_message,
            !r.store_tool_policy,
    {
        GovernanceConfig { inject_system_message: false, store_tool_policy: false }
    }
}

impl GovernanceConfig {
    /// Permissive config for tests and examples: inject and store.
    pub fn permissive() -> (r: Self)
        ensures
            r.inject_system_message,
            r.store_tool_policy,
    {
        GovernanceConfig { inject_system_message: true, store_tool_policy: true }
    }

    /// Guidance-only: update context without injecting messages.
    pub fn context_only() -> (r: Self)
        ensures
            !r.inject_system_message,
            r.store_tool_policy,
    {
        GovernanceConfig { inject_system_message: false, store_tool_policy: true }
    }
}

/// The tool policy a role gets.
pub open spec fn role_policy(role: RoleView) -> PolicyView {
    let empty = PolicyView {
        capabilities: Map::empty(),
        denied: Set::empty(),
        approval: Set::empty(),
        blocked: Seq::empty(),
    };
    match role {
        RoleView::Architect => PolicyView {
            capabilities: Map::empty().insert("read_file"@, seq![Capability::ReadFile]),
            denied: Set::empty().insert("shell"@).insert("write_file"@).insert("git_push"@),
            ..empty
        },
        RoleView::Builder => PolicyView {
            capabilities: Map::empty().insert("read_file"@, seq![Capability::ReadFile]).insert(
                "write_file"@,
                seq![Capability::WriteFile],
            ).insert("shell"@, seq![Capability::Shell]).insert(
                "git_status"@,
                seq![Capability::Git],
            ),
            ..empty
        },
        RoleView::Auditor => PolicyView {
            capabilities: Map::empty().insert("read_file"@, seq![Capability::ReadFile]).insert(
                "shell"@,
                seq![Capability::Shell],
            ),
            ..empty
        },
        RoleView::Human => PolicyView {
            capabilities: Map::empty().insert("read_file"@, seq![Capability::ReadFile]),
            approval: Set::empty().insert("write_file"@).insert("shell"@).insert("git_push"@),
            ..empty
        },
        _ => PolicyView {
            capabilities: Map::empty().insert("shell"@, seq![Capability::Shell]),
            blocked: seq!["rm -rf /"@, "sudo "@],
            ..empty
        },
    }
}

/// Default tool restrictions for a governance role (fail-closed for unknown
/// tools): the architect reads only, the builder reads, writes, runs shell
/// and git status, the auditor reads and runs shell, the human reads and
/// must approve writes, shell and pushes; broadcast and custom roles get
/// the permissive policy.
pub fn tool_policy_for_role(role: &AgentRole) -> (r: ToolExecutionPolicy)
    ensures
        r@ == role_policy(role@),
{
    let read = vec![Capability::ReadFile];
    assert(read@ =~= seq![Capability::ReadFile]);
    match role {
        AgentRole::Architect => {
            let p = ToolExecutionPolicy::default().allow_tool("read_file", read).deny_tool(
                "shell",
            ).deny_tool("write_file").deny_tool("git_push");
            assert(p@.capabilities =~= role_policy(role@).capabilities);
            p
        },
        AgentRole::Builder => {
            let w = vec![Capability::WriteFile];
            let s = vec![Capability::Shell];
            let g = vec![Capability::Git];
            assert(w@ =~= seq![Capability::WriteFile]);
            assert(s@ =~= seq![Capability::Shell]);
            assert(g@ =~= seq![Capability::Git]);
            let p = ToolExecutionPolicy::default().allow_tool("read_file", read).allow_tool(
                "write_file",
                w,
            ).allow_tool("shell", s).allow_tool("git_status", g);
            p
        },
        AgentRole::Auditor => {
            let s = vec![Capability::Shell];
            assert(s@ =~= seq![Capability::Shell]);
            ToolExecutionPolicy::default().allow_tool("read_file", read).allow_tool("shell", s)
        },
        AgentRole::Human => {
            ToolExecutionPolicy::default().allow_tool("read_file", read).require_approval(
                "write_file",
            ).require_approval("shell").require_approval("git_push")
        },
        _ => ToolExecutionPolicy::permissive(),
    }
}

} // verus!
