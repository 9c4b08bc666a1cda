//! Role-scoped guidance composition.

use crate::governance::config::GovernanceConfig;
use crate::governance::parser::{
    blocks_for, blocks_view, parse_blocks, spec_blocks_for, spec_parse_blocks, BlockView,
    TaggedBlock,
};
use crate::governance::roles::{spec_parse_role, tag_of, AgentRole, RoleView};
use crate::text::{concat_strings, join, owned, strings_view, join_strings};
use vstd::prelude::*;

verus! {

broadcast use vstd::string::group_string_axioms;

/// Context key storing the active role tag (e.g. `"builder"`).
pub const CTX_AGENT_ROLE: &'static str = "agent_role";

/// Context key storing composed manifest guidance for the active role.
pub const CTX_GOVERNANCE_GUIDANCE: &'static str = "governance_guidance";

/// Context key storing the role-specific system prompt preamble.
pub const CTX_ROLE_SYSTEM_PROMPT: &'static str = "role_system_prompt";

/// Context key storing the role whose tool policy applies.
pub const CTX_TOOL_POLICY_ROLE: &'static str = "tool_policy_role";

/// Composed guidance for one agent role.
#[derive(Clone, Debug, PartialEq, Eq)]
pub struct RoleGuidance {
    /// Role the guidance was composed for.
    pub role: AgentRole,
    /// Concatenated block text, separated by blank lines.
    pub text: String,
    /// Number of manifest blocks included.
    pub block_count: usize,
}

/// The contents of a sequence of blocks.
pub open spec fn contents_of(bs: Seq<BlockView>) -> Seq<Seq<char>> {
    bs.map_values(|b: BlockView| b.content)
}

/// The guidance text a role gets from a manifest: the contents of the blocks
/// it selects, joined by blank lines.
pub open spec fn guidance_text(manifest: Seq<char>, role: RoleView) -> Seq<char> {
    join(contents_of(spec_blocks_for(spec_parse_blocks(manifest), role)), "\n\n"@)
}

/// The number of blocks a role selects from a manifest.
pub open spec fn guidance_count(manifest: Seq<char>, role: RoleView) -> nat {
    spec_blocks_for(spec_parse_blocks(manifest), role).len()
}

/// Compose role-scoped guidance from an inline manifest string.
pub fn compose_guidance(manifest: &str, role: &AgentRole) -> (r: RoleGuidance)
    ensures
        r.role@ == role@,
        r.text@ == guidance_text(manifest@, role@),
        r.block_count == guidance_count(manifest@, role@),
{
    let blocks = parse_blocks(manifest);
    let selected = blocks_for(blocks.as_slice(), role);
    let ghost sel = blocks_view(selected@);
    let mut contents: Vec<String> = Vec::new();
    let mut i: usize = 0;
    while i < selected.len()
        invariant
            i <= selected@.len(),
            sel == blocks_view(selected@),
            strings_view(contents@) == contents_of(sel).take(i as int),
        decreases selected@.len() - i,
    {
        let ghost before = contents@;
        let c = selected[i].content.clone();
        contents.push(c);
        assert(strings_view(contents@) == strings_view(before).push(c@));
        assert(contents_of(sel).take(i + 1) == contents_of(sel).take(i as int).push(
            sel[i as int].content,
        ));
        i += 1;
    }
    assert(contents_of(sel).take(selected@.len() as int) == contents_of(sel));
    let text = join_strings(&contents, "\n\n");
    RoleGuidance { role: role.duplicate(), text, block_count: selected.len() }
}

/// The preamble a role's system prompt starts with.
pub open spec fn prompt_of(role: RoleView) -> Seq<char> {
    match role {
        RoleView::Architect => "You are the Architect agent. Focus on design, API shape, and trade-offs. Do not write implementation code unless asked."@,
        RoleView::Builder => "You are the Builder agent. Implement changes, run local checks, and keep diffs focused."@,
        RoleView::Auditor => "You are the Auditor agent. Review for correctness, security, and policy compliance."@,
        RoleView::Human => "You are assisting a Human operator. Pause for approval on risky actions."@,
        RoleView::All => "You are a general-purpose agent operating under broadcast guidance."@,
        RoleView::Custom(_) => "You are a specialized agent operating under scoped guidance."@,
    }
}

/// Short role preamble injected ahead of manifest guidance.
pub fn role_system_prompt(role: &AgentRole) -> (r: &'static str)
    ensures
        r@ == prompt_of(role@),
{
    match role {
        AgentRole::Architect => "You are the Architect agent. Focus on design, API shape, and trade-offs. Do not write implementation code unless asked.",
        AgentRole::Builder => "You are the Builder agent. Implement changes, run local checks, and keep diffs focused.",
        AgentRole::Auditor => "You are the Auditor agent. Review for correctness, security, and policy compliance.",
        AgentRole::Human => "You are assisting a Human operator. Pause for approval on risky actions.",
        AgentRole::All => "You are a general-purpose agent operating under broadcast guidance.",
        AgentRole::Custom(_) => "You are a specialized agent operating under scoped guidance.",
    }
}

/// The role named by the role tag stored in agent context, if any tag is
/// stored and it parses.
pub fn role_from_context_tag(tag: Option<&str>) -> (r: Option<AgentRole>)
    ensures
        tag is None ==> r is None,
        tag matches Some(t) ==> (match spec_parse_role(t@) {
            Ok(role) => (r matches Some(x) && x@ == role),
            Err(_) => r is None,
        }),
{
    match tag {
        Some(t) => match AgentRole::parse_role(t) {
            Ok(role) => Some(role),
            Err(_) => None,
        },
        None => None,
    }
}

/// The context and message changes that applying a role's guidance makes.
#[derive(Clone, Debug, PartialEq, Eq)]
pub struct GuidanceUpdate {
    /// Value for [`CTX_AGENT_ROLE`].
    pub role_tag: String,
    /// Value for [`CTX_GOVERNANCE_GUIDANCE`].
    pub guidance: String,
    /// Value for [`CTX_ROLE_SYSTEM_PROMPT`].
    pub preamble: String,
    /// Value for [`CTX_TOOL_POLICY_ROLE`], when the configuration stores it.
    pub tool_policy_role: Option<String>,
    /// System message to put first in the conversation, when configured.
    pub system_message: Option<String>,
}

/// The system message: the preamble, then a blank line and the guidance
/// when there is any.
pub open spec fn system_text(preamble: Seq<char>, guidance: Seq<char>) -> Seq<char> {
    if guidance.len() == 0 {
        preamble
    } else {
        preamble + "\n\n"@ + guidance
    }
}

/// The changes that applying role guidance from a manifest makes to agent
/// state: the role tag, guidance and preamble go into context; the role tag
/// is stored again as tool policy hint when configured; the composed system
/// message is inserted first when configured.
pub fn plan_role_guidance(manifest: &str, role: &AgentRole, config: &GovernanceConfig) -> (r:
    GuidanceUpdate)
    ensures
        r.role_tag@ == tag_of(role@),
        r.guidance@ == guidance_text(manifest@, role@),
        r.preamble@ == prompt_of(role@),
        config.store_tool_policy ==> (r.tool_policy_role matches Some(t) && t@ == tag_of(role@)),
        !config.store_tool_policy ==> r.tool_policy_role is None,
        config.inject_system_message ==> (r.system_message matches Some(m) && m@ == system_text(
            prompt_of(role@),
            guidance_text(manifest@, role@),
        )),
        !config.inject_system_message ==> r.system_message is None,
{
    let guidance = compose_guidance(manifest, role);
    let preamble = role_system_prompt(role);
    let system = if guidance.text.as_str().is_empty() {
        owned(preamble)
    } else {
        let a = concat_strings(preamble, "\n\n");
        concat_strings(a.as_str(), guidance.text.as_str())
    };
    GuidanceUpdate {
        role_tag: owned(role.as_tag()),
        guidance: guidance.text,
        preamble: owned(preamble),
        tool_policy_role: if config.store_tool_policy {
            Some(owned(role.as_tag()))
        } else {
            None
        },
        system_message: if config.inject_system_message {
            Some(system)
        } else {
            None
        },
    }
}

} // verus!
