use oxidizedgraph::governance::discovery::{agent_location_list, AgentDiscovery};
use oxidizedgraph::governance::validator::GovernanceValidator;
use oxidizedgraph::governance::config::{tool_policy_for_role, GovernanceConfig};
use oxidizedgraph::governance::guidance::{compose_guidance, plan_role_guidance, role_from_context_tag};
use oxidizedgraph::governance::parser::{blocks_for, parse_blocks};
use oxidizedgraph::governance::roles::{AgentRole, RoleParseError};
use oxidizedgraph::governance::symlinks::{relative_link_target, SymlinkManager, SymlinkStatus};
use oxidizedgraph::tools::policy::{PolicyDecision, ToolPolicyEngine};

const SAMPLE: &str = "<@all>\nShared rules.\n\n<@builder>\nBuilder-only rules.\n";

fn parse(s: &str) -> Result<AgentRole, RoleParseError> {
    s.parse::<AgentRole>()
}

#[test]
fn architect_cannot_invoke_shell() {
    let engine = ToolPolicyEngine::new(tool_policy_for_role(&AgentRole::Architect));
    assert_eq!(engine.evaluate("shell", None).unwrap(), PolicyDecision::Deny);
}

#[test]
fn builder_may_invoke_shell() {
    let engine = ToolPolicyEngine::new(tool_policy_for_role(&AgentRole::Builder));
    assert_eq!(engine.evaluate("shell", None).unwrap(), PolicyDecision::Allow);
}

#[test]
fn human_shell_requires_approval() {
    let engine = ToolPolicyEngine::new(tool_policy_for_role(&AgentRole::Human));
    assert_eq!(engine.evaluate("shell", None).unwrap(), PolicyDecision::RequireApproval);
}

#[test]
fn compose_guidance_includes_broadcast_and_role_block() {
    let g = compose_guidance(SAMPLE, &AgentRole::Builder);
    assert_eq!(g.block_count, 2);
    assert!(g.text.contains("Shared rules"));
    assert!(g.text.contains("Builder-only rules"));
}

#[test]
fn parses_single_block() {
    let blocks = parse_blocks("<@all>\nhello\nworld\n");
    assert_eq!(blocks.len(), 1);
    assert_eq!(blocks[0].role, AgentRole::All);
    assert_eq!(blocks[0].tag_line, 1);
    assert_eq!(blocks[0].content, "hello\nworld");
}

#[test]
fn splits_on_each_tag() {
    let input = "<@architect>\ndesign things\n<@builder>\nbuild things\n<@auditor>\naudit things\n";
    let blocks = parse_blocks(input);
    assert_eq!(blocks.len(), 3);
    let roles: Vec<AgentRole> = blocks.iter().map(|b| b.role.clone()).collect();
    assert_eq!(roles, vec![AgentRole::Architect, AgentRole::Builder, AgentRole::Auditor]);
    assert_eq!(blocks[0].content, "design things");
    assert_eq!(blocks[1].content, "build things");
    assert_eq!(blocks[2].content, "audit things");
}

#[test]
fn drops_preamble_before_first_tag() {
    let blocks = parse_blocks("preamble line one\npreamble line two\n<@builder>\nbody\n");
    assert_eq!(blocks.len(), 1);
    assert_eq!(blocks[0].content, "body");
}

#[test]
fn preserves_block_order_with_repeated_tags() {
    let input = "<@all>\nintro\n<@builder>\nfirst builder\n<@all>\nbetween broadcast\n<@builder>\nsecond builder\n";
    let blocks = parse_blocks(input);
    assert_eq!(blocks.len(), 4);
    assert_eq!(
        blocks.iter().map(|b| b.role.clone()).collect::<Vec<_>>(),
        vec![AgentRole::All, AgentRole::Builder, AgentRole::All, AgentRole::Builder]
    );
    assert_eq!(blocks[0].content, "intro");
    assert_eq!(blocks[1].content, "first builder");
    assert_eq!(blocks[2].content, "between broadcast");
    assert_eq!(blocks[3].content, "second builder");
}

#[test]
fn mid_line_tag_is_not_a_boundary() {
    let input = "<@all>\nThe <@builder> role is for implementation.\n<@builder>\nactual builder body\n";
    let blocks = parse_blocks(input);
    assert_eq!(blocks.len(), 2);
    assert_eq!(blocks[0].role, AgentRole::All);
    assert!(blocks[0].content.contains("<@builder>"), "got: {:?}", blocks[0].content);
    assert_eq!(blocks[1].role, AgentRole::Builder);
    assert_eq!(blocks[1].content, "actual builder body");
}

#[test]
fn unknown_tags_become_custom_blocks() {
    let blocks = parse_blocks("<@codex>\ntool-specific\n<@sdlc>\ndomain-specific\n");
    assert_eq!(blocks.len(), 2);
    assert_eq!(blocks[0].role, AgentRole::Custom("codex".to_string()));
    assert_eq!(blocks[1].role, AgentRole::Custom("sdlc".to_string()));
}

#[test]
fn malformed_tag_is_silently_ignored() {
    let blocks = parse_blocks("<@builder>\nfirst\n<@ >\nsecond\n");
    assert_eq!(blocks.len(), 1);
    assert_eq!(blocks[0].role, AgentRole::Builder);
    assert!(blocks[0].content.contains("first"));
    assert!(blocks[0].content.contains("<@ >"));
    assert!(blocks[0].content.contains("second"));
}

#[test]
fn blocks_for_filters_by_role_with_broadcast() {
    let input = "<@all>\nbroadcast\n<@builder>\nbuilder only\n<@auditor>\nauditor only\n";
    let blocks = parse_blocks(input);

    let builder_view: Vec<String> = blocks_for(&blocks, &AgentRole::Builder).into_iter().map(|b| b.content).collect();
    assert_eq!(builder_view, vec!["broadcast", "builder only"]);

    let auditor_view: Vec<String> = blocks_for(&blocks, &AgentRole::Auditor).into_iter().map(|b| b.content).collect();
    assert_eq!(auditor_view, vec!["broadcast", "auditor only"]);

    let all_view: Vec<String> = blocks_for(&blocks, &AgentRole::All).into_iter().map(|b| b.content).collect();
    assert_eq!(all_view, vec!["broadcast", "builder only", "auditor only"]);
}

#[test]
fn empty_input_yields_no_blocks() {
    assert!(parse_blocks("").is_empty());
    assert!(parse_blocks("\n\n\n").is_empty());
    assert!(parse_blocks("only prose, no tags\nat all\n").is_empty());
}

#[test]
fn tag_line_numbers_are_one_indexed() {
    let blocks = parse_blocks("<@all>\nbody-line-2\n<@builder>\nbody-line-4\n");
    assert_eq!(blocks[0].tag_line, 1);
    assert_eq!(blocks[1].tag_line, 3);
}

#[test]
fn tag_line_tracks_across_multi_block_input() {
    let input = "<@all>\nbroadcast body 1\nbroadcast body 2\nbroadcast body 3\n<@architect>\narchitect body\n<@builder>\n\n\nbuilder with leading blanks\n<@auditor>\nfinal block\n";
    let blocks = parse_blocks(input);
    assert_eq!(blocks.len(), 4);
    let tag_lines: Vec<usize> = blocks.iter().map(|b| b.tag_line).collect();
    assert_eq!(tag_lines, vec![1, 5, 7, 11]);
}

#[test]
fn nested_tag_decoration_is_not_a_boundary() {
    let blocks = parse_blocks("<@builder>\nfirst\n<@<@builder>>\nsecond\n");
    assert_eq!(blocks.len(), 1);
    assert_eq!(blocks[0].role, AgentRole::Builder);
    assert!(blocks[0].content.contains("first"));
    assert!(blocks[0].content.contains("<@<@builder>>"));
    assert!(blocks[0].content.contains("second"));
}

#[test]
fn parses_canonical_roles() {
    assert_eq!(parse("all").unwrap(), AgentRole::All);
    assert_eq!(parse("architect").unwrap(), AgentRole::Architect);
    assert_eq!(parse("builder").unwrap(), AgentRole::Builder);
    assert_eq!(parse("auditor").unwrap(), AgentRole::Auditor);
    assert_eq!(parse("human").unwrap(), AgentRole::Human);
}

#[test]
fn accepts_decorated_forms() {
    assert_eq!(parse("<@builder>").unwrap(), AgentRole::Builder);
    assert_eq!(parse("@builder").unwrap(), AgentRole::Builder);
    assert_eq!(parse("  @architect  ").unwrap(), AgentRole::Architect);
}

#[test]
fn is_case_insensitive() {
    assert_eq!(parse("Architect").unwrap(), AgentRole::Architect);
    assert_eq!(parse("BUILDER").unwrap(), AgentRole::Builder);
    assert_eq!(parse("<@HUMAN>").unwrap(), AgentRole::Human);
}

#[test]
fn preserves_unknown_tags_as_custom() {
    let codex: AgentRole = "<@codex>".parse().unwrap();
    assert_eq!(codex, AgentRole::Custom("codex".to_string()));
    let sdlc: AgentRole = "sdlc".parse().unwrap();
    assert_eq!(sdlc, AgentRole::Custom("sdlc".to_string()));
}

#[test]
fn rejects_empty_and_whitespace() {
    assert_eq!(parse(""), Err(RoleParseError::Empty));
    assert_eq!(parse("   "), Err(RoleParseError::Empty));
    assert_eq!(parse("<@>"), Err(RoleParseError::Empty));
}

#[test]
fn rejects_invalid_characters() {
    assert!(matches!(parse("two words"), Err(RoleParseError::InvalidCharacter(_))));
    assert!(matches!(parse("build.er"), Err(RoleParseError::InvalidCharacter(_))));
}

#[test]
fn display_round_trips() {
    for role in [
        AgentRole::All,
        AgentRole::Architect,
        AgentRole::Builder,
        AgentRole::Auditor,
        AgentRole::Human,
        AgentRole::Custom("codex".to_string()),
    ] {
        let rendered = role.to_tag_string();
        let parsed: AgentRole = rendered.parse().unwrap();
        assert_eq!(role, parsed, "round-trip failed for {:?}", role);
    }
}

#[test]
fn receives_routing_semantics() {
    for role in [
        AgentRole::Architect,
        AgentRole::Builder,
        AgentRole::Auditor,
        AgentRole::Human,
        AgentRole::Custom("codex".into()),
    ] {
        assert!(role.receives(&AgentRole::All), "{:?} should receive <@all>", role);
    }
    assert!(!AgentRole::Builder.receives(&AgentRole::Architect));
    assert!(!AgentRole::All.receives(&AgentRole::Builder));
}

#[test]
fn from_inner_is_strict_about_decoration() {
    assert!(AgentRole::from_inner("<@builder>").is_err());
    assert!(AgentRole::from_inner("@builder").is_err());
    assert_eq!(AgentRole::from_inner("builder").unwrap(), AgentRole::Builder);
    assert_eq!(AgentRole::from_inner("codex").unwrap(), AgentRole::Custom("codex".into()));
    assert_eq!(AgentRole::from_inner("").unwrap_err(), RoleParseError::Empty);
    assert_eq!(AgentRole::from_inner("   ").unwrap_err(), RoleParseError::Empty);
}

#[test]
fn role_tag_rendering_is_exact() {
    assert_eq!(AgentRole::Builder.to_tag_string(), "<@builder>");
    assert_eq!(AgentRole::Custom("sdlc".to_string()).to_tag_string(), "<@sdlc>");
    assert_eq!(AgentRole::Human.as_tag(), "human");
}

#[test]
fn guidance_for_role_without_blocks_is_empty() {
    let g = compose_guidance("<@builder>\nonly builder\n", &AgentRole::Architect);
    assert_eq!(g.block_count, 0);
    assert_eq!(g.text, "");
}

#[test]
fn permissive_config_injects_everything() {
    let c = GovernanceConfig::permissive();
    assert!(c.inject_system_message);
    assert!(c.store_tool_policy);
    let d = GovernanceConfig::default();
    assert!(!d.inject_system_message);
    assert!(!d.store_tool_policy);
}

#[test]
fn apply_role_guidance_sets_context_and_system_message() {
    let update = plan_role_guidance(SAMPLE, &AgentRole::Builder, &GovernanceConfig::permissive());
    assert_eq!(role_from_context_tag(Some(update.role_tag.as_str())), Some(AgentRole::Builder));
    assert!(update.guidance.contains("Builder-only"));
    let message = update.system_message.expect("a system message");
    assert!(message.starts_with(update.preamble.as_str()));
    assert!(message.contains("Builder-only"));
}

#[test]
fn context_only_config_injects_no_message() {
    let update = plan_role_guidance(SAMPLE, &AgentRole::Builder, &GovernanceConfig::context_only());
    assert!(update.system_message.is_none());
    assert_eq!(update.tool_policy_role, Some("builder".to_string()));
    assert_eq!(update.role_tag, "builder");
}

#[test]
fn relative_link_target_walks_up_from_the_link_directory() {
    assert_eq!(relative_link_target("/repo/AGENTS.md", "/repo/.github"), "../AGENTS.md");
    assert_eq!(relative_link_target("/repo/AGENTS.md", "/repo"), "AGENTS.md");
    assert_eq!(relative_link_target("repo/AGENTS.md", "/abs"), "repo/AGENTS.md");
}

#[test]
fn blank_lines_after_a_tag_are_kept() {
    let blocks = parse_blocks("<@all>\n\nx\n<@builder>\n\n\ny\n\n");
    assert_eq!(blocks.len(), 2);
    assert_eq!(blocks[0].content, "\nx");
    assert_eq!(blocks[1].content, "\n\ny\n");
}

#[test]
fn guidance_files_are_synced_checked_and_discovered_in_order() {
    let manager = SymlinkManager::default("/repo");
    assert_eq!(
        manager.sync_targets(),
        vec![".cursor/rules/swarm.mdc", ".github/copilot-instructions.md", "GEMINI.md", ".agent/rules/orchestration.md"]
    );
    let validator = GovernanceValidator::new("/repo");
    assert_eq!(validator.targets_to_check(), manager.sync_targets());
    assert_eq!(agent_location_list()[0], ("GEMINI.md", "gemini"));

    let discovery = AgentDiscovery::new("/repo");
    let locations = vec![
        ("/repo/GEMINI.md".to_string(), true),
        ("/repo/.cursor/rules/swarm.mdc".to_string(), false),
        ("/repo/.github/copilot-instructions.md".to_string(), true),
    ];
    let agents = discovery.scan(&locations, None);
    assert_eq!(agents.len(), 2);
    assert_eq!(agents[0].name, "<@gemini>");
    assert_eq!(agents[0].guidance_path, "/repo/GEMINI.md");
    assert_eq!(agents[1].name, "<@copilot>");
}

#[test]
fn compliance_report_records_each_checked_link() {
    let validator = GovernanceValidator::new("/repo");
    let checks = vec![
        ("GEMINI.md".to_string(), Ok(SymlinkStatus::Valid)),
        ("AGENTS.md".to_string(), Err("denied".to_string())),
        ("x.md".to_string(), Ok(SymlinkStatus::Broken)),
    ];
    let report = validator.validate_compliance(true, &checks);
    assert!(!report.is_compliant);
    assert_eq!(report.symlinks, vec![("GEMINI.md".to_string(), SymlinkStatus::Valid), ("x.md".to_string(), SymlinkStatus::Broken)]);
    assert_eq!(report.issues.len(), 2);
}
