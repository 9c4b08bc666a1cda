//! Discovering which agents a repository carries guidance for.

use crate::governance::parser::{blocks_view, parse_blocks, spec_parse_blocks, BlockView};
use crate::governance::roles::{rendered, AgentRole, RoleView};
use crate::text::{copy_string, owned};
use vstd::prelude::*;

verus! {

broadcast use vstd::string::group_string_axioms;

/// An agent found by discovery.
#[derive(Clone, Debug)]
pub struct DiscoveredAgent {
    /// Display name: the role's tag form.
    pub name: String,
    /// The guidance file it was found by.
    pub guidance_path: String,
    /// The role inferred for it.
    pub inferred_role: AgentRole,
}

/// The agent-specific guidance files looked for, in order, with the agent
/// each names. The governance framework names one more agent's file,
/// looked for first; this list leaves it out, so that agent is found only
/// through the master manifest's blocks.
pub open spec fn agent_locations() -> Seq<(Seq<char>, Seq<char>)> {
    seq![
        ("GEMINI.md"@, "gemini"@),
        (".cursor/rules/swarm.mdc"@, "cursor"@),
        (".github/copilot-instructions.md"@, "copilot"@),
    ]
}

/// The agent-specific guidance files looked for, in order, with the agent
/// each names.
pub fn agent_location_list() -> (r: Vec<(&'static str, &'static str)>)
    ensures
        r@.map_values(|p: (&str, &str)| (p.0@, p.1@)) == agent_locations(),
{
    let r = vec![
        ("GEMINI.md", "gemini"),
        (".cursor/rules/swarm.mdc", "cursor"),
        (".github/copilot-instructions.md", "copilot"),
    ];
    assert(r@.map_values(|p: (&str, &str)| (p.0@, p.1@)) =~= agent_locations());
    r
}

/// What an agent found by discovery holds.
pub struct AgentView {
    pub name: Seq<char>,
    pub guidance_path: Seq<char>,
    pub role: RoleView,
}

/// The views of discovered agents.
pub open spec fn agents_view(v: Seq<DiscoveredAgent>) -> Seq<AgentView> {
    v.map_values(|a: DiscoveredAgent| AgentView { name: a.name@, guidance_path: a.guidance_path@, role: a.inferred_role@ })
}

/// The agents whose guidance files exist, in location order.
pub open spec fn file_agents(locs: Seq<(Seq<char>, bool)>) -> Seq<AgentView>
    decreases locs.len(),
{
    if locs.len() == 0 {
        Seq::empty()
    } else {
        let k = locs.len() - 1;
        file_agents(locs.drop_last()) + if locs.last().1 && k < agent_locations().len() {
            let role = RoleView::Custom(agent_locations()[k].1);
            seq![AgentView { name: rendered(role), guidance_path: locs.last().0, role }]
        } else {
            Seq::empty()
        }
    }
}

/// `agents` after the roles of the manifest's blocks, other than the
/// broadcast role, that no agent has yet.
pub open spec fn with_manifest_roles(agents: Seq<AgentView>, roles: Seq<RoleView>, path: Seq<char>) -> Seq<AgentView>
    decreases roles.len(),
{
    if roles.len() == 0 {
        agents
    } else {
        let prev = with_manifest_roles(agents, roles.drop_last(), path);
        let r = roles.last();
        if r == RoleView::All || exists|i: int| 0 <= i < prev.len() && prev[i].role == r {
            prev
        } else {
            prev.push(AgentView { name: rendered(r), guidance_path: path, role: r })
        }
    }
}

/// Discovers agents in a repository.
#[derive(Clone, Debug)]
pub struct AgentDiscovery {
    base_dir: String,
}

impl AgentDiscovery {
    /// Discovery for a base directory.
    pub fn new(base_dir: &str) -> (r: Self)
        ensures
            r.base_dir()@ == base_dir@,
    {
        AgentDiscovery { base_dir: owned(base_dir) }
    }

    /// The base directory.
    pub closed spec fn base_dir(&self) -> String {
        self.base_dir
    }

    /// The base directory.
    pub fn base(&self) -> (r: &str)
        ensures
            r@ == self.base_dir()@,
    {
        self.base_dir.as_str()
    }

    /// The agents found: one per existing agent-specific guidance file, in
    /// location order (`locations` gives each file's path and whether it
    /// exists); then, from the master manifest (its path and text, when it
    /// exists and could be read), one per role its blocks address that is
    /// not the broadcast role and no agent has yet.
    pub fn scan(&self, locations: &Vec<(String, bool)>, master: Option<(&str, &str)>) -> (r: Vec<DiscoveredAgent>)
        requires
            locations@.len() <= agent_locations().len(),
        ensures
            agents_view(r@) == match master {
                Some((path, text)) => with_manifest_roles(
                    file_agents(location_facts(locations@)),
                    block_roles(spec_parse_blocks(text@)),
                    path@,
                ),
                None => file_agents(location_facts(locations@)),
            },
    {
        let names = agent_location_list();
        assert(agent_locations().len() == 3);
        assert(names@.len() == 3);
        let ghost lf = location_facts(locations@);
        let mut agents: Vec<DiscoveredAgent> = Vec::new();
        let mut i: usize = 0;
        while i < locations.len()
            invariant
                i <= locations@.len(),
                locations@.len() <= 3,
                lf == location_facts(locations@),
                names@.map_values(|p: (&str, &str)| (p.0@, p.1@)) == agent_locations(),
                names@.len() == 3,
                agents_view(agents@) == file_agents(lf.take(i as int)),
            decreases locations@.len() - i,
        {
            proof {
                assert(lf.take(i + 1).drop_last() == lf.take(i as int));
                assert(lf.take(i + 1).last() == (locations@[i as int].0@, locations@[i as int].1));
            }
            if locations[i].1 {
                let role = AgentRole::Custom(owned(names[i].1));
                proof {
                    assert(names@.map_values(|p: (&str, &str)| (p.0@, p.1@))[i as int] == (names@[i as int].0@, names@[i as int].1@));
                    assert(names@[i as int].1@ == agent_locations()[i as int].1);
                }
                let agent = DiscoveredAgent {
                    name: role.to_tag_string(),
                    guidance_path: copy_string(&locations[i].0),
                    inferred_role: role,
                };
                let ghost before = agents@;
                agents.push(agent);
                assert(agents_view(agents@) =~= agents_view(before).push(
                    AgentView { name: agent.name@, guidance_path: agent.guidance_path@, role: agent.inferred_role@ },
                ));
            }
            i += 1;
        }
        assert(lf.take(lf.len() as int) == lf);
        match master {
            Some((path, text)) => {
                let blocks = parse_blocks(text);
                let ghost roles = block_roles(spec_parse_blocks(text@));
                let ghost start = agents_view(agents@);
                let mut k: usize = 0;
                while k < blocks.len()
                    invariant
                        k <= blocks@.len(),
                        blocks_view(blocks@) == spec_parse_blocks(text@),
                        roles == block_roles(spec_parse_blocks(text@)),
                        agents_view(agents@) == with_manifest_roles(start, roles.take(k as int), path@),
                    decreases blocks@.len() - k,
                {
                    let role = &blocks[k].role;
                    proof {
                        assert(roles.take(k + 1).drop_last() == roles.take(k as int));
                        assert(blocks_view(blocks@)[k as int].role == role@);
                        assert(roles.take(k + 1).last() == role@);
                    }
                    if !role.is_all() {
                        let mut seen = false;
                        let mut j: usize = 0;
                        while j < agents.len()
                            invariant
                                j <= agents@.len(),
                                seen == exists|x: int| 0 <= x < j && agents_view(agents@)[x].role == role@,
                            decreases agents@.len() - j,
                        {
                            assert(agents_view(agents@)[j as int].role == agents@[j as int].inferred_role@);
                            if agents[j].inferred_role.same_as(role) {
                                seen = true;
                            }
                            j += 1;
                        }
                        if !seen {
                            let agent = DiscoveredAgent {
                                name: role.to_tag_string(),
                                guidance_path: owned(path),
                                inferred_role: role.duplicate(),
                            };
                            let ghost before = agents@;
                            agents.push(agent);
                            assert(agents_view(agents@) =~= agents_view(before).push(
                                AgentView { name: agent.name@, guidance_path: agent.guidance_path@, role: agent.inferred_role@ },
                            ));
                        }
                    }
                    k += 1;
                }
                assert(roles.take(roles.len() as int) == roles);
                assert(roles.len() == blocks@.len());
            },
            None => {},
        }
        agents
    }
}

/// Each location's path and whether it exists.
pub open spec fn location_facts(v: Seq<(String, bool)>) -> Seq<(Seq<char>, bool)> {
    v.map_values(|l: (String, bool)| (l.0@, l.1))
}

/// The roles of blocks, in order.
pub open spec fn block_roles(bs: Seq<BlockView>) -> Seq<RoleView> {
    bs.map_values(|b: BlockView| b.role)
}

} // verus!
