//! Command and tool policy engine for bounded-risk execution.
//!
//! A policy registers the tools an agent may run, denies some outright,
//! requires human approval for others, and blocks shell commands that
//! contain given patterns. Unknown tools are denied (fail closed).

use crate::text::{
    chars_of, concat_strings, contains_seq, owned, str_contains, str_eq, strings_view,
};
use vstd::prelude::*;

verus! {

broadcast use vstd::string::group_string_axioms;

/// Capability required to invoke a tool.
#[derive(Clone, Copy, Debug, PartialEq, Eq, Hash, Structural)]
pub enum Capability {
    /// Read files from the workspace
    ReadFile,
    /// Write or modify files
    WriteFile,
    /// Execute shell commands
    Shell,
    /// Network access
    Network,
    /// Git operations (commit, push)
    Git,
}

/// Policy decision for a tool invocation.
#[derive(Clone, Copy, Debug, PartialEq, Eq, Structural)]
pub enum PolicyDecision {
    /// Allow execution
    Allow,
    /// Deny execution
    Deny,
    /// Require human approval before execution
    RequireApproval,
}

/// Policy violation with diagnosable context.
#[derive(Clone, Debug, PartialEq, Eq)]
pub struct PolicyViolation {
    /// Tool name
    pub tool_name: String,
    /// Reason for denial
    pub reason: String,
    /// Required capability that was missing or blocked
    pub capability: Option<Capability>,
}

/// Mathematical value of a [`PolicyViolation`].
pub struct ViolationView {
    pub tool_name: Seq<char>,
    pub reason: Seq<char>,
    pub capability: Option<Capability>,
}

impl View for PolicyViolation {
    type V = ViolationView;

    open spec fn view(&self) -> ViolationView {
        ViolationView {
            tool_name: self.tool_name@,
            reason: self.reason@,
            capability: self.capability,
        }
    }
}

/// The name `{:?}` shows for a capability.
pub open spec fn capability_name(c: Capability) -> Seq<char> {
    match c {
        Capability::ReadFile => "ReadFile"@,
        Capability::WriteFile => "WriteFile"@,
        Capability::Shell => "Shell"@,
        Capability::Network => "Network"@,
        Capability::Git => "Git"@,
    }
}

/// Name of a capability, as its debug form shows it.
pub fn capability_label(c: Capability) -> (r: &'static str)
    ensures
        r@ == capability_name(c),
{
    match c {
        Capability::ReadFile => "ReadFile",
        Capability::WriteFile => "WriteFile",
        Capability::Shell => "Shell",
        Capability::Network => "Network",
        Capability::Git => "Git",
    }
}

/// The text of a violation message.
pub open spec fn violation_message(v: ViolationView) -> Seq<char> {
    match v.capability {
        Some(cap) => "Policy denied tool '"@ + v.tool_name + "': "@ + v.reason
            + " (capability: "@ + capability_name(cap) + ")"@,
        None => "Policy denied tool '"@ + v.tool_name + "': "@ + v.reason,
    }
}

impl PolicyViolation {
    /// Format for logs and agent messages.
    pub fn message(&self) -> (r: String)
        ensures
            r@ == violation_message(self@),
    {
        let a = concat_strings("Policy denied tool '", self.tool_name.as_str());
        let b = concat_strings(a.as_str(), "': ");
        let c = concat_strings(b.as_str(), self.reason.as_str());
        match self.capability {
            Some(cap) => {
                let d = concat_strings(c.as_str(), " (capability: ");
                let e = concat_strings(d.as_str(), capability_label(cap));
                concat_strings(e.as_str(), ")")
            },
            None => c,
        }
    }
}

/// Per-tool execution policy.
#[derive(Clone, Debug)]
pub struct ToolExecutionPolicy {
    /// Capabilities granted to tools by name; a later entry for a name
    /// replaces an earlier one (default: empty = deny unknown).
    pub tool_capabilities: Vec<(String, Vec<Capability>)>,
    /// Tool names explicitly denied
    pub denied_tools: Vec<String>,
    /// Tool names requiring human approval
    pub approval_required: Vec<String>,
    /// Commands or substrings blocked for shell tools
    pub blocked_patterns: Vec<String>,
}

/// Mathematical value of a [`ToolExecutionPolicy`].
pub struct PolicyView {
    pub capabilities: Map<Seq<char>, Seq<Capability>>,
    pub denied: Set<Seq<char>>,
    pub approval: Set<Seq<char>>,
    pub blocked: Seq<Seq<char>>,
}

/// The capability table as a map; later entries replace earlier ones.
pub open spec fn caps_map(v: Seq<(String, Vec<Capability>)>) -> Map<Seq<char>, Seq<Capability>>
    decreases v.len(),
{
    if v.len() == 0 {
        Map::empty()
    } else {
        caps_map(v.drop_last()).insert(v.last().0@, v.last().1@)
    }
}

/// The set of names in a list of strings.
pub open spec fn name_set(v: Seq<String>) -> Set<Seq<char>> {
    strings_view(v).to_set()
}

impl View for ToolExecutionPolicy {
    type V = PolicyView;

    open spec fn view(&self) -> PolicyView {
        PolicyView {
            capabilities: caps_map(self.tool_capabilities@),
            denied: name_set(self.denied_tools@),
            approval: name_set(self.approval_required@),
            blocked: strings_view(self.blocked_patterns@),
        }
    }
}

impl Default for ToolExecutionPolicy {
    /// The empty policy: every tool is unknown and therefore denied.
    fn default() -> (r: Self)
        ensures
            r@.capabilities == Map::<Seq<char>, Seq<Capability>>::empty(),
            r@.denied == Set::<Seq<char>>::empty(),
            r@.approval == Set::<Seq<char>>::empty(),
            r@.blocked == Seq::<Seq<char>>::empty(),
    {
        let r = ToolExecutionPolicy {
            tool_capabilities: Vec::new(),
            denied_tools: Vec::new(),
            approval_required: Vec::new(),
            blocked_patterns: Vec::new(),
        };
        assert(name_set(r.denied_tools@) =~= Set::empty());
        assert(name_set(r.approval_required@) =~= Set::empty());
        assert(strings_view(r.blocked_patterns@) =~= Seq::empty());
        r
    }
}

proof fn lemma_name_set_push(v: Seq<String>, s: String)
    ensures
        name_set(v.push(s)) == name_set(v).insert(s@),
{
    assert(strings_view(v.push(s)) == strings_view(v).push(s@));
    strings_view(v).lemma_push_to_set_commute(s@);
    assert(strings_view(v.push(s)).to_set() =~= strings_view(v).to_set().insert(s@));
}

/// Whether `name` is in a list of strings.
fn names_contain(v: &Vec<String>, name: &str) -> (r: bool)
    ensures
        r == name_set(v@).contains(name@),
{
    let mut i: usize = 0;
    while i < v.len()
        invariant
            i <= v@.len(),
            forall|k: int| 0 <= k < i ==> v@[k]@ != name@,
        decreases v@.len() - i,
    {
        if str_eq(v[i].as_str(), name) {
            assert(strings_view(v@)[i as int] == name@);
            return true;
        }
        i += 1;
    }
    assert(!strings_view(v@).contains(name@));
    false
}

/// Whether the capability table has an entry for `name`.
fn caps_contain(v: &Vec<(String, Vec<Capability>)>, name: &str) -> (r: bool)
    ensures
        r == caps_map(v@).contains_key(name@),
{
    let mut i: usize = 0;
    while i < v.len()
        invariant
            i <= v@.len(),
            caps_map(v@.take(i as int)).contains_key(name@) == exists|k: int|
                0 <= k < i && (#[trigger] v@[k]).0@ == name@,
            forall|k: int| 0 <= k < i ==> (#[trigger] v@[k]).0@ != name@,
        decreases v@.len() - i,
    {
        proof {
            assert(v@.take(i + 1).drop_last() == v@.take(i as int));
        }
        if str_eq(v[i].0.as_str(), name) {
            assert(v@.take(i + 1).last() == v@[i as int]);
            assert(v@.take(v@.len() as int) == v@);
            proof {
                lemma_caps_keep_key(v@, (i + 1) as nat, name@);
            }
            return true;
        }
        i += 1;
    }
    assert(v@.take(v@.len() as int) == v@);
    false
}

proof fn lemma_caps_keep_key(v: Seq<(String, Vec<Capability>)>, k: nat, name: Seq<char>)
    requires
        k <= v.len(),
        caps_map(v.take(k as int)).contains_key(name),
    ensures
        caps_map(v).contains_key(name),
    decreases v.len() - k,
{
    if k < v.len() {
        assert(v.take(k as int + 1).drop_last() == v.take(k as int));
        lemma_caps_keep_key(v, k + 1, name);
    } else {
        assert(v.take(k as int) == v);
    }
}

impl ToolExecutionPolicy {
    /// Permissive policy for tests and local development: `shell` is
    /// registered and `rm -rf /` / `sudo ` commands are blocked.
    pub fn permissive() -> (r: Self)
        ensures
            r@.capabilities == Map::<Seq<char>, Seq<Capability>>::empty().insert(
                "shell"@,
                seq![Capability::Shell],
            ),
            r@.denied == Set::<Seq<char>>::empty(),
            r@.approval == Set::<Seq<char>>::empty(),
            r@.blocked == seq!["rm -rf /"@, "sudo "@],
    {
        let caps = vec![Capability::Shell];
        assert(caps@ =~= seq![Capability::Shell]);
        let r = ToolExecutionPolicy::default().allow_tool("shell", caps);
        let mut blocked: Vec<String> = Vec::new();
        blocked.push(owned("rm -rf /"));
        blocked.push(owned("sudo "));
        assert(strings_view(blocked@) =~= seq!["rm -rf /"@, "sudo "@]);
        ToolExecutionPolicy { blocked_patterns: blocked, ..r }
    }

    /// Register capabilities for a tool, replacing earlier ones.
    pub fn allow_tool(self, name: &str, caps: Vec<Capability>) -> (r: Self)
        ensures
            r@.capabilities == self@.capabilities.insert(name@, caps@),
            r@.denied == self@.denied,
            r@.approval == self@.approval,
            r@.blocked == self@.blocked,
    {
        let mut s = self;
        let ghost before = s.tool_capabilities@;
        s.tool_capabilities.push((owned(name), caps));
        assert(s.tool_capabilities@.drop_last() == before);
        s
    }

    /// Deny a tool by name.
    pub fn deny_tool(self, name: &str) -> (r: Self)
        ensures
            r@.capabilities == self@.capabilities,
            r@.denied == self@.denied.insert(name@),
            r@.approval == self@.approval,
            r@.blocked == self@.blocked,
    {
        let mut s = self;
        let ghost before = s.denied_tools@;
        let n = owned(name);
        proof {
            lemma_name_set_push(before, n);
        }
        s.denied_tools.push(n);
        s
    }

    /// Require approval for a tool.
    pub fn require_approval(self, name: &str) -> (r: Self)
        ensures
            r@.capabilities == self@.capabilities,
            r@.denied == self@.denied,
            r@.approval == self@.approval.insert(name@),
            r@.blocked == self@.blocked,
    {
        let mut s = self;
        let ghost before = s.approval_required@;
        let n = owned(name);
        proof {
            lemma_name_set_push(before, n);
        }
        s.approval_required.push(n);
        s
    }
}

/// Index of the first blocked pattern at or after `i` that `cmd` contains.
pub open spec fn first_blocked_from(pats: Seq<Seq<char>>, cmd: Seq<char>, i: int) -> Option<int>
    decreases pats.len() - i,
{
    if i < 0 || i >= pats.len() {
        None
    } else if contains_seq(cmd, pats[i]) {
        Some(i)
    } else {
        first_blocked_from(pats, cmd, i + 1)
    }
}

/// Outcome of evaluating a tool call against a policy.
pub open spec fn spec_evaluate(p: PolicyView, tool: Seq<char>, hint: Option<Seq<char>>) -> Result<
    PolicyDecision,
    ViolationView,
> {
    if p.denied.contains(tool) {
        Ok(PolicyDecision::Deny)
    } else if p.approval.contains(tool) {
        Ok(PolicyDecision::RequireApproval)
    } else if hint is Some && first_blocked_from(p.blocked, hint->0, 0) is Some {
        let pat = p.blocked[first_blocked_from(p.blocked, hint->0, 0)->0];
        Err(
            ViolationView {
                tool_name: tool,
                reason: "command matches blocked pattern '"@ + pat + "'"@,
                capability: Some(Capability::Shell),
            },
        )
    } else if p.capabilities.contains_key(tool) {
        Ok(PolicyDecision::Allow)
    } else {
        Err(
            ViolationView {
                tool_name: tool,
                reason: "tool not registered in policy (fail closed)"@,
                capability: None,
            },
        )
    }
}

/// Evaluates tool calls against execution policy.
#[derive(Clone, Debug)]
pub struct ToolPolicyEngine {
    pub policy: ToolExecutionPolicy,
}

impl Default for ToolPolicyEngine {
    /// An engine over the empty policy.
    fn default() -> (r: Self)
        ensures
            r.policy@.capabilities == Map::<Seq<char>, Seq<Capability>>::empty(),
            r.policy@.denied == Set::<Seq<char>>::empty(),
            r.policy@.approval == Set::<Seq<char>>::empty(),
            r.policy@.blocked == Seq::<Seq<char>>::empty(),
    {
        ToolPolicyEngine { policy: ToolExecutionPolicy::default() }
    }
}

impl ToolPolicyEngine {
    /// Create an engine with the given policy.
    pub fn new(policy: ToolExecutionPolicy) -> (r: Self)
        ensures
            r.policy@ == policy@,
    {
        ToolPolicyEngine { policy }
    }

    /// Evaluate whether a tool may run: denial first, then approval, then
    /// the command's blocked patterns, then registration (fail closed).
    pub fn evaluate(&self, tool_name: &str, command_hint: Option<&str>) -> (r: Result<
        PolicyDecision,
        PolicyViolation,
    >)
        ensures
            r matches Ok(d) ==> spec_evaluate(
                self.policy@,
                tool_name@,
                match command_hint {
                    Some(h) => Some(h@),
                    None => None,
                },
            ) == Ok::<PolicyDecision, ViolationView>(d),
            r matches Err(v) ==> spec_evaluate(
                self.policy@,
                tool_name@,
                match command_hint {
                    Some(h) => Some(h@),
                    None => None,
                },
            ) == Err::<PolicyDecision, ViolationView>(v@),
            r matches Ok(PolicyDecision::Allow) ==> (command_hint matches Some(h) ==> forall|k: int|
                0 <= k < self.policy@.blocked.len() ==> !contains_seq(h@, #[trigger] self.policy@.blocked[k])),
            command_hint matches Some(h) ==> (!self.policy@.denied.contains(tool_name@)
                && !self.policy@.approval.contains(tool_name@) && (exists|k: int|
                0 <= k < self.policy@.blocked.len() && contains_seq(h@, #[trigger] self.policy@.blocked[k]))
                ==> (r matches Err(v) && v.capability == Some(Capability::Shell))),
    {
        proof {
            if let Some(h) = command_hint {
                lemma_first_blocked(self.policy@.blocked, h@, 0);
            }
        }
        let ghost hint = match command_hint {
            Some(h) => Some(h@),
            None => None::<Seq<char>>,
        };
        if names_contain(&self.policy.denied_tools, tool_name) {
            return Ok(PolicyDecision::Deny);
        }
        if names_contain(&self.policy.approval_required, tool_name) {
            return Ok(PolicyDecision::RequireApproval);
        }
        match command_hint {
            Some(cmd) => {
                let pats = &self.policy.blocked_patterns;
                let ghost pv = strings_view(pats@);
                let mut i: usize = 0;
                while i < pats.len()
                    invariant
                        i <= pats@.len(),
                        pv == strings_view(pats@),
                        pats == &self.policy.blocked_patterns,
                        hint == Some(cmd@),
                        command_hint == Some(cmd),
                        !self.policy@.denied.contains(tool_name@),
                        !self.policy@.approval.contains(tool_name@),
                        first_blocked_from(pv, cmd@, 0) == first_blocked_from(pv, cmd@, i as int),
                    decreases pats@.len() - i,
                {
                    if str_contains(cmd, pats[i].as_str()) {
                        assert(pv[i as int] == pats@[i as int]@);
                        assert(first_blocked_from(pv, cmd@, i as int) == Some(i as int));
                        assert(hint == Some(cmd@));
                        let a = concat_strings("command matches blocked pattern '", pats[i].as_str());
                        let reason = concat_strings(a.as_str(), "'");
                        return Err(
                            PolicyViolation {
                                tool_name: owned(tool_name),
                                reason,
                                capability: Some(Capability::Shell),
                            },
                        );
                    }
                    assert(pv[i as int] == pats@[i as int]@);
                    i += 1;
                }
            },
            None => {},
        }
        if caps_contain(&self.policy.tool_capabilities, tool_name) {
            return Ok(PolicyDecision::Allow);
        }
        Err(
            PolicyViolation {
                tool_name: owned(tool_name),
                reason: owned("tool not registered in policy (fail closed)"),
                capability: None,
            },
        )
    }
}

/// A tool that is not registered is never allowed, whatever command
/// accompanies it (fail closed): it is denied, sent for approval, or
/// refused with a violation, and refused outright when it is neither
/// denied nor approval-gated.
pub proof fn lemma_unknown_tools_fail_closed(
    p: PolicyView,
    tool: Seq<char>,
    hint: Option<Seq<char>>,
)
    requires
        !p.capabilities.contains_key(tool),
    ensures
        spec_evaluate(p, tool, hint) != Ok::<PolicyDecision, ViolationView>(PolicyDecision::Allow),
        !p.denied.contains(tool) && !p.approval.contains(tool) ==> spec_evaluate(p, tool, hint) is Err,
{
}

/// An explicit denial wins over every other rule: approval gating,
/// blocked patterns and registration.
pub proof fn lemma_denial_wins(p: PolicyView, tool: Seq<char>, hint: Option<Seq<char>>)
    requires
        p.denied.contains(tool),
    ensures
        spec_evaluate(p, tool, hint) == Ok::<PolicyDecision, ViolationView>(PolicyDecision::Deny),
{
}


/// What `first_blocked_from` finds: the first pattern from `i` on that the
/// command contains, or none when it contains none of them.
proof fn lemma_first_blocked(pats: Seq<Seq<char>>, cmd: Seq<char>, i: int)
    requires
        0 <= i <= pats.len(),
    ensures
        match first_blocked_from(pats, cmd, i) {
            Some(j) => i <= j < pats.len() && contains_seq(cmd, pats[j]) && forall|k: int|
                i <= k < j ==> !contains_seq(cmd, #[trigger] pats[k]),
            None => forall|k: int| i <= k < pats.len() ==> !contains_seq(cmd, #[trigger] pats[k]),
        },
    decreases pats.len() - i,
{
    if i < pats.len() {
        lemma_first_blocked(pats, cmd, i + 1);
    }
}

/// A command that contains any blocked pattern is refused for a tool that
/// is neither denied nor approval-gated, registered or not: the violation
/// names the first blocked pattern the command contains, at or before the
/// one given, and the shell capability.
pub proof fn lemma_blocked_commands_refused(p: PolicyView, tool: Seq<char>, cmd: Seq<char>, k: int)
    requires
        !p.denied.contains(tool),
        !p.approval.contains(tool),
        0 <= k < p.blocked.len(),
        contains_seq(cmd, p.blocked[k]),
    ensures
        spec_evaluate(p, tool, Some(cmd)) matches Err(v) && v.capability == Some(Capability::Shell)
            && v.tool_name == tool && exists|j: int|
            0 <= j <= k && contains_seq(cmd, #[trigger] p.blocked[j]) && (forall|m: int|
                0 <= m < j ==> !contains_seq(cmd, #[trigger] p.blocked[m])) && v.reason
                == "command matches blocked pattern '"@ + p.blocked[j] + "'"@,
{
    lemma_first_blocked(p.blocked, cmd, 0);
    let j = first_blocked_from(p.blocked, cmd, 0)->0;
    assert(contains_seq(cmd, p.blocked[j]));
}

/// An allowed call's command contains no blocked pattern.
pub proof fn lemma_allowed_commands_match_no_pattern(p: PolicyView, tool: Seq<char>, cmd: Seq<char>)
    requires
        spec_evaluate(p, tool, Some(cmd)) == Ok::<PolicyDecision, ViolationView>(PolicyDecision::Allow),
    ensures
        forall|k: int| 0 <= k < p.blocked.len() ==> !contains_seq(cmd, #[trigger] p.blocked[k]),
        p.capabilities.contains_key(tool),
        !p.denied.contains(tool),
        !p.approval.contains(tool),
{
    lemma_first_blocked(p.blocked, cmd, 0);
}

} // verus!
