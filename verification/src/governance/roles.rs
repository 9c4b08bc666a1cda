//! Agent roles for governance tag routing.
//!
//! A manifest scopes guidance with inline tags such as `<@all>`,
//! `<@architect>` or `<@builder>`. The four canonical roles (`Architect`,
//! `Builder`, `Auditor`, `Human`) and the broadcast `All` are variants of
//! [`AgentRole`]; any other well-formed tag is kept verbatim as `Custom`.

use crate::text::{
    ascii_lower_chars, chars_eq, str_eq, chars_of, concat_strings, ends_with_chars, has_prefix, has_suffix,
    is_ws, lower_seq, owned, starts_with_chars, string_of, sub_chars, trim, trim_chars,
};
use vstd::prelude::*;

verus! {

broadcast use vstd::string::group_string_axioms;

/// A governance-scoped agent role parsed from an `<@role>` tag.
#[derive(Debug, Clone, PartialEq, Eq, Hash)]
pub enum AgentRole {
    /// `<@all>`: guidance applies to every agent role.
    All,
    /// `<@architect>`: design, planning and API-shape decisions.
    Architect,
    /// `<@builder>`: implementation, refactors and bug fixes.
    Builder,
    /// `<@auditor>`: review, verification and quality gates.
    Auditor,
    /// `<@human>`: addressed to the human in the loop.
    Human,
    /// Any other tag, as its lowercase body without `<@` / `>`.
    Custom(String),
}

/// Mathematical value of an [`AgentRole`].
pub enum RoleView {
    All,
    Architect,
    Builder,
    Auditor,
    Human,
    Custom(Seq<char>),
}

impl View for AgentRole {
    type V = RoleView;

    open spec fn view(&self) -> RoleView {
        match self {
            AgentRole::All => RoleView::All,
            AgentRole::Architect => RoleView::Architect,
            AgentRole::Builder => RoleView::Builder,
            AgentRole::Auditor => RoleView::Auditor,
            AgentRole::Human => RoleView::Human,
            AgentRole::Custom(s) => RoleView::Custom(s@),
        }
    }
}

/// Canonical lowercase tag name of a role, without `<@` / `>`.
pub open spec fn tag_of(r: RoleView) -> Seq<char> {
    match r {
        RoleView::All => "all"@,
        RoleView::Architect => "architect"@,
        RoleView::Builder => "builder"@,
        RoleView::Auditor => "auditor"@,
        RoleView::Human => "human"@,
        RoleView::Custom(s) => s,
    }
}

/// The role named by a lowercase tag body.
pub open spec fn role_of_tag(t: Seq<char>) -> RoleView {
    if t == "all"@ {
        RoleView::All
    } else if t == "architect"@ {
        RoleView::Architect
    } else if t == "builder"@ {
        RoleView::Builder
    } else if t == "auditor"@ {
        RoleView::Auditor
    } else if t == "human"@ {
        RoleView::Human
    } else {
        RoleView::Custom(t)
    }
}

/// A character allowed in a tag body: `[a-z0-9_-]`.
pub open spec fn is_tag_char(c: char) -> bool {
    ('a' <= c <= 'z') || ('0' <= c <= '9') || c == '_' || c == '-'
}

/// Every character of `t` is allowed in a tag body.
pub open spec fn all_tag_chars(t: Seq<char>) -> bool {
    forall|i: int| 0 <= i < t.len() ==> is_tag_char(#[trigger] t[i])
}

/// Error returned when a tag string can't be coerced into an [`AgentRole`].
#[derive(Debug, Clone, PartialEq, Eq)]
pub enum RoleParseError {
    /// The input was empty or contained only whitespace.
    Empty,
    /// The input held characters outside `[a-z0-9_-]` after lowercasing.
    InvalidCharacter(String),
}

/// Mathematical value of a [`RoleParseError`].
pub enum RoleParseErrorView {
    Empty,
    InvalidCharacter(Seq<char>),
}

impl View for RoleParseError {
    type V = RoleParseErrorView;

    open spec fn view(&self) -> RoleParseErrorView {
        match self {
            RoleParseError::Empty => RoleParseErrorView::Empty,
            RoleParseError::InvalidCharacter(s) => RoleParseErrorView::InvalidCharacter(s@),
        }
    }
}

impl RoleParseError {
    /// Human-readable message for the error.
    pub fn message(&self) -> (r: String)
        ensures
            self@ is Empty ==> r@ == "agent role tag is empty"@,
            self@ matches RoleParseErrorView::InvalidCharacter(t) ==> r@ == "agent role tag '"@
                + t + "' contains invalid characters (allowed: a-z, 0-9, _, -)"@,
    {
        match self {
            RoleParseError::Empty => owned("agent role tag is empty"),
            RoleParseError::InvalidCharacter(t) => {
                let a = concat_strings("agent role tag '", t.as_str());
                concat_strings(
                    a.as_str(),
                    "' contains invalid characters (allowed: a-z, 0-9, _, -)",
                )
            },
        }
    }
}

/// Result of parsing an undecorated tag body.
pub open spec fn spec_from_inner(s: Seq<char>) -> Result<RoleView, RoleParseErrorView> {
    let t = trim(s);
    if t.len() == 0 {
        Err(RoleParseErrorView::Empty)
    } else if all_tag_chars(lower_seq(t)) {
        Ok(role_of_tag(lower_seq(t)))
    } else {
        Err(RoleParseErrorView::InvalidCharacter(lower_seq(t)))
    }
}

/// The tag body left after stripping one layer of `<@...>` or `@` decoration
/// from an already trimmed input.
pub open spec fn undecorate(t: Seq<char>) -> Seq<char> {
    if has_prefix(t, "<@"@) && has_suffix(t.subrange(2, t.len() as int), ">"@) {
        t.subrange(2, t.len() - 1)
    } else if has_prefix(t, "@"@) {
        t.subrange(1, t.len() as int)
    } else {
        t
    }
}

/// Result of parsing a possibly decorated tag (`<@builder>`, `@builder`,
/// `builder`), case-insensitively.
pub open spec fn spec_parse_role(s: Seq<char>) -> Result<RoleView, RoleParseErrorView> {
    let t = trim(s);
    if t.len() == 0 {
        Err(RoleParseErrorView::Empty)
    } else {
        spec_from_inner(undecorate(t))
    }
}

/// The `<@tag>` rendering of a role.
pub open spec fn rendered(r: RoleView) -> Seq<char> {
    "<@"@ + tag_of(r) + ">"@
}

/// Whether a listener with role `listener` receives guidance addressed to
/// `target`.
pub open spec fn spec_receives(listener: RoleView, target: RoleView) -> bool {
    target == RoleView::All || listener == target
}

/// Whether `c` may appear in a lowercased tag body.
fn tag_char(c: char) -> (r: bool)
    ensures
        r == is_tag_char(c),
{
    ('a' <= c && c <= 'z') || ('0' <= c && c <= '9') || c == '_' || c == '-'
}

impl AgentRole {
    /// Canonical lowercase tag name for this role, without `<@` / `>`.
    pub fn as_tag(&self) -> (r: &str)
        ensures
            r@ == tag_of(self@),
    {
        match self {
            AgentRole::All => "all",
            AgentRole::Architect => "architect",
            AgentRole::Builder => "builder",
            AgentRole::Auditor => "auditor",
            AgentRole::Human => "human",
            AgentRole::Custom(s) => s.as_str(),
        }
    }

    /// True if `self` should receive guidance addressed to `target`:
    /// `All` as the target reaches every role, but a concrete target only
    /// reaches that same role.
    pub fn receives(&self, target: &AgentRole) -> (r: bool)
        ensures
            r == spec_receives(self@, target@),
    {
        match target {
            AgentRole::All => true,
            _ => self.same_as(target),
        }
    }

    /// Role equality.
    pub fn same_as(&self, other: &AgentRole) -> (r: bool)
        ensures
            r == (self@ == other@),
    {
        match self {
            AgentRole::All => other.is_all(),
            AgentRole::Architect => match other {
                AgentRole::Architect => true,
                _ => false,
            },
            AgentRole::Builder => match other {
                AgentRole::Builder => true,
                _ => false,
            },
            AgentRole::Auditor => match other {
                AgentRole::Auditor => true,
                _ => false,
            },
            AgentRole::Human => match other {
                AgentRole::Human => true,
                _ => false,
            },
            AgentRole::Custom(a) => match other {
                AgentRole::Custom(b) => {
                    str_eq(a.as_str(), b.as_str())
                },
                _ => false,
            },
        }
    }

    /// Whether this is the broadcast role.
    pub fn is_all(&self) -> (r: bool)
        ensures
            r == (self@ == RoleView::All),
    {
        match self {
            AgentRole::All => true,
            _ => false,
        }
    }

    /// A copy of this role.
    pub fn duplicate(&self) -> (r: AgentRole)
        ensures
            r@ == self@,
    {
        match self {
            AgentRole::All => AgentRole::All,
            AgentRole::Architect => AgentRole::Architect,
            AgentRole::Builder => AgentRole::Builder,
            AgentRole::Auditor => AgentRole::Auditor,
            AgentRole::Human => AgentRole::Human,
            AgentRole::Custom(s) => AgentRole::Custom(s.clone()),
        }
    }

    /// The `<@tag>` form of this role, the text its display shows.
    pub fn to_tag_string(&self) -> (r: String)
        ensures
            r@ == rendered(self@),
    {
        let a = concat_strings("<@", self.as_tag());
        concat_strings(a.as_str(), ">")
    }

    /// The role named by a lowercase tag body.
    fn from_tag_chars(l: Vec<char>) -> (r: AgentRole)
        ensures
            r@ == role_of_tag(l@),
    {
        if chars_eq(l.as_slice(), chars_of("all").as_slice()) {
            AgentRole::All
        } else if chars_eq(l.as_slice(), chars_of("architect").as_slice()) {
            AgentRole::Architect
        } else if chars_eq(l.as_slice(), chars_of("builder").as_slice()) {
            AgentRole::Builder
        } else if chars_eq(l.as_slice(), chars_of("auditor").as_slice()) {
            AgentRole::Auditor
        } else if chars_eq(l.as_slice(), chars_of("human").as_slice()) {
            AgentRole::Human
        } else {
            AgentRole::Custom(string_of(l.as_slice()))
        }
    }

    /// Parses the characters of an undecorated tag body.
    pub fn from_inner_chars(s: &[char]) -> (r: Result<AgentRole, RoleParseError>)
        ensures
            r matches Ok(role) ==> spec_from_inner(s@) == Ok::<RoleView, RoleParseErrorView>(
                role@,
            ),
            r matches Err(e) ==> spec_from_inner(s@) == Err::<RoleView, RoleParseErrorView>(
                e@,
            ),
    {
        let t = trim_chars(s);
        if t.len() == 0 {
            return Err(RoleParseError::Empty);
        }
        let l = ascii_lower_chars(t.as_slice());
        let mut i: usize = 0;
        while i < l.len()
            invariant
                i <= l@.len(),
                l@ == lower_seq(trim(s@)),
                trim(s@).len() > 0,
                forall|k: int| 0 <= k < i ==> is_tag_char(#[trigger] l@[k]),
            decreases l@.len() - i,
        {
            if !tag_char(l[i]) {
                assert(!is_tag_char(l@[i as int]));
                assert(!all_tag_chars(l@));
                let bad = string_of(l.as_slice());
                return Err(RoleParseError::InvalidCharacter(bad));
            }
            i += 1;
        }
        Ok(AgentRole::from_tag_chars(l))
    }

    /// Parses an *undecorated* tag body (`"builder"`, `"codex"`); any
    /// remaining `<@` / `@` / `>` decoration is invalid input.
    pub fn from_inner(s: &str) -> (r: Result<AgentRole, RoleParseError>)
        ensures
            r matches Ok(role) ==> spec_from_inner(s@) == Ok::<RoleView, RoleParseErrorView>(
                role@,
            ),
            r matches Err(e) ==> spec_from_inner(s@) == Err::<RoleView, RoleParseErrorView>(
                e@,
            ),
    {
        let v = chars_of(s);
        AgentRole::from_inner_chars(v.as_slice())
    }

    /// Parses a tag from its raw form: the inner name (`builder`) or the
    /// decorated form (`<@builder>` / `@builder`), case-insensitively.
    pub fn parse_role(s: &str) -> (r: Result<AgentRole, RoleParseError>)
        ensures
            r matches Ok(role) ==> spec_parse_role(s@) == Ok::<RoleView, RoleParseErrorView>(
                role@,
            ),
            r matches Err(e) ==> spec_parse_role(s@) == Err::<RoleView, RoleParseErrorView>(
                e@,
            ),
    {
        let v = chars_of(s);
        let t = trim_chars(v.as_slice());
        if t.len() == 0 {
            return Err(RoleParseError::Empty);
        }
        let lt = chars_of("<@");
        let gt = chars_of(">");
        let at = chars_of("@");
        proof {
            reveal_strlit("<@");
            reveal_strlit(">");
            reveal_strlit("@");
        }
        let n = t.len();
        let inner: Vec<char> = if starts_with_chars(t.as_slice(), lt.as_slice()) {
            let rest = sub_chars(t.as_slice(), 2, n);
            if ends_with_chars(rest.as_slice(), gt.as_slice()) {
                sub_chars(t.as_slice(), 2, n - 1)
            } else if starts_with_chars(t.as_slice(), at.as_slice()) {
                sub_chars(t.as_slice(), 1, n)
            } else {
                t
            }
        } else if starts_with_chars(t.as_slice(), at.as_slice()) {
            sub_chars(t.as_slice(), 1, n)
        } else {
            t
        };
        AgentRole::from_inner_chars(inner.as_slice())
    }
}

impl std::str::FromStr for AgentRole {
    type Err = RoleParseError;

    fn from_str(s: &str) -> Result<Self, Self::Err> {
        AgentRole::parse_role(s)
    }
}

/// A role whose rendering parses back to itself: canonical roles, and
/// custom tags that are valid, lowercase and not a canonical name.
pub open spec fn round_trips(r: RoleView) -> bool {
    match r {
        RoleView::Custom(t) => t.len() > 0 && all_tag_chars(t) && role_of_tag(t) == r,
        _ => true,
    }
}

proof fn lemma_lower_tag_chars(t: Seq<char>)
    requires
        all_tag_chars(t),
    ensures
        lower_seq(t) == t,
{
    assert(lower_seq(t) =~= t);
}

proof fn lemma_trim_fixed(t: Seq<char>)
    requires
        t.len() > 0,
        !is_ws(t[0]),
        !is_ws(t.last()),
    ensures
        trim(t) == t,
{
}

/// Rendering a role as `<@tag>` and parsing it back gives the same role.
pub proof fn lemma_render_parse_round_trip(r: RoleView)
    requires
        round_trips(r),
    ensures
        spec_parse_role(rendered(r)) == Ok::<RoleView, RoleParseErrorView>(r),
{
    reveal_strlit("<@");
    reveal_strlit(">");
    reveal_strlit("@");
    reveal_strlit("all");
    reveal_strlit("architect");
    reveal_strlit("builder");
    reveal_strlit("auditor");
    reveal_strlit("human");
    let s = rendered(r);
    let tag = tag_of(r);
    assert(all_tag_chars(tag));
    assert(tag.len() > 0);
    assert(s[0] == '<');
    assert(s.last() == '>');
    lemma_trim_fixed(s);
    assert(has_prefix(s, "<@"@)) by {
        assert(s.subrange(0, 2) =~= "<@"@);
    }
    let rest = s.subrange(2, s.len() as int);
    assert(has_suffix(rest, ">"@)) by {
        assert(rest.subrange(rest.len() - 1, rest.len() as int) =~= ">"@);
    }
    assert(undecorate(s) =~= tag);
    assert(!is_ws(tag[0]));
    assert(!is_ws(tag.last()));
    lemma_trim_fixed(tag);
    lemma_lower_tag_chars(tag);
}

} // verus!
