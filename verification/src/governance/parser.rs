//! Tag-block parser for `AGENTS.md`-style governance manifests.
//!
//! A line that holds only a role tag (`<@all>`, `<@builder>`, ...) and
//! optional surrounding whitespace opens a block; the block's body runs from
//! the next line up to the next tag line or the end of input. Lines before
//! the first tag belong to no block and are dropped. A tag mentioned inside
//! prose, or a malformed tag such as `<@ >`, is body text.

use crate::governance::roles::{spec_from_inner, AgentRole, RoleView};
use crate::text::{
    chars_of, chars_of_string, concat_chars, ends_with_chars, has_prefix, has_suffix, lines,
    split_lines, starts_with_chars, string_of, sub_chars, trim, trim_chars,
};
use vstd::prelude::*;

verus! {

broadcast use vstd::string::group_string_axioms;

/// One contiguous region of a manifest scoped to a single role.
#[derive(Debug, Clone, PartialEq, Eq)]
pub struct TaggedBlock {
    /// The role this block is scoped to.
    pub role: AgentRole,
    /// 1-indexed line in the source where the opening `<@tag>` lives.
    pub tag_line: usize,
    /// Lines belonging to this block (between this tag and the next),
    /// separated by newlines.
    pub content: String,
}

/// Mathematical value of a [`TaggedBlock`].
pub struct BlockView {
    pub role: RoleView,
    pub tag_line: nat,
    pub content: Seq<char>,
}

impl View for TaggedBlock {
    type V = BlockView;

    open spec fn view(&self) -> BlockView {
        BlockView { role: self.role@, tag_line: self.tag_line as nat, content: self.content@ }
    }
}

/// The views of a sequence of blocks.
pub open spec fn blocks_view(bs: Seq<TaggedBlock>) -> Seq<BlockView> {
    bs.map_values(|b: TaggedBlock| b@)
}

/// The role a line opens a block for, if the line is exactly a tag.
pub open spec fn spec_tag_line(line: Seq<char>) -> Option<RoleView> {
    let t = trim(line);
    if has_prefix(t, "<@"@) && has_suffix(t, ">"@) && t.len() >= 3 {
        match spec_from_inner(t.subrange(2, t.len() - 1)) {
            Ok(r) => Some(r),
            Err(_) => None,
        }
    } else {
        None
    }
}

/// Parser state after a prefix of the lines: the closed blocks, the open
/// one, and how many body lines the open one has.
pub struct ParseState {
    pub closed: Seq<BlockView>,
    pub open: Option<BlockView>,
    pub open_lines: nat,
}

/// Lines joined with newlines between them.
pub open spec fn join_lines(ls: Seq<Seq<char>>) -> Seq<char>
    decreases ls.len(),
{
    if ls.len() == 0 {
        Seq::empty()
    } else if ls.len() == 1 {
        ls[0]
    } else {
        join_lines(ls.drop_last()) + seq!['\n'] + ls.last()
    }
}

/// `content`, holding `count` body lines, extended with one more: the first
/// line starts the content, every later one follows a newline, so blank
/// lines are kept.
pub open spec fn append_line(content: Seq<char>, count: nat, line: Seq<char>) -> Seq<char> {
    if count == 0 {
        line
    } else {
        content + seq!['\n'] + line
    }
}

/// One parser step on the line numbered `line_no`.
pub open spec fn parse_step(st: ParseState, line: Seq<char>, line_no: nat) -> ParseState {
    match spec_tag_line(line) {
        Some(role) => ParseState {
            closed: match st.open {
                Some(b) => st.closed.push(b),
                None => st.closed,
            },
            open: Some(BlockView { role, tag_line: line_no, content: Seq::empty() }),
            open_lines: 0,
        },
        None => match st.open {
            Some(b) => ParseState {
                closed: st.closed,
                open: Some(BlockView { content: append_line(b.content, st.open_lines, line), ..b }),
                open_lines: st.open_lines + 1,
            },
            None => st,
        },
    }
}

/// Parser state after the first `k` lines.
pub open spec fn parse_state(ls: Seq<Seq<char>>, k: nat) -> ParseState
    decreases k,
{
    if k == 0 || k > ls.len() {
        ParseState { closed: Seq::empty(), open: None, open_lines: 0 }
    } else {
        parse_step(parse_state(ls, (k - 1) as nat), ls[k - 1], k)
    }
}

/// The closed blocks followed by the open one.
pub open spec fn all_blocks(st: ParseState) -> Seq<BlockView> {
    match st.open {
        Some(b) => st.closed.push(b),
        None => st.closed,
    }
}

/// The blocks of a manifest, in source order.
pub open spec fn spec_parse_blocks(input: Seq<char>) -> Seq<BlockView> {
    all_blocks(parse_state(lines(input), lines(input).len()))
}

/// Whether a block is shown to `target`: `All` sees every block, any other
/// role sees broadcast blocks and its own.
pub open spec fn selects(target: RoleView, b: BlockView) -> bool {
    target == RoleView::All || b.role == RoleView::All || b.role == target
}

/// The blocks shown to `target`, in order.
pub open spec fn spec_blocks_for(bs: Seq<BlockView>, target: RoleView) -> Seq<BlockView>
    decreases bs.len(),
{
    if bs.len() == 0 {
        Seq::empty()
    } else {
        let rest = spec_blocks_for(bs.drop_last(), target);
        if selects(target, bs.last()) {
            rest.push(bs.last())
        } else {
            rest
        }
    }
}

/// If `line` is exactly a role tag (optional surrounding whitespace only),
/// the parsed role. The tag body is parsed strictly, so `<@<@builder>>` is
/// no tag.
pub fn parse_tag_line(line: &[char]) -> (r: Option<AgentRole>)
    ensures
        r matches Some(role) ==> spec_tag_line(line@) == Some(role@),
        r is None ==> spec_tag_line(line@) is None,
{
    let t = trim_chars(line);
    let lt = chars_of("<@");
    let gt = chars_of(">");
    proof {
        reveal_strlit("<@");
        reveal_strlit(">");
    }
    if !starts_with_chars(t.as_slice(), lt.as_slice()) || !ends_with_chars(
        t.as_slice(),
        gt.as_slice(),
    ) {
        return None;
    }
    if t.len() < 3 {
        return None;
    }
    let inner = sub_chars(t.as_slice(), 2, t.len() - 1);
    match AgentRole::from_inner_chars(inner.as_slice()) {
        Ok(role) => Some(role),
        Err(_) => None,
    }
}

impl TaggedBlock {
    /// A copy of this block.
    pub fn duplicate(&self) -> (r: TaggedBlock)
        ensures
            r@ == self@,
    {
        TaggedBlock {
            role: self.role.duplicate(),
            tag_line: self.tag_line,
            content: self.content.clone(),
        }
    }
}

/// Parses a manifest into role-scoped blocks.
///
/// Lines before the first tag are dropped. Unparseable tags are body text of
/// the block they sit in. A block's content is its body lines joined with
/// newlines, blank lines included (see `lemma_block_content_is_its_lines`).
pub fn parse_blocks(input: &str) -> (r: Vec<TaggedBlock>)
    ensures
        blocks_view(r@) == spec_parse_blocks(input@),
        forall|i: int|
            0 <= i < r@.len() ==> (#[trigger] r@[i]).content@ == join_lines(
                lines(input@).subrange(
                    r@[i].tag_line as int,
                    if i + 1 < r@.len() {
                        r@[i + 1].tag_line - 1
                    } else {
                        lines(input@).len() as int
                    },
                ),
            ),
{
    let chars = chars_of(input);
    let ls = split_lines(chars.as_slice());
    let ghost lsv = ls@.map_values(|l: Vec<char>| l@);
    assert(lsv == lines(input@));
    let mut closed: Vec<TaggedBlock> = Vec::new();
    let mut open_role: Option<AgentRole> = None;
    let mut open_line: usize = 0;
    let mut open_content: Vec<char> = Vec::new();
    let mut open_count: usize = 0;
    let mut i: usize = 0;
    while i < ls.len()
        invariant
            i <= ls@.len(),
            lsv == ls@.map_values(|l: Vec<char>| l@),
            blocks_view(closed@) == parse_state(lsv, i as nat).closed,
            match open_role {
                Some(role) => parse_state(lsv, i as nat).open == Some(
                    BlockView { role: role@, tag_line: open_line as nat, content: open_content@ },
                ),
                None => parse_state(lsv, i as nat).open is None,
            },
            open_count == parse_state(lsv, i as nat).open_lines,
            open_count <= i,
            open_role is Some ==> open_line <= i,
        decreases ls@.len() - i,
    {
        let line_no = i + 1;
        let line = &ls[i];
        assert(lsv[i as int] == line@);
        assert(parse_state(lsv, (i + 1) as nat) == parse_step(
            parse_state(lsv, i as nat),
            lsv[i as int],
            (i + 1) as nat,
        ));
        match parse_tag_line(line.as_slice()) {
            Some(role) => {
                let prev = open_role;
                match prev {
                    Some(prev_role) => {
                        let ghost before = closed@;
                        let b = TaggedBlock {
                            role: prev_role,
                            tag_line: open_line,
                            content: string_of(open_content.as_slice()),
                        };
                        closed.push(b);
                        assert(blocks_view(closed@) == blocks_view(before).push(b@));
                    },
                    None => {},
                }
                open_role = Some(role);
                open_line = line_no;
                open_content = Vec::new();
                open_count = 0;
            },
            None => {
                match &open_role {
                    Some(_) => {
                        if open_count == 0 {
                            open_content = sub_chars(line.as_slice(), 0, line.len());
                            assert(line@.subrange(0, line@.len() as int) == line@);
                        } else {
                            let nl: Vec<char> = vec!['\n'];
                            assert(nl@ == seq!['\n']);
                            let with_nl = concat_chars(open_content.as_slice(), nl.as_slice());
                            open_content = concat_chars(with_nl.as_slice(), line.as_slice());
                        }
                        open_count = open_count + 1;
                    },
                    None => {},
                }
            },
        }
        i += 1;
    }
    match open_role {
        Some(role) => {
            let ghost before = closed@;
            let b = TaggedBlock {
                role,
                tag_line: open_line,
                content: string_of(open_content.as_slice()),
            };
            closed.push(b);
            assert(blocks_view(closed@) == blocks_view(before).push(b@));
        },
        None => {},
    }
    proof {
        lemma_block_content_is_its_lines(input@);
        assert forall|i: int| 0 <= i < closed@.len() implies (#[trigger] closed@[i]).content@ == join_lines(
            lines(input@).subrange(
                closed@[i].tag_line as int,
                if i + 1 < closed@.len() {
                    closed@[i + 1].tag_line - 1
                } else {
                    lines(input@).len() as int
                },
            ),
        ) by {
            assert(blocks_view(closed@)[i] == closed@[i]@);
            if i + 1 < closed@.len() {
                assert(blocks_view(closed@)[i + 1] == closed@[i + 1]@);
            }
        }
    }
    closed
}

/// Whether `target` selects block `b`.
fn selects_exec(target: &AgentRole, b: &TaggedBlock) -> (r: bool)
    ensures
        r == selects(target@, b@),
{
    target.is_all() || b.role.is_all() || b.role.same_as(target)
}

/// The blocks scoped to `target`, in order: every block when `target` is
/// `All`, otherwise the broadcast blocks and the target's own.
pub fn blocks_for(blocks: &[TaggedBlock], target: &AgentRole) -> (r: Vec<TaggedBlock>)
    ensures
        blocks_view(r@) == spec_blocks_for(blocks_view(blocks@), target@),
{
    let mut out: Vec<TaggedBlock> = Vec::new();
    let mut i: usize = 0;
    while i < blocks.len()
        invariant
            i <= blocks@.len(),
            blocks_view(out@) == spec_blocks_for(blocks_view(blocks@.take(i as int)), target@),
        decreases blocks@.len() - i,
    {
        let ghost prev = blocks@.take(i as int);
        let ghost before = out@;
        if selects_exec(target, &blocks[i]) {
            let b = blocks[i].duplicate();
            out.push(b);
            assert(blocks_view(out@) == blocks_view(before).push(b@));
        }
        i += 1;
        assert(blocks_view(blocks@.take(i as int)).drop_last() == blocks_view(prev));
        assert(blocks_view(blocks@.take(i as int)).last() == blocks@[i - 1]@);
    }
    assert(blocks@.take(blocks@.len() as int) == blocks@);
    out
}

/// The number of tag lines among the first `k` lines.
pub open spec fn tag_line_count(ls: Seq<Seq<char>>, k: nat) -> nat
    decreases k,
{
    if k == 0 || k > ls.len() {
        0
    } else {
        tag_line_count(ls, (k - 1) as nat) + if spec_tag_line(ls[k - 1]) is Some {
            1nat
        } else {
            0nat
        }
    }
}

/// Every block opened so far starts at a tag line, the blocks come in
/// strictly increasing line order, and there is one block per tag line.
pub open spec fn state_well_formed(ls: Seq<Seq<char>>, k: nat, st: ParseState) -> bool {
    let all = all_blocks(st);
    &&& all.len() == tag_line_count(ls, k)
    &&& (st.open is None ==> st.closed.len() == 0)
    &&& forall|i: int|
        0 <= i < all.len() ==> {
            let b = #[trigger] all[i];
            &&& 1 <= b.tag_line <= k
            &&& spec_tag_line(ls[b.tag_line - 1]) == Some(b.role)
        }
    &&& forall|i: int, j: int| 0 <= i < j < all.len() ==> all[i].tag_line < all[j].tag_line
}

proof fn lemma_parse_state_well_formed(ls: Seq<Seq<char>>, k: nat)
    requires
        k <= ls.len(),
    ensures
        state_well_formed(ls, k, parse_state(ls, k)),
    decreases k,
{
    if k > 0 {
        lemma_parse_state_well_formed(ls, (k - 1) as nat);
        let prev = parse_state(ls, (k - 1) as nat);
        let st = parse_state(ls, k);
        assert(st == parse_step(prev, ls[k - 1], k));
        let prev_all = all_blocks(prev);
        let all = all_blocks(st);
        match spec_tag_line(ls[k - 1]) {
            Some(role) => {
                let nb = BlockView { role, tag_line: k, content: Seq::empty() };
                assert(all =~= prev_all.push(nb));
                assert forall|i: int| 0 <= i < all.len() implies {
                    let b = #[trigger] all[i];
                    &&& 1 <= b.tag_line <= k
                    &&& spec_tag_line(ls[b.tag_line - 1]) == Some(b.role)
                } by {
                    if i < prev_all.len() {
                        assert(all[i] == prev_all[i]);
                    }
                }
                assert forall|i: int, j: int| 0 <= i < j < all.len() implies all[i].tag_line
                    < all[j].tag_line by {
                    assert(all[i] == prev_all[i]);
                    assert(1 <= prev_all[i].tag_line <= k - 1);
                    if j < prev_all.len() {
                        assert(all[j] == prev_all[j]);
                    }
                }
            },
            None => {
                match prev.open {
                    Some(b) => {
                        assert(all.len() == prev_all.len());
                        assert forall|i: int| 0 <= i < all.len() implies all[i].tag_line
                            == prev_all[i].tag_line && all[i].role == prev_all[i].role by {
                            if i < prev.closed.len() {
                                assert(all[i] == prev_all[i]);
                            }
                        }
                        assert forall|i: int| 0 <= i < all.len() implies {
                            let b = #[trigger] all[i];
                            &&& 1 <= b.tag_line <= k
                            &&& spec_tag_line(ls[b.tag_line - 1]) == Some(b.role)
                        } by {
                            assert(all[i].tag_line == prev_all[i].tag_line);
                        }
                        assert forall|i: int, j: int| 0 <= i < j < all.len() implies all[i].tag_line
                            < all[j].tag_line by {
                            assert(all[i].tag_line == prev_all[i].tag_line);
                            assert(all[j].tag_line == prev_all[j].tag_line);
                        }
                    },
                    None => {
                        assert(all == prev_all);
                    },
                }
            },
        }
    }
}

/// Where the body of the `i`-th of `all` blocks ends (exclusive, as a
/// 0-indexed line position) once `k` lines are read: just before the next
/// block's tag line, or at `k` for the last block.
pub open spec fn body_end(all: Seq<BlockView>, i: int, k: nat) -> int {
    if i + 1 < all.len() {
        all[i + 1].tag_line - 1
    } else {
        k as int
    }
}

/// Every block's content is its body lines joined with newlines, and the
/// open block counts the lines read since its tag.
pub open spec fn contents_faithful(ls: Seq<Seq<char>>, k: nat, st: ParseState) -> bool {
    let all = all_blocks(st);
    &&& forall|i: int|
        0 <= i < all.len() ==> (#[trigger] all[i]).content == join_lines(
            ls.subrange(all[i].tag_line as int, body_end(all, i, k)),
        )
    &&& (st.open matches Some(b) ==> st.open_lines == k - b.tag_line)
}

proof fn lemma_parse_state_faithful(ls: Seq<Seq<char>>, k: nat)
    requires
        k <= ls.len(),
    ensures
        contents_faithful(ls, k, parse_state(ls, k)),
    decreases k,
{
    if k > 0 {
        lemma_parse_state_faithful(ls, (k - 1) as nat);
        lemma_parse_state_well_formed(ls, (k - 1) as nat);
        let prev = parse_state(ls, (k - 1) as nat);
        let st = parse_state(ls, k);
        assert(st == parse_step(prev, ls[k - 1], k));
        let prev_all = all_blocks(prev);
        let all = all_blocks(st);
        match spec_tag_line(ls[k - 1]) {
            Some(role) => {
                let nb = BlockView { role, tag_line: k, content: Seq::empty() };
                assert(all =~= prev_all.push(nb));
                assert forall|i: int| 0 <= i < all.len() implies (#[trigger] all[i]).content
                    == join_lines(ls.subrange(all[i].tag_line as int, body_end(all, i, k))) by {
                    if i < prev_all.len() {
                        assert(all[i] == prev_all[i]);
                        if i + 1 < prev_all.len() {
                            assert(all[i + 1] == prev_all[i + 1]);
                        } else {
                            assert(body_end(all, i, k) == k - 1);
                        }
                    } else {
                        assert(ls.subrange(k as int, k as int) =~= Seq::<Seq<char>>::empty());
                    }
                }
            },
            None => {
                match prev.open {
                    Some(b) => {
                        let n = prev_all.len() - 1;
                        assert(prev_all[n] == b);
                        let nb = BlockView { content: append_line(b.content, prev.open_lines, ls[k - 1]), ..b };
                        assert(all =~= prev.closed.push(nb));
                        assert(1 <= b.tag_line <= k - 1);
                        assert forall|i: int| 0 <= i < all.len() implies (#[trigger] all[i]).content
                            == join_lines(ls.subrange(all[i].tag_line as int, body_end(all, i, k))) by {
                            if i < n {
                                assert(all[i] == prev_all[i]);
                                assert(all[i + 1].tag_line == prev_all[i + 1].tag_line);
                            } else {
                                let t = b.tag_line as int;
                                let sub = ls.subrange(t, k as int);
                                assert(sub.drop_last() =~= ls.subrange(t, k - 1));
                                assert(sub.last() == ls[k - 1]);
                                if prev.open_lines == 0 {
                                    assert(sub.len() == 1);
                                }
                            }
                        }
                    },
                    None => {
                        assert(all == prev_all);
                    },
                }
            },
        }
    }
}

/// A block's content is its body lines joined with newlines: the lines
/// after its tag line up to the next block's tag line, or to the end of the
/// input for the last block. Blank lines among them are kept.
pub proof fn lemma_block_content_is_its_lines(input: Seq<char>)
    ensures
        forall|i: int|
            0 <= i < spec_parse_blocks(input).len() ==> (#[trigger] spec_parse_blocks(input)[i]).content
                == join_lines(
                lines(input).subrange(
                    spec_parse_blocks(input)[i].tag_line as int,
                    if i + 1 < spec_parse_blocks(input).len() {
                        spec_parse_blocks(input)[i + 1].tag_line - 1
                    } else {
                        lines(input).len() as int
                    },
                ),
            ),
{
    lemma_parse_state_faithful(lines(input), lines(input).len());
}

/// The 1-indexed numbers of the tag lines among the first `k` lines, in
/// ascending order.
pub open spec fn tag_lines(ls: Seq<Seq<char>>, k: nat) -> Seq<nat>
    decreases k,
{
    if k == 0 || k > ls.len() {
        Seq::empty()
    } else if spec_tag_line(ls[k - 1]) is Some {
        tag_lines(ls, (k - 1) as nat).push(k)
    } else {
        tag_lines(ls, (k - 1) as nat)
    }
}

proof fn lemma_parse_state_tag_lines(ls: Seq<Seq<char>>, k: nat)
    requires
        k <= ls.len(),
    ensures
        all_blocks(parse_state(ls, k)).map_values(|b: BlockView| b.tag_line) == tag_lines(ls, k),
    decreases k,
{
    if k > 0 {
        lemma_parse_state_tag_lines(ls, (k - 1) as nat);
        lemma_parse_state_well_formed(ls, (k - 1) as nat);
        let prev = parse_state(ls, (k - 1) as nat);
        let st = parse_state(ls, k);
        assert(st == parse_step(prev, ls[k - 1], k));
        let prev_all = all_blocks(prev);
        let all = all_blocks(st);
        match spec_tag_line(ls[k - 1]) {
            Some(role) => {
                let nb = BlockView { role, tag_line: k, content: Seq::empty() };
                assert(all =~= prev_all.push(nb));
                assert(all.map_values(|b: BlockView| b.tag_line) =~= prev_all.map_values(
                    |b: BlockView| b.tag_line,
                ).push(k));
            },
            None => {
                match prev.open {
                    Some(b) => {
                        let n = prev_all.len() - 1;
                        assert(prev_all[n] == b);
                        assert(all.len() == prev_all.len());
                        assert forall|i: int| 0 <= i < all.len() implies all[i].tag_line
                            == prev_all[i].tag_line by {
                            if i < n {
                                assert(all[i] == prev_all[i]);
                            }
                        }
                        assert(all.map_values(|b: BlockView| b.tag_line) =~= prev_all.map_values(
                            |b: BlockView| b.tag_line,
                        ));
                    },
                    None => {
                        assert(all == prev_all);
                    },
                }
            },
        }
    }
}

/// The blocks open exactly at the tag lines: the list of their tag-line
/// numbers is the ascending list of the input's tag lines.
pub proof fn lemma_blocks_open_at_tag_lines(input: Seq<char>)
    ensures
        spec_parse_blocks(input).map_values(|b: BlockView| b.tag_line) == tag_lines(
            lines(input),
            lines(input).len(),
        ),
{
    lemma_parse_state_tag_lines(lines(input), lines(input).len());
}

/// The blocks of a parsed manifest correspond one-to-one, in order, to its
/// tag lines: there are as many blocks as tag lines, each block records the
/// 1-indexed line of a tag naming its role, and those lines strictly
/// increase.
pub proof fn lemma_blocks_follow_tag_lines(input: Seq<char>)
    ensures
        spec_parse_blocks(input).len() == tag_line_count(lines(input), lines(input).len()),
        forall|i: int|
            0 <= i < spec_parse_blocks(input).len() ==> {
                let b = #[trigger] spec_parse_blocks(input)[i];
                &&& 1 <= b.tag_line <= lines(input).len()
                &&& spec_tag_line(lines(input)[b.tag_line - 1]) == Some(b.role)
            },
        forall|i: int, j: int|
            0 <= i < j < spec_parse_blocks(input).len() ==> spec_parse_blocks(input)[i].tag_line
                < spec_parse_blocks(input)[j].tag_line,
{
    lemma_parse_state_well_formed(lines(input), lines(input).len());
}

/// `blocks_for` keeps exactly the selected blocks, in order: its result is a
/// subsequence of the input and every selected block is in it.
pub proof fn lemma_blocks_for_selects(bs: Seq<BlockView>, target: RoleView)
    ensures
        spec_blocks_for(bs, target).len() <= bs.len(),
        forall|i: int|
            0 <= i < spec_blocks_for(bs, target).len() ==> selects(
                target,
                #[trigger] spec_blocks_for(bs, target)[i],
            ),
        target == RoleView::All ==> spec_blocks_for(bs, target) == bs,
    decreases bs.len(),
{
    if bs.len() > 0 {
        lemma_blocks_for_selects(bs.drop_last(), target);
        if target == RoleView::All {
            assert(bs.drop_last().push(bs.last()) =~= bs);
        }
    }
}

} // verus!
