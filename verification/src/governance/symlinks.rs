//! Symlinks from agent-specific guidance files to the master manifest:
//! classifying what is on disk and deciding what to change. Reading and
//! writing the file system is the caller's part.

use crate::text::{copy_string, opt_view, owned, path_debug, path_debug_text, str_eq};
use vstd::prelude::*;

verus! {

broadcast use vstd::string::group_string_axioms;

/// State of a guidance symlink.
#[derive(Clone, Debug, PartialEq, Eq)]
pub enum SymlinkStatus {
    /// Points at the master manifest.
    Valid,
    /// Points elsewhere; the link target as read.
    IncorrectTarget(String),
    /// A regular file is in the way.
    NotASymlink,
    /// The master manifest is missing.
    Broken,
    /// Nothing is there.
    Missing,
}

/// The guidance files kept as links to the master manifest, in order. The
/// governance framework names one more agent's guidance file, placed first;
/// this list leaves it out, so that file is neither synced nor checked.
pub open spec fn known_targets() -> Seq<Seq<char>> {
    seq![
        ".cursor/rules/swarm.mdc"@,
        "AGENTS.md"@,
        ".github/copilot-instructions.md"@,
        "GEMINI.md"@,
        ".agent/rules/orchestration.md"@,
    ]
}

/// The guidance files kept as links to the master manifest, in order.
pub fn known_target_list() -> (r: Vec<&'static str>)
    ensures
        r@.map_values(|s: &str| s@) == known_targets(),
{
    let r = vec![
        ".cursor/rules/swarm.mdc",
        "AGENTS.md",
        ".github/copilot-instructions.md",
        "GEMINI.md",
        ".agent/rules/orchestration.md",
    ];
    assert(r@.map_values(|s: &str| s@) =~= known_targets());
    r
}

/// What the file system shows of a guidance path.
#[derive(Clone, Debug)]
pub struct LinkFacts {
    /// Something exists at the path (a file, or a link, broken or not).
    pub present: bool,
    /// The path itself is a symbolic link.
    pub is_symlink: bool,
    /// The link target as read.
    pub target: String,
    /// The master manifest exists.
    pub master_exists: bool,
    /// The resolved link target is the resolved master manifest.
    pub points_at_master: bool,
}

/// The status the facts show: missing, not a link, broken when the master
/// is gone, valid when it points at the master, else the wrong target.
pub open spec fn link_status(f: LinkFacts) -> SymlinkStatus {
    if !f.present {
        SymlinkStatus::Missing
    } else if !f.is_symlink {
        SymlinkStatus::NotASymlink
    } else if !f.master_exists {
        SymlinkStatus::Broken
    } else if f.points_at_master {
        SymlinkStatus::Valid
    } else {
        SymlinkStatus::IncorrectTarget(f.target)
    }
}

/// What syncing a link does.
#[derive(Clone, Copy, Debug, PartialEq, Eq, Structural)]
pub enum SyncAction {
    /// The link is right: leave it.
    Keep,
    /// Something else is there: remove it, then link.
    Replace,
    /// Nothing is there: link.
    Create,
}

/// The sync action for a status.
pub open spec fn sync_action(s: SymlinkStatus) -> SyncAction {
    match s {
        SymlinkStatus::Valid => SyncAction::Keep,
        SymlinkStatus::Missing => SyncAction::Create,
        _ => SyncAction::Replace,
    }
}

/// Keeps agent-specific guidance files linked to the master manifest.
#[derive(Clone, Debug)]
pub struct SymlinkManager {
    master_file: String,
    base_dir: String,
}

impl SymlinkManager {
    /// A manager for a base directory and master file.
    pub fn new(base_dir: &str, master_file: &str) -> (r: Self)
        ensures
            r.base_dir()@ == base_dir@,
            r.master_file()@ == master_file@,
    {
        SymlinkManager { base_dir: owned(base_dir), master_file: owned(master_file) }
    }

    /// A manager whose master file is `AGENTS.md`.
    pub fn default(base_dir: &str) -> (r: Self)
        ensures
            r.base_dir()@ == base_dir@,
            r.master_file()@ == "AGENTS.md"@,
    {
        SymlinkManager::new(base_dir, "AGENTS.md")
    }

    /// The base directory.
    pub closed spec fn base_dir(&self) -> String {
        self.base_dir
    }

    /// The master file, relative to the base directory.
    pub closed spec fn master_file(&self) -> String {
        self.master_file
    }

    /// The base directory.
    pub fn base(&self) -> (r: &str)
        ensures
            r@ == self.base_dir()@,
    {
        self.base_dir.as_str()
    }

    /// The master file.
    pub fn master(&self) -> (r: &str)
        ensures
            r@ == self.master_file()@,
    {
        self.master_file.as_str()
    }

    /// The status of a guidance path from what the file system shows.
    pub fn status_from(facts: &LinkFacts) -> (r: SymlinkStatus)
        ensures
            match (r, link_status(*facts)) {
                (SymlinkStatus::IncorrectTarget(a), SymlinkStatus::IncorrectTarget(b)) => a@ == b@,
                (x, y) => x == y,
            },
    {
        if !facts.present {
            SymlinkStatus::Missing
        } else if !facts.is_symlink {
            SymlinkStatus::NotASymlink
        } else if !facts.master_exists {
            SymlinkStatus::Broken
        } else if facts.points_at_master {
            SymlinkStatus::Valid
        } else {
            SymlinkStatus::IncorrectTarget(copy_string(&facts.target))
        }
    }

    /// What syncing a link in this status does.
    pub fn sync_action_for(status: &SymlinkStatus) -> (r: SyncAction)
        ensures
            r == sync_action(*status),
    {
        match status {
            SymlinkStatus::Valid => SyncAction::Keep,
            SymlinkStatus::Missing => SyncAction::Create,
            _ => SyncAction::Replace,
        }
    }

    /// The known guidance files to sync: all but the master file, in order.
    pub fn sync_targets(&self) -> (r: Vec<&'static str>)
        ensures
            r@.map_values(|s: &str| s@) == known_targets().filter(|t: Seq<char>| t != self.master_file()@),
    {
        let all = known_target_list();
        let ghost kt = known_targets();
        let ghost pred = |t: Seq<char>| t != self.master_file()@;
        let mut r: Vec<&'static str> = Vec::new();
        let mut i: usize = 0;
        while i < all.len()
            invariant
                i <= all@.len(),
                all@.map_values(|s: &str| s@) == kt,
                kt == known_targets(),
                pred == (|t: Seq<char>| t != self.master_file()@),
                r@.map_values(|s: &str| s@) == kt.take(i as int).filter(pred),
            decreases all@.len() - i,
        {
            proof {
                assert(kt.take(i + 1) == kt.take(i as int).push(kt[i as int]));
                kt.take(i as int).lemma_filter_push(kt[i as int], pred);
                assert(kt[i as int] == all@[i as int]@);
            }
            let ghost before = r@;
            if !str_eq(all[i], self.master_file.as_str()) {
                r.push(all[i]);
                assert(r@.map_values(|s: &str| s@) =~= before.map_values(|s: &str| s@).push(all@[i as int]@));
            }
            i += 1;
        }
        assert(kt.take(kt.len() as int) == kt);
        r
    }
}

/// What `pathdiff::diff_paths` gives for a path and a base directory: the
/// path written relative to the base, when one can be written.
pub uninterp spec fn path_difference(path: Seq<char>, base: Seq<char>) -> Option<Seq<char>>;

/// `pathdiff::diff_paths` on two paths, its result as text. The contract
/// claims only that the result is a function of the two paths; how it is
/// built (common components dropped, `..` for each remaining base
/// component) is not stated.
#[verifier::external_body]
fn diff_paths_text(path: &str, base: &str) -> (r: Option<String>)
    ensures
        opt_view(r) == path_difference(path@, base@),
{
    match pathdiff::diff_paths(path, base) {
        Some(p) => Some(p.to_string_lossy().into_owned()),
        None => None,
    }
}

/// The target written into a link that lives in `link_dir`: the master
/// path relative to that directory, or the master path itself when no
/// relative form exists.
pub fn relative_link_target(master_path: &str, link_dir: &str) -> (r: String)
    ensures
        r@ == match path_difference(master_path@, link_dir@) {
            Some(d) => d,
            None => master_path@,
        },
{
    match diff_paths_text(master_path, link_dir) {
        Some(d) => d,
        None => owned(master_path),
    }
}

/// The text `{:?}` shows for a status.
pub open spec fn status_debug(s: SymlinkStatus) -> Seq<char> {
    match s {
        SymlinkStatus::Valid => "Valid"@,
        SymlinkStatus::IncorrectTarget(p) => "IncorrectTarget("@ + path_debug_text(p@) + ")"@,
        SymlinkStatus::NotASymlink => "NotASymlink"@,
        SymlinkStatus::Broken => "Broken"@,
        SymlinkStatus::Missing => "Missing"@,
    }
}

/// The `{:?}` text of a status.
pub fn status_debug_text(s: &SymlinkStatus) -> (r: String)
    ensures
        r@ == status_debug(*s),
{
    match s {
        SymlinkStatus::Valid => owned("Valid"),
        SymlinkStatus::IncorrectTarget(p) => {
            let d = path_debug(p.as_str());
            let a = crate::text::concat_strings("IncorrectTarget(", d.as_str());
            crate::text::concat_strings(a.as_str(), ")")
        },
        SymlinkStatus::NotASymlink => owned("NotASymlink"),
        SymlinkStatus::Broken => owned("Broken"),
        SymlinkStatus::Missing => owned("Missing"),
    }
}

/// Two statuses say the same: the same kind, and for a wrong target the
/// same target text.
pub open spec fn same_status(a: SymlinkStatus, b: SymlinkStatus) -> bool {
    match (a, b) {
        (SymlinkStatus::IncorrectTarget(x), SymlinkStatus::IncorrectTarget(y)) => x@ == y@,
        (x, y) => x == y,
    }
}

/// A copy of a status.
pub fn copy_status(s: &SymlinkStatus) -> (r: SymlinkStatus)
    ensures
        same_status(r, *s),
{
    match s {
        SymlinkStatus::Valid => SymlinkStatus::Valid,
        SymlinkStatus::IncorrectTarget(p) => SymlinkStatus::IncorrectTarget(copy_string(p)),
        SymlinkStatus::NotASymlink => SymlinkStatus::NotASymlink,
        SymlinkStatus::Broken => SymlinkStatus::Broken,
        SymlinkStatus::Missing => SymlinkStatus::Missing,
    }
}

} // verus!
