//! Governance compliance: the master manifest and the guidance links.

use crate::governance::symlinks::{same_status, 
    copy_status, known_targets, status_debug, status_debug_text, SymlinkManager, SymlinkStatus,
};
use crate::text::{concat_strings, copy_string, owned, str_eq, strings_view};
use vstd::prelude::*;

verus! {

broadcast use vstd::string::group_string_axioms;

/// Checks a repository's governance files.
#[derive(Clone, Debug)]
pub struct GovernanceValidator {
    base_dir: String,
    symlink_mgr: SymlinkManager,
}

/// Result of a compliance check.
#[derive(Debug)]
pub struct ComplianceReport {
    /// Whether everything is in order.
    pub is_compliant: bool,
    /// What is not, in order.
    pub issues: Vec<String>,
    /// The status of each link that could be checked.
    pub symlinks: Vec<(String, SymlinkStatus)>,
}

/// The issue a checked link raises, if any: only a valid or missing link
/// raises none.
pub open spec fn link_issue(target: Seq<char>, check: Result<SymlinkStatus, String>) -> Option<Seq<char>> {
    match check {
        Ok(SymlinkStatus::Valid) => None,
        Ok(SymlinkStatus::Missing) => None,
        Ok(s) => Some("Symlink issue for "@ + target + ": "@ + status_debug(s)),
        Err(e) => Some("Failed to check symlink "@ + target + ": "@ + e@),
    }
}

/// The issues of the checked links, in order.
pub open spec fn link_issues(checks: Seq<(String, Result<SymlinkStatus, String>)>) -> Seq<Seq<char>>
    decreases checks.len(),
{
    if checks.len() == 0 {
        Seq::empty()
    } else {
        link_issues(checks.drop_last()) + match link_issue(checks.last().0@, checks.last().1) {
            Some(m) => seq![m],
            None => Seq::empty(),
        }
    }
}

/// The links that could be checked, in order.
pub open spec fn checked_links(checks: Seq<(String, Result<SymlinkStatus, String>)>) -> Seq<
    (String, Result<SymlinkStatus, String>),
> {
    checks.filter(|c: (String, Result<SymlinkStatus, String>)| c.1 is Ok)
}

/// The number of links that could be checked.
pub open spec fn checked_count(checks: Seq<(String, Result<SymlinkStatus, String>)>) -> nat {
    checks.filter(|c: (String, Result<SymlinkStatus, String>)| c.1 is Ok).len()
}

impl GovernanceValidator {
    /// A validator for a base directory, with `AGENTS.md` as master.
    pub fn new(base_dir: &str) -> (r: Self)
        ensures
            r.base_dir()@ == base_dir@,
            r.links().master_file()@ == "AGENTS.md"@,
            r.links().base_dir()@ == base_dir@,
    {
        GovernanceValidator { base_dir: owned(base_dir), symlink_mgr: SymlinkManager::default(base_dir) }
    }

    /// The base directory.
    pub closed spec fn base_dir(&self) -> String {
        self.base_dir
    }

    /// The link manager.
    pub closed spec fn links(&self) -> SymlinkManager {
        self.symlink_mgr
    }

    /// The link manager.
    pub fn symlink_manager(&self) -> (r: &SymlinkManager)
        ensures
            *r == self.links(),
    {
        &self.symlink_mgr
    }

    /// The known guidance files to check, in order: all but `AGENTS.md`.
    pub fn targets_to_check(&self) -> (r: Vec<&'static str>)
        ensures
            r@.map_values(|s: &str| s@) == known_targets().filter(|t: Seq<char>| t != "AGENTS.md"@),
    {
        let m = SymlinkManager::default(self.base_dir.as_str());
        m.sync_targets()
    }

    /// The compliance report from whether the master manifest exists and
    /// each checked link (its path and status, or why it could not be
    /// checked): compliant exactly when the master exists and every link
    /// is valid or missing; the issues list the missing master and each
    /// other link, in order.
    pub fn validate_compliance(
        &self,
        master_exists: bool,
        checks: &Vec<(String, Result<SymlinkStatus, String>)>,
    ) -> (r: ComplianceReport)
        ensures
            r.is_compliant == (master_exists && link_issues(checks@).len() == 0),
            strings_view(r.issues@) == (if master_exists {
                Seq::empty()
            } else {
                seq!["Master AGENTS.md file is missing"@]
            }) + link_issues(checks@),
            r.symlinks@.len() == checked_count(checks@),
            forall|k: int|
                0 <= k < r.symlinks@.len() ==> {
                    let c = #[trigger] checked_links(checks@)[k];
                    &&& r.symlinks@[k].0@ == c.0@
                    &&& c.1 matches Ok(st) && same_status(r.symlinks@[k].1, st)
                },
    {
        let mut is_compliant = master_exists;
        let mut issues: Vec<String> = Vec::new();
        if !master_exists {
            issues.push(owned("Master AGENTS.md file is missing"));
        }
        let ghost head = if master_exists {
            Seq::<Seq<char>>::empty()
        } else {
            seq!["Master AGENTS.md file is missing"@]
        };
        assert(strings_view(issues@) =~= head);
        let ghost cs = checks@;
        let ghost pred = |c: (String, Result<SymlinkStatus, String>)| c.1 is Ok;
        let mut symlinks: Vec<(String, SymlinkStatus)> = Vec::new();
        let mut i: usize = 0;
        while i < checks.len()
            invariant
                i <= cs.len(),
                cs == checks@,
                pred == (|c: (String, Result<SymlinkStatus, String>)| c.1 is Ok),
                strings_view(issues@) == head + link_issues(cs.take(i as int)),
                is_compliant == (master_exists && link_issues(cs.take(i as int)).len() == 0),
                symlinks@.len() == cs.take(i as int).filter(pred).len(),
                forall|k: int|
                    0 <= k < symlinks@.len() ==> {
                        let c = #[trigger] cs.take(i as int).filter(pred)[k];
                        &&& symlinks@[k].0@ == c.0@
                        &&& c.1 matches Ok(st) && same_status(symlinks@[k].1, st)
                    },
            decreases cs.len() - i,
        {
            let (target, check) = (&checks[i].0, &checks[i].1);
            proof {
                assert(cs.take(i + 1).drop_last() == cs.take(i as int));
                assert(cs.take(i + 1).last() == cs[i as int]);
                cs.take(i as int).lemma_filter_push(cs[i as int], pred);
                assert(cs.take(i + 1) == cs.take(i as int).push(cs[i as int]));
            }
            let ghost before = strings_view(issues@);
            match check {
                Ok(status) => {
                    let issue = match status {
                        SymlinkStatus::Valid => false,
                        SymlinkStatus::Missing => false,
                        _ => true,
                    };
                    if issue {
                        is_compliant = false;
                        let a = concat_strings("Symlink issue for ", target.as_str());
                        let b = concat_strings(a.as_str(), ": ");
                        let d = status_debug_text(status);
                        let m = concat_strings(b.as_str(), d.as_str());
                        issues.push(m);
                        assert(strings_view(issues@) =~= before.push(m@));
                    }
                    let ghost prev = symlinks@;
                    symlinks.push((copy_string(target), copy_status(status)));
                    proof {
                        assert(cs.take(i + 1).filter(pred) == cs.take(i as int).filter(pred).push(cs[i as int]));
                        assert forall|k: int| 0 <= k < symlinks@.len() implies {
                            let c = #[trigger] cs.take(i + 1).filter(pred)[k];
                            &&& symlinks@[k].0@ == c.0@
                            &&& c.1 matches Ok(st) && same_status(symlinks@[k].1, st)
                        } by {
                            if k < prev.len() {
                                assert(symlinks@[k] == prev[k]);
                                assert(cs.take(i + 1).filter(pred)[k] == cs.take(i as int).filter(pred)[k]);
                            }
                        }
                    }
                },
                Err(e) => {
                    is_compliant = false;
                    let a = concat_strings("Failed to check symlink ", target.as_str());
                    let b = concat_strings(a.as_str(), ": ");
                    let m = concat_strings(b.as_str(), e.as_str());
                    issues.push(m);
                    assert(strings_view(issues@) =~= before.push(m@));
                },
            }
            i += 1;
        }
        assert(cs.take(cs.len() as int) == cs);
        assert(checked_links(checks@) == cs.filter(pred));
        ComplianceReport { is_compliant, issues, symlinks }
    }
}

} // verus!
