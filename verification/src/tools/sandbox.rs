//! Sandboxed subprocess execution: the timeout, the allowed working
//! directories, and how a finished command's result is judged.

use crate::text::{chars_of, concat_strings, copy_string, copy_strings, owned, path_debug, path_debug_text, string_of, strings_view, trim, trim_chars};
use vstd::prelude::*;

verus! {

broadcast use vstd::string::group_string_axioms;

/// Whether `path` lies under `base`, comparing whole components, as
/// `Path::starts_with` decides it. The rule is named, not spelled out.
pub uninterp spec fn path_prefix(path: Seq<char>, base: Seq<char>) -> bool;

/// `Path::new(path).starts_with(base)`.
#[verifier::external_body]
fn path_starts_with(path: &str, base: &str) -> (r: bool)
    ensures
        r == path_prefix(path@, base@),
{
    std::path::Path::new(path).starts_with(base)
}

/// The text `format!("{:?}", Duration::new(secs, nanos))` gives.
pub uninterp spec fn duration_debug_text(secs: u64, nanos: u32) -> Seq<char>;

/// `format!("{:?}", Duration::new(secs, nanos))`, for nanoseconds under a
/// second (so that `Duration::new` cannot overflow). The text is named, not
/// spelled out.
#[verifier::external_body]
fn duration_debug(secs: u64, nanos: u32) -> (r: String)
    requires
        nanos < 1_000_000_000,
    ensures
        r@ == duration_debug_text(secs, nanos),
{
    format!("{:?}", std::time::Duration::new(secs, nanos))
}

/// Sandbox execution error.
#[derive(Debug)]
pub enum SandboxError {
    /// The command exceeded the timeout, given as seconds and nanoseconds.
    Timeout(u64, u32),
    /// The process failed to start or exited unsuccessfully.
    CommandFailed(String),
    /// The working directory is outside the allowed roots.
    InvalidWorkingDir(String),
}

impl SandboxError {
    /// The error's message.
    pub fn message(&self) -> (r: String)
        requires
            self matches SandboxError::Timeout(_, n) ==> n < 1_000_000_000,
        ensures
            r@ == match self {
                SandboxError::Timeout(s, n) => "Command timed out after "@ + duration_debug_text(*s, *n),
                SandboxError::CommandFailed(m) => "Command failed: "@ + m@,
                SandboxError::InvalidWorkingDir(m) => "Working directory not allowed: "@ + m@,
            },
    {
        match self {
            SandboxError::Timeout(s, n) => {
                let d = duration_debug(*s, *n);
                concat_strings("Command timed out after ", d.as_str())
            },
            SandboxError::CommandFailed(m) => concat_strings("Command failed: ", m.as_str()),
            SandboxError::InvalidWorkingDir(m) => concat_strings("Working directory not allowed: ", m.as_str()),
        }
    }
}

/// Configuration for subprocess sandbox runs.
#[derive(Clone, Debug)]
pub struct SandboxConfig {
    /// Maximum execution time: whole seconds.
    pub timeout_secs: u64,
    /// Maximum execution time: nanoseconds beyond the seconds, under a
    /// second.
    pub timeout_nanos: u32,
    /// Allowed working directory roots (empty: any).
    pub allowed_roots: Vec<String>,
}

impl Default for SandboxConfig {
    /// Thirty seconds, any working directory.
    fn default() -> (r: Self)
        ensures
            r.timeout_secs == 30,
            r.timeout_nanos == 0,
            r.allowed_roots@.len() == 0,
    {
        SandboxConfig { timeout_secs: 30, timeout_nanos: 0, allowed_roots: Vec::new() }
    }
}

impl SandboxConfig {
    /// A configuration with a timeout of `secs` seconds and `nanos`
    /// nanoseconds (`Duration::new`: whole seconds of `nanos` carry over),
    /// any working directory.
    pub fn with_timeout(secs: u64, nanos: u32) -> (r: Self)
        requires
            secs + nanos / 1_000_000_000 <= u64::MAX,
        ensures
            r.timeout_secs == secs + nanos / 1_000_000_000,
            r.timeout_nanos == nanos % 1_000_000_000,
            r.allowed_roots@.len() == 0,
    {
        SandboxConfig {
            timeout_secs: secs + (nanos / 1_000_000_000) as u64,
            timeout_nanos: nanos % 1_000_000_000,
            allowed_roots: Vec::new(),
        }
    }

    /// The configuration with one more allowed root.
    pub fn with_root(self, root: &str) -> (r: Self)
        ensures
            r.timeout_secs == self.timeout_secs,
            r.timeout_nanos == self.timeout_nanos,
            strings_view(r.allowed_roots@) == strings_view(self.allowed_roots@).push(root@),
    {
        let mut c = self;
        let ghost before = c.allowed_roots@;
        c.allowed_roots.push(owned(root));
        assert(strings_view(c.allowed_roots@) =~= strings_view(before).push(root@));
        c
    }
}

/// What canonicalizing a path gave: the canonical path, or the error's text.
pub open spec fn result_view(r: Result<String, String>) -> Result<Seq<char>, Seq<char>> {
    match r {
        Ok(p) => Ok(p@),
        Err(e) => Err(e@),
    }
}

/// The verdict on a canonical working directory against the canonical
/// roots, taken in order: the first root that fails to canonicalize gives
/// its error, the first that contains the directory admits it.
pub open spec fn roots_verdict(dir: Seq<char>, roots: Seq<Result<Seq<char>, Seq<char>>>) -> Result<(), Seq<char>>
    decreases roots.len(),
{
    if roots.len() == 0 {
        Err(path_debug_text(dir) + " not under allowed roots"@)
    } else {
        match roots[0] {
            Err(e) => Err(e),
            Ok(r) => if path_prefix(dir, r) {
                Ok(())
            } else {
                roots_verdict(dir, roots.drop_first())
            },
        }
    }
}

/// The verdict on a working directory: any is allowed without roots;
/// otherwise its canonicalization error, or the verdict of the roots.
pub open spec fn dir_verdict(
    roots_given: nat,
    dir: Result<Seq<char>, Seq<char>>,
    roots: Seq<Result<Seq<char>, Seq<char>>>,
) -> Result<(), Seq<char>> {
    if roots_given == 0 {
        Ok(())
    } else {
        match dir {
            Err(e) => Err(e),
            Ok(d) => roots_verdict(d, roots),
        }
    }
}

/// What a finished command gives: its trimmed output on success, else its
/// error output.
pub open spec fn command_verdict(success: bool, stdout: Seq<char>, stderr: Seq<char>) -> Result<Seq<char>, Seq<char>> {
    if success {
        Ok(trim(stdout))
    } else {
        Err(stderr)
    }
}

/// Subprocess-based sandbox with a timeout and optional working directory
/// restriction.
#[derive(Clone, Debug)]
pub struct SubprocessSandbox {
    config: SandboxConfig,
}

impl Default for SubprocessSandbox {
    fn default() -> (r: Self)
        ensures
            r.timeout() == (30u64, 0u32),
            r.roots().len() == 0,
    {
        SubprocessSandbox { config: SandboxConfig::default() }
    }
}

impl SubprocessSandbox {
    /// The timeout as seconds and nanoseconds.
    pub closed spec fn timeout(&self) -> (u64, u32) {
        (self.config.timeout_secs, self.config.timeout_nanos)
    }

    /// The allowed roots.
    pub closed spec fn roots(&self) -> Seq<Seq<char>> {
        strings_view(self.config.allowed_roots@)
    }

    /// A subprocess sandbox.
    pub fn new(config: SandboxConfig) -> (r: Self)
        ensures
            r.timeout() == (config.timeout_secs, config.timeout_nanos),
            r.roots() == strings_view(config.allowed_roots@),
    {
        SubprocessSandbox { config }
    }

    /// The timeout: seconds and nanoseconds.
    pub fn timeout_parts(&self) -> (r: (u64, u32))
        ensures
            r == self.timeout(),
    {
        (self.config.timeout_secs, self.config.timeout_nanos)
    }

    /// The allowed roots, to be canonicalized in this order.
    pub fn allowed_roots(&self) -> (r: Vec<String>)
        ensures
            strings_view(r@) == self.roots(),
    {
        copy_strings(&self.config.allowed_roots)
    }

    /// Whether a working directory must be checked against roots.
    pub fn restricts_working_dir(&self) -> (r: bool)
        ensures
            r == (self.roots().len() > 0),
    {
        self.config.allowed_roots.len() > 0
    }

    /// Judges a working directory from what canonicalizing it and each
    /// allowed root (in order) gave.
    pub fn validate_working_dir(&self, dir: &Result<String, String>, roots: &Vec<Result<String, String>>) -> (r: Result<
        (),
        SandboxError,
    >)
        ensures
            match dir_verdict(self.roots().len(), result_view(*dir), roots@.map_values(|x: Result<String, String>| result_view(x))) {
                Ok(()) => r is Ok,
                Err(m) => r matches Err(SandboxError::InvalidWorkingDir(t)) && t@ == m,
            },
    {
        if self.config.allowed_roots.len() == 0 {
            return Ok(());
        }
        let d = match dir {
            Ok(d) => d,
            Err(e) => {
                return Err(SandboxError::InvalidWorkingDir(copy_string(e)));
            },
        };
        let ghost rv = roots@.map_values(|x: Result<String, String>| result_view(x));
        let mut i: usize = 0;
        assert(rv.skip(0) == rv);
        while i < roots.len()
            invariant
                i <= roots@.len(),
                self.roots().len() > 0,
                result_view(*dir) == Ok::<Seq<char>, Seq<char>>(d@),
                rv == roots@.map_values(|x: Result<String, String>| result_view(x)),
                roots_verdict(d@, rv) == roots_verdict(d@, rv.skip(i as int)),
            decreases roots@.len() - i,
        {
            proof {
                assert(rv.skip(i as int)[0] == result_view(roots@[i as int]));
                assert(rv.skip(i as int).drop_first() == rv.skip(i + 1));
            }
            match &roots[i] {
                Err(e) => {
                    return Err(SandboxError::InvalidWorkingDir(copy_string(e)));
                },
                Ok(root) => {
                    if path_starts_with(d.as_str(), root.as_str()) {
                        return Ok(());
                    }
                },
            }
            i += 1;
        }
        proof {
            assert(rv.skip(i as int) =~= Seq::<Result<Seq<char>, Seq<char>>>::empty());
        }
        let p = path_debug(d.as_str());
        Err(SandboxError::InvalidWorkingDir(concat_strings(p.as_str(), " not under allowed roots")))
    }

    /// The result of a command that finished in time: its output with
    /// surrounding whitespace trimmed when it succeeded, else a failure
    /// carrying its error output.
    pub fn command_result(success: bool, stdout: &str, stderr: &str) -> (r: Result<String, SandboxError>)
        ensures
            match command_verdict(success, stdout@, stderr@) {
                Ok(out) => r matches Ok(o) && o@ == out,
                Err(m) => r matches Err(SandboxError::CommandFailed(t)) && t@ == m,
            },
    {
        if !success {
            return Err(SandboxError::CommandFailed(owned(stderr)));
        }
        let v = chars_of(stdout);
        let t = trim_chars(v.as_slice());
        Ok(string_of(t.as_slice()))
    }

    /// The error for a command that ran past the timeout.
    pub fn timeout_error(&self) -> (r: SandboxError)
        ensures
            r == SandboxError::Timeout(self.timeout().0, self.timeout().1),
    {
        SandboxError::Timeout(self.config.timeout_secs, self.config.timeout_nanos)
    }
}

} // verus!
