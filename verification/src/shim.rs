//! What the shim decides: it is started under the name of a tool, and runs
//! the tool of the toolchain that applies.

use vstd::prelude::*;
use vstd::string::*;

use crate::cli;
use crate::cli::pinned_env;
use crate::paths::Paths;
use crate::resolve::Resolved;
use crate::text;
use crate::text::ends;
use crate::tool::pairs;

verus! {

/// Whether the host's suffix for executables has to be added to a tool's name
/// to find it.
pub open spec fn lacks_suffix(tool: Seq<char>, suffix: Seq<char>) -> bool {
    suffix.len() > 0 && !ends(tool, suffix)
}

/// The second name to try for a tool: its own, with the host's suffix for
/// executables where it lacks that.
pub open spec fn second_name(tool: Seq<char>, suffix: Seq<char>) -> Seq<char> {
    if lacks_suffix(tool, suffix) {
        tool + suffix
    } else {
        tool
    }
}

/// The second name to try for a tool. Someone may have linked `go` as the shim
/// name on a host where the real binary is `go.exe`.
pub fn suffixed(tool: &str, suffix: &str) -> (r: String)
    ensures
        r@ == second_name(tool@, suffix@),
{
    if !suffix.is_empty() && !text::ends_with(tool, suffix) {
        tool.to_owned().concat(suffix)
    } else {
        tool.to_owned()
    }
}

/// Which program the shim runs.
#[derive(Debug, Clone, Copy, PartialEq, Eq, Structural)]
pub enum Choice {
    /// The one of the tool's own name.
    Plain,
    /// The one with the host's suffix.
    Suffixed,
    /// None: the toolchain lacks the tool.
    Missing,
}

/// The choice, given which of the two are there.
pub open spec fn choice(plain_exists: bool, suffixed_exists: bool) -> Choice {
    if plain_exists {
        Choice::Plain
    } else if suffixed_exists {
        Choice::Suffixed
    } else {
        Choice::Missing
    }
}

/// Choose the program to run, given which of the two are there.
pub fn choose_program(plain_exists: bool, suffixed_exists: bool) -> (r: Choice)
    ensures
        r == choice(plain_exists, suffixed_exists),
{
    if plain_exists {
        Choice::Plain
    } else if suffixed_exists {
        Choice::Suffixed
    } else {
        Choice::Missing
    }
}

/// How the shim runs a tool.
#[derive(Debug)]
pub struct ShimPlan {
    pub program: String,
    /// The environment, beside the caller's own.
    pub env: Vec<(String, String)>,
}

/// Why the shim cannot run a tool.
#[derive(Debug)]
pub enum ShimError {
    /// No version resolves.
    NoVersion,
    /// The toolchain lacks the tool.
    Missing { tool: String, bin: String, version: String },
}

/// Plan how to run a tool, given the version that resolves, the host's suffix
/// for executables, and whether the toolchain has a program of the tool's name
/// and of its second name.
pub fn plan_shim(
    paths: &Paths,
    resolved: &Option<Resolved>,
    tool: &str,
    suffix: &str,
    plain_exists: bool,
    suffixed_exists: bool,
) -> (r: Result<ShimPlan, ShimError>)
    ensures
        match r {
            Err(ShimError::NoVersion) => *resolved is None,
            Err(ShimError::Missing { tool: t, bin, version }) => {
                &&& *resolved is Some
                &&& choice(plain_exists, suffixed_exists) is Missing
                &&& t@ == tool@
                &&& bin@ == paths.program_of((*resolved)->0.version@, tool@)
                &&& version@ == (*resolved)->0.version@
            },
            Ok(plan) => {
                &&& *resolved is Some
                &&& pairs(plan.env@) == pinned_env(*paths, (*resolved)->0.version@)
                &&& match choice(plain_exists, suffixed_exists) {
                    Choice::Plain => plan.program@ == paths.program_of(
                        (*resolved)->0.version@,
                        tool@,
                    ),
                    Choice::Suffixed => plan.program@ == paths.program_of(
                        (*resolved)->0.version@,
                        second_name(tool@, suffix@),
                    ),
                    Choice::Missing => false,
                }
            },
        },
{
    let version = match resolved {
        Some(r) => r.version.as_str(),
        None => {
            return Err(ShimError::NoVersion);
        },
    };
    let program = match choose_program(plain_exists, suffixed_exists) {
        Choice::Plain => paths.program(version, tool),
        Choice::Suffixed => paths.program(version, suffixed(tool, suffix).as_str()),
        Choice::Missing => {
            return Err(
                ShimError::Missing {
                    tool: tool.to_owned(),
                    bin: paths.program(version, tool),
                    version: version.to_owned(),
                },
            );
        },
    };
    Ok(ShimPlan { program, env: cli::toolchain_env(paths, version) })
}

impl ShimError {
    /// The message for the user.
    pub fn message(&self) -> (r: String)
        ensures
            r@ == match *self {
                ShimError::NoVersion => "no Go version resolved"@,
                ShimError::Missing { tool, bin, version } => tool@ + " not found at "@ + bin@
                    + " — run `gv install "@ + version@ + "`"@,
            },
    {
        match self {
            ShimError::NoVersion => "no Go version resolved".to_owned(),
            ShimError::Missing { tool, bin, version } => {
                tool.clone().concat(" not found at ").concat(bin.as_str()).concat(
                    " — run `gv install ",
                ).concat(version.as_str()).concat("`")
            },
        }
    }
}

} // verus!
