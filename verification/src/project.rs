//! Project-level configuration: what `gv.toml` says, and which directory is
//! the project's root.
//!
//! `gv.toml` is optional. Without it, `gv` works off `go.mod` alone. With it,
//! you get pinned tools.

use std::collections::BTreeMap;

use vstd::prelude::*;
use vstd::std_specs::btree::*;

verus! {

pub const PROJECT_FILE: &'static str = "gv.toml";

pub const LOCK_FILE: &'static str = "gv.lock";

/// What `gv.toml` says.
#[derive(Debug, Clone)]
pub struct Project {
    /// Optional Go toolchain pin. `go.mod`'s `toolchain` line takes precedence.
    pub go: Option<GoSection>,
    /// Map of tool-name to ToolSpec. Short form: `gopls = "latest"`.
    /// Long form: `[tools.gopls]` with explicit `package`.
    pub tools: BTreeMap<String, ToolSpec>,
}

/// The `[go]` section.
#[derive(Debug, Clone)]
pub struct GoSection {
    pub version: String,
}

/// A tool spec as it appears in `gv.toml`. Two surface forms:
///   gopls = "latest"
///   [tools.gopls]
///   package = "golang.org/x/tools/gopls"
///   version = "v0.18.1"
#[derive(Debug, Clone)]
pub enum ToolSpec {
    Short(String),
    Long {
        package: Option<String>,
        version: String,
        /// Override the binary name installed by `go install`. Defaults to the
        /// last path segment of `package` (Go's own rule).
        bin: Option<String>,
    },
}

impl Default for Project {
    /// A project without a `gv.toml`.
    fn default() -> (r: Project)
        ensures
            r.go is None,
            r.tools@ == Map::<String, ToolSpec>::empty(),
    {
        Project { go: None, tools: BTreeMap::new() }
    }
}

impl ToolSpec {
    /// The version that a spec asks for.
    pub open spec fn wanted(self) -> Seq<char> {
        match self {
            ToolSpec::Short(v) => v@,
            ToolSpec::Long { version, .. } => version@,
        }
    }

    /// The package that a spec sets.
    pub open spec fn set_package(self) -> Option<Seq<char>> {
        match self {
            ToolSpec::Long { package: Some(p), .. } => Some(p@),
            _ => None,
        }
    }

    /// The binary name that a spec sets.
    pub open spec fn set_bin(self) -> Option<Seq<char>> {
        match self {
            ToolSpec::Long { bin: Some(b), .. } => Some(b@),
            _ => None,
        }
    }

    /// The version that the spec asks for.
    pub fn version(&self) -> (r: &str)
        ensures
            r@ == self.wanted(),
    {
        match self {
            ToolSpec::Short(v) => v.as_str(),
            ToolSpec::Long { version, .. } => version.as_str(),
        }
    }

    /// The package that the spec sets, where it sets one.
    pub fn package_override(&self) -> (r: Option<&str>)
        ensures
            r is Some <==> self.set_package() is Some,
            r matches Some(p) ==> self.set_package() == Some(p@),
    {
        match self {
            ToolSpec::Short(_) => None,
            ToolSpec::Long { package, .. } => match package {
                Some(p) => Some(p.as_str()),
                None => None,
            },
        }
    }

    /// The binary name that the spec sets, where it sets one.
    pub fn bin_override(&self) -> (r: Option<&str>)
        ensures
            r is Some <==> self.set_bin() is Some,
            r matches Some(b) ==> self.set_bin() == Some(b@),
    {
        match self {
            ToolSpec::Short(_) => None,
            ToolSpec::Long { bin, .. } => match bin {
                Some(b) => Some(b.as_str()),
                None => None,
            },
        }
    }
}

/// Which of the files that mark a root a directory has.
#[derive(Debug, Clone, Copy)]
pub struct Marks {
    pub gv_toml: bool,
    pub go_mod: bool,
    pub go_work: bool,
}

/// Whether a directory is a project root.
pub open spec fn is_root(m: Marks) -> bool {
    m.gv_toml || m.go_mod
}

/// Find the project root on the way up: the first directory with `go.mod` or
/// `gv.toml`. The directories are given from where the search starts; the
/// result counts from there.
pub fn find_root(dirs: &[Marks]) -> (r: Option<usize>)
    ensures
        match r {
            Some(i) => {
                &&& i < dirs@.len()
                &&& is_root(dirs@[i as int])
                &&& forall|j: int| 0 <= j < i ==> !is_root(#[trigger] dirs@[j])
            },
            None => forall|j: int| 0 <= j < dirs@.len() ==> !is_root(#[trigger] dirs@[j]),
        },
{
    let mut i: usize = 0;
    while i < dirs.len()
        invariant
            i <= dirs@.len(),
            forall|j: int| 0 <= j < i ==> !is_root(#[trigger] dirs@[j]),
        decreases dirs@.len() - i,
    {
        if dirs[i].gv_toml || dirs[i].go_mod {
            return Some(i);
        }
        i = i + 1;
    }
    None
}

} // verus!
