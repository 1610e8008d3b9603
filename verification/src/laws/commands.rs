//! Laws of the commands and the shim: what is said, and what is run.

use vstd::prelude::*;

use crate::cli::{pinned_env, program_to_run, reason, remote_line, source_name};
use crate::constraint::SemVer;
use crate::laws::text::law_ends;
use crate::lock::{is_first_record, LockedTool};
use crate::manifest::{HitView, ToolchainHit, ToolchainSource};
use crate::paths::{joined, Paths};
use crate::registry::RegistryEntry;
use crate::release::Release;
use crate::resolve::{Resolved, ResolvedView};
use crate::search::Search;
use crate::shim::{choice, second_name, Choice};
use crate::tool::pairs;

verus! {

/// The reason for a version names its source, and the file where it came from
/// one in the project.
pub proof fn law_reason(version: Seq<char>, file: Seq<char>, source: ToolchainSource)
    ensures
        reason(ResolvedView { version, source, origin: Some(file) }) == (match source {
            ToolchainSource::EnvVar => "GV_VERSION"@,
            ToolchainSource::GoWork => "go.work toolchain ("@ + file + ")"@,
            ToolchainSource::GoMod => "go.mod toolchain ("@ + file + ")"@,
            ToolchainSource::GoVersionFile => ".go-version ("@ + file + ")"@,
            ToolchainSource::Global => "global"@,
            ToolchainSource::LatestInstalled => "latest installed"@,
        }),
        source is EnvVar ==> reason(ResolvedView { version, source, origin: None })
            == "GV_VERSION"@,
        source is LatestInstalled ==> reason(ResolvedView { version, source, origin: None })
            == "latest installed"@,
{
}

/// A source goes by its own name.
pub proof fn law_source_name()
    ensures
        source_name(ToolchainSource::EnvVar) == "EnvVar"@,
        source_name(ToolchainSource::GoWork) == "GoWork"@,
        source_name(ToolchainSource::GoMod) == "GoMod"@,
        source_name(ToolchainSource::GoVersionFile) == "GoVersionFile"@,
        source_name(ToolchainSource::Global) == "Global"@,
        source_name(ToolchainSource::LatestInstalled) == "LatestInstalled"@,
{
}

/// A release is listed with its version, and with a mark that is as wide for
/// the stable ones as for the others.
pub proof fn law_remote_line(r: Release)
    ensures
        r.stable ==> remote_line(r) == "stable  "@ + r.version@,
        !r.stable ==> remote_line(r) == "  -     "@ + r.version@,
{
    reveal_strlit("stable");
    reveal_strlit("stable  ");
    reveal_strlit("  -   ");
    reveal_strlit("  -     ");
    reveal_strlit("  ");
    if r.stable {
        assert(remote_line(r) == "stable  "@ + r.version@);
    } else {
        assert(remote_line(r) == "  -     "@ + r.version@);
    }
}

/// Whatever runs under a version has that version's directory as its root, and
/// no leave to download another toolchain.
pub proof fn law_pinned_env(paths: Paths, version: Seq<char>)
    ensures
        pinned_env(paths, version).len() == 2,
        pinned_env(paths, version)[0] == (
            "GOROOT"@,
            joined(joined(paths.data@, "versions"@), version),
        ),
        pinned_env(paths, version)[1] == ("GOTOOLCHAIN"@, "local"@),
{
}

/// Names and values are taken as they are.
pub proof fn law_pairs(v: Seq<(String, String)>)
    ensures
        pairs(v).len() == v.len(),
        forall|i: int| 0 <= i < v.len() ==> #[trigger] pairs(v)[i] == (v[i].0@, v[i].1@),
{
}

/// What runs is the project's pinned tool where its binary is there, else the
/// toolchain's program where there is one, else what the host finds.
pub proof fn law_program_to_run(
    paths: Paths,
    version: Seq<char>,
    cmd: Seq<char>,
    locked: LockedTool,
    there: bool,
)
    ensures
        program_to_run(paths, version, cmd, Some(&locked), true, there) == joined(
            joined(joined(joined(paths.data@, "tools"@), locked.name@), locked.version@),
            locked.bin@,
        ),
        program_to_run(paths, version, cmd, Some(&locked), false, true) == joined(
            joined(paths.dir_of(version), "bin"@),
            cmd,
        ),
        program_to_run(paths, version, cmd, Some(&locked), false, false) == cmd,
        program_to_run(paths, version, cmd, None, there, true) == joined(
            joined(paths.dir_of(version), "bin"@),
            cmd,
        ),
        program_to_run(paths, version, cmd, None, there, false) == cmd,
{
}

/// The record of a pinned tool is the first one of its name.
pub proof fn law_first_record(locked: Seq<LockedTool>, name: Seq<char>, i: int, j: int)
    requires
        is_first_record(locked, name, i),
    ensures
        0 <= i < locked.len(),
        locked[i].name@ == name,
        0 <= j < i ==> locked[j].name@ != name,
{
}

/// The second name to try for a tool has the host's suffix, once.
pub proof fn law_second_name(tool: Seq<char>, suffix: Seq<char>)
    ensures
        suffix.len() == 0 ==> second_name(tool, suffix) == tool,
        second_name(tool + suffix, suffix) == tool + suffix,
        suffix.len() > 0 && !(tool.len() >= suffix.len() && tool.skip(tool.len() - suffix.len())
            == suffix) ==> second_name(tool, suffix) == tool + suffix,
{
    law_ends(tool, suffix);
}

/// The shim runs the program of the tool's own name where it is there, else the
/// one with the suffix, else none.
pub proof fn law_choice(other: bool)
    ensures
        choice(true, other) == Choice::Plain,
        choice(false, true) == Choice::Suffixed,
        choice(false, false) == Choice::Missing,
{
}

/// Values are as they look: their views have the same texts, numbers, sources
/// and files, and a search keeps how far it has come.
pub proof fn law_views(
    hit: ToolchainHit,
    r: Resolved,
    v: SemVer,
    e: RegistryEntry,
    s: Search<ToolchainHit>,
)
    ensures
        v@ == (v.major, v.minor, v.patch, v.pre@, v.build@),
        e@ == (e.name@, e.package@),
        s matches Search::Found(h) ==> s@ == Search::Found(h@),
        s matches Search::Read(q) ==> s@ == Search::<HitView>::Read(q),
        s matches Search::Failed(q) ==> s@ == Search::<HitView>::Failed(q),
        s is NotFound ==> s@ is NotFound,
        hit@ == (HitView { version: hit.version@, source: hit.source, origin: hit.origin@ }),
        r@.version == r.version@,
        r@.source == r.source,
        r@.origin is Some <==> r.origin is Some,
        r.origin matches Some(p) ==> r@.origin == Some(p@),
{
}

} // verus!
