//! What the `gv` command decides and says.

use vstd::prelude::*;
use vstd::string::*;

use crate::install::InstallReport;
use crate::lock::LockedTool;
use crate::manifest::ToolchainSource;
use crate::paths;
use crate::paths::{joined, Paths};
use crate::platform::{arch_label, os_label, Platform};
use crate::release;
use crate::release::{normalized, Release};
use crate::resolve::{Resolved, ResolvedView};
use crate::text;
use crate::text::{base_ten, byte_prefix, splits_at, texts, writes_number};
use crate::tool;
use crate::tool::{pairs, tool_home};

verus! {

/// The text of an optional path, empty where there is none.
pub open spec fn shown(origin: Option<Seq<char>>) -> Seq<char> {
    match origin {
        Some(p) => p,
        None => Seq::empty(),
    }
}

/// The reason for a resolved version.
pub open spec fn reason(r: ResolvedView) -> Seq<char> {
    match r.source {
        ToolchainSource::EnvVar => "GV_VERSION"@,
        ToolchainSource::GoWork => "go.work toolchain ("@ + shown(r.origin) + ")"@,
        ToolchainSource::GoMod => "go.mod toolchain ("@ + shown(r.origin) + ")"@,
        ToolchainSource::GoVersionFile => ".go-version ("@ + shown(r.origin) + ")"@,
        ToolchainSource::Global => "global"@,
        ToolchainSource::LatestInstalled => "latest installed"@,
    }
}

/// The reason for a resolved version, for the user.
pub fn why(r: &Resolved) -> (s: String)
    ensures
        s@ == reason(r@),
{
    let origin = match &r.origin {
        Some(p) => p.clone(),
        None => String::new(),
    };
    match r.source {
        ToolchainSource::EnvVar => "GV_VERSION".to_owned(),
        ToolchainSource::GoWork => "go.work toolchain (".to_owned().concat(
            origin.as_str(),
        ).concat(")"),
        ToolchainSource::GoMod => "go.mod toolchain (".to_owned().concat(origin.as_str()).concat(
            ")",
        ),
        ToolchainSource::GoVersionFile => ".go-version (".to_owned().concat(
            origin.as_str(),
        ).concat(")"),
        ToolchainSource::Global => "global".to_owned(),
        ToolchainSource::LatestInstalled => "latest installed".to_owned(),
    }
}

/// What a command prints, line by line, and the code that it ends with.
#[derive(Debug)]
pub struct Output {
    pub lines: Vec<String>,
    pub code: u8,
}

/// `gv current`: the version that resolves, and why.
pub fn cmd_current(resolved: &Option<Resolved>) -> (r: Output)
    ensures
        match *resolved {
            Some(v) => texts(r.lines@) == seq![v.version@, "  source: "@ + reason(v@)] && r.code
                == 0,
            None => texts(r.lines@) == seq!["(no version resolved; run `gv install <version>`)"@]
                && r.code == 2,
        },
{
    match resolved {
        Some(v) => {
            let source = "  source: ".to_owned().concat(why(v).as_str());
            let lines = vec![v.version.clone(), source];
            assert(texts(lines@) =~= seq![v.version@, "  source: "@ + reason(v@)]);
            Output { lines, code: 0 }
        },
        None => {
            let lines = vec!["(no version resolved; run `gv install <version>`)".to_owned()];
            assert(texts(lines@) =~= seq!["(no version resolved; run `gv install <version>`)"@]);
            Output { lines, code: 2 }
        },
    }
}

/// The line for a release in the remote list.
pub open spec fn remote_line(r: Release) -> Seq<char> {
    (if r.stable {
        "stable"@
    } else {
        "  -   "@
    }) + "  "@ + r.version@
}

/// `gv list --remote`: every release of the index, stable ones marked.
pub fn list_remote(releases: &[Release]) -> (r: Vec<String>)
    ensures
        texts(r@) == releases@.map_values(|x: Release| remote_line(x)),
{
    let mut out: Vec<String> = Vec::new();
    let mut i: usize = 0;
    while i < releases.len()
        invariant
            i <= releases@.len(),
            out@.len() == i,
            forall|j: int| 0 <= j < i ==> (#[trigger] out@[j])@ == remote_line(releases@[j]),
        decreases releases@.len() - i,
    {
        let mark = if releases[i].stable {
            "stable"
        } else {
            "  -   "
        };
        out.push(mark.to_owned().concat("  ").concat(releases[i].version.as_str()));
        i = i + 1;
    }
    assert(texts(out@) =~= releases@.map_values(|x: Release| remote_line(x)));
    out
}

/// `gv list`: the installed toolchains, or a hint where there are none.
pub fn list_local(installed: Vec<String>) -> (r: Vec<String>)
    ensures
        installed@.len() > 0 ==> r@ == installed@,
        installed@.len() == 0 ==> texts(r@)
            == seq!["(no toolchains installed; try `gv install latest`)"@],
{
    if installed.len() == 0 {
        let r = vec!["(no toolchains installed; try `gv install latest`)".to_owned()];
        assert(texts(r@) =~= seq!["(no toolchains installed; try `gv install latest`)"@]);
        r
    } else {
        installed
    }
}

/// `gv install`: what is about to be installed.
pub fn installing_line(version: &str, platform: Platform) -> (r: String)
    ensures
        r@ == "→ installing "@ + version@ + " for "@ + os_label(platform.os) + "-"@ + arch_label(
            platform.arch,
        ),
{
    "→ installing ".to_owned().concat(version).concat(" for ").concat(platform.os.label()).concat(
        "-",
    ).concat(platform.arch.label())
}

/// `gv install`: what the report says.
pub fn install_lines(report: &InstallReport, link: &str) -> (r: Vec<String>)
    requires
        splits_at(report.sha256@, 12),
    ensures
        texts(r@) == seq![
            if report.already_present {
                "✓ "@ + report.version@ + " already in store ("@ + byte_prefix(
                    report.sha256@,
                    12,
                ) + ")"@
            } else {
                "✓ installed "@ + report.version@ + " ("@ + byte_prefix(report.sha256@, 12) + ")"@
            },
            "  → "@ + report.install_dir@,
            "  → linked: "@ + link@,
        ],
{
    let short = text::take_bytes(report.sha256.as_str(), 12);
    let head = if report.already_present {
        "✓ ".to_owned().concat(report.version.as_str()).concat(" already in store (").concat(
            short.as_str(),
        ).concat(")")
    } else {
        "✓ installed ".to_owned().concat(report.version.as_str()).concat(" (").concat(
            short.as_str(),
        ).concat(")")
    };
    let dir = "  → ".to_owned().concat(report.install_dir.as_str());
    let linked = "  → linked: ".to_owned().concat(link);
    let r = vec![head, dir, linked];
    assert(texts(r@) =~= seq![head@, dir@, linked@]);
    r
}

/// How a command runs under a toolchain.
#[derive(Debug)]
pub struct RunPlan {
    /// The program to run: the tool that the project pins, else the
    /// toolchain's own program of the name, else whatever the host finds under
    /// the name.
    pub exe: String,
    /// Its arguments.
    pub args: Vec<String>,
    /// What goes in front of the caller's search path.
    pub path_prefix: String,
    /// The environment, beside the search path and the caller's own.
    pub env: Vec<(String, String)>,
}

/// The environment that pins a toolchain: its root, and no downloads by Go
/// itself.
pub open spec fn pinned_env(paths: Paths, version: Seq<char>) -> Seq<(Seq<char>, Seq<char>)> {
    seq![("GOROOT"@, paths.dir_of(version)), ("GOTOOLCHAIN"@, "local"@)]
}

/// The environment that pins a toolchain.
pub fn toolchain_env(paths: &Paths, version: &str) -> (r: Vec<(String, String)>)
    ensures
        pairs(r@) == pinned_env(*paths, version@),
{
    let r = vec![
        ("GOROOT".to_owned(), paths.version_dir(version)),
        ("GOTOOLCHAIN".to_owned(), "local".to_owned()),
    ];
    assert(pairs(r@) =~= pinned_env(*paths, version@));
    r
}

/// Why `gv run` runs nothing.
#[derive(Debug)]
pub enum RunError {
    /// No command was given.
    Usage,
    /// No version resolves in this directory.
    NoVersion { cwd: String },
}

/// The program that a command runs.
pub open spec fn program_to_run(
    paths: Paths,
    version: Seq<char>,
    cmd: Seq<char>,
    pinned: Option<&LockedTool>,
    pinned_there: bool,
    in_toolchain: bool,
) -> Seq<char> {
    if pinned is Some && pinned_there {
        joined(tool_home(paths, pinned->0.name@, pinned->0.version@), pinned->0.bin@)
    } else if in_toolchain {
        paths.program_of(version, cmd)
    } else {
        cmd
    }
}

/// `gv run`: how to run the command line `argv`, given the version that
/// resolves in the directory `cwd`, the record of the tool of that name that
/// the project pins, whether the tool's binary is there, and whether the
/// toolchain has a program of that name.
pub fn cmd_run(
    paths: &Paths,
    argv: &[String],
    resolved: &Option<Resolved>,
    cwd: &str,
    pinned: Option<&LockedTool>,
    pinned_there: bool,
    in_toolchain: bool,
) -> (r: Result<RunPlan, RunError>)
    ensures
        match r {
            Err(RunError::Usage) => argv@.len() == 0,
            Err(RunError::NoVersion { cwd: c }) => argv@.len() > 0 && *resolved is None && c@
                == cwd@,
            Ok(plan) => {
                &&& argv@.len() > 0
                &&& *resolved is Some
                &&& plan.exe@ == program_to_run(
                    *paths,
                    (*resolved)->0.version@,
                    argv@[0]@,
                    pinned,
                    pinned_there,
                    in_toolchain,
                )
                &&& texts(plan.args@) == texts(argv@).skip(1)
                &&& plan.path_prefix@ == joined(paths.dir_of((*resolved)->0.version@), "bin"@)
                    + ":"@
                &&& pairs(plan.env@) == pinned_env(*paths, (*resolved)->0.version@)
            },
        },
{
    if argv.len() == 0 {
        return Err(RunError::Usage);
    }
    let version = match resolved {
        Some(r) => r.version.as_str(),
        None => {
            return Err(RunError::NoVersion { cwd: cwd.to_owned() });
        },
    };
    let cmd = argv[0].as_str();
    let from_toolchain = if in_toolchain {
        paths.program(version, cmd)
    } else {
        cmd.to_owned()
    };
    let exe = match pinned {
        Some(locked) => if pinned_there {
            tool::tool_bin_path(paths, locked)
        } else {
            from_toolchain
        },
        None => from_toolchain,
    };
    let mut args: Vec<String> = Vec::new();
    let mut i: usize = 1;
    while i < argv.len()
        invariant
            1 <= i <= argv@.len(),
            args@.len() == i - 1,
            forall|j: int| 0 <= j < args@.len() ==> (#[trigger] args@[j])@ == argv@[j + 1]@,
        decreases argv@.len() - i,
    {
        args.push(argv[i].clone());
        i = i + 1;
    }
    assert(texts(args@) =~= texts(argv@).skip(1));
    let bin_dir = paths::join(paths.version_dir(version).as_str(), "bin");
    Ok(
        RunPlan { exe, args, path_prefix: bin_dir.concat(":"), env: toolchain_env(paths, version) },
    )
}

impl RunError {
    /// The message for the user.
    pub fn message(&self) -> (r: String)
        ensures
            r@ == match *self {
                RunError::Usage => "usage: gv run <cmd> [args...]"@,
                RunError::NoVersion { cwd } => "no Go version resolved in "@ + cwd@,
            },
    {
        match self {
            RunError::Usage => "usage: gv run <cmd> [args...]".to_owned(),
            RunError::NoVersion { cwd } => {
                "no Go version resolved in ".to_owned().concat(cwd.as_str())
            },
        }
    }
}

/// A tool that a project pins, and whose binary is there, is what runs,
/// whatever the toolchain has under the name.
pub proof fn law_pinned_tool_runs_first(
    paths: Paths,
    version: Seq<char>,
    cmd: Seq<char>,
    locked: LockedTool,
    in_toolchain: bool,
)
    ensures
        program_to_run(paths, version, cmd, Some(&locked), true, in_toolchain) == joined(
            tool_home(paths, locked.name@, locked.version@),
            locked.bin@,
        ),
{
}

/// The code that `gv run` ends with: the low byte of the child's, or 1 where
/// the child has none.
pub fn exit_code(code: Option<i32>) -> (r: u8)
    ensures
        r as int == match code {
            Some(c) => c as int % 256,
            None => 1,
        },
{
    match code {
        Some(c) => {
            let low = (c & 255) as u8;
            assert((c & 255) >= 0 && (c & 255) < 256) by (bit_vector);
            proof {
                lemma_low_byte(c);
            }
            low
        },
        None => 1,
    }
}

proof fn lemma_low_byte(c: i32)
    ensures
        (c & 255) as int == c as int % 256,
{
    assert(c >= 0 ==> (c & 255) == c % 256) by (bit_vector);
    if c < 0 {
        let m: i32 = (-(c + 1)) as i32;
        assert((c & 255) == 255 - (m & 255) && (m & 255) == m % 256) by (bit_vector)
            requires
                c < 0,
                m == -(c + 1),
        ;
    }
}

/// Why `gv which` has no path to print.
#[derive(Debug)]
pub enum WhichError {
    /// No version resolves in this directory.
    NoVersion { cwd: String },
    /// The version in this directory has no program of the name.
    NotFound { tool: String, version_dir: String },
}

/// `gv which`: the path of a program of the version that resolves in the
/// directory `cwd`, given whether it is there.
pub fn cmd_which(
    paths: &Paths,
    tool: &str,
    resolved: &Option<Resolved>,
    cwd: &str,
    there: bool,
) -> (r: Result<String, WhichError>)
    ensures
        match r {
            Err(WhichError::NoVersion { cwd: c }) => *resolved is None && c@ == cwd@,
            Err(WhichError::NotFound { tool: t, version_dir }) => {
                &&& *resolved is Some
                &&& !there
                &&& t@ == tool@
                &&& version_dir@ == paths.dir_of((*resolved)->0.version@)
            },
            Ok(bin) => {
                &&& *resolved is Some
                &&& there
                &&& bin@ == paths.program_of((*resolved)->0.version@, tool@)
            },
        },
{
    match resolved {
        None => Err(WhichError::NoVersion { cwd: cwd.to_owned() }),
        Some(r) => if there {
            Ok(paths.program(r.version.as_str(), tool))
        } else {
            Err(
                WhichError::NotFound {
                    tool: tool.to_owned(),
                    version_dir: paths.version_dir(r.version.as_str()),
                },
            )
        },
    }
}

impl WhichError {
    /// The message for the user.
    pub fn message(&self) -> (r: String)
        ensures
            r@ == match *self {
                WhichError::NoVersion { cwd } => "no Go version resolved in "@ + cwd@,
                WhichError::NotFound { tool, version_dir } => tool@ + " not found in "@
                    + version_dir@ + " (is the toolchain installed?)"@,
            },
    {
        match self {
            WhichError::NoVersion { cwd } => {
                "no Go version resolved in ".to_owned().concat(cwd.as_str())
            },
            WhichError::NotFound { tool, version_dir } => {
                tool.clone().concat(" not found in ").concat(version_dir.as_str()).concat(
                    " (is the toolchain installed?)",
                )
            },
        }
    }
}

/// What `gv use-global` writes and says.
#[derive(Debug)]
pub struct GlobalPlan {
    pub file: String,
    pub content: String,
    pub line: String,
}

/// `gv use-global`: the canonical form of the version goes into the file with
/// the global version.
pub fn cmd_use_global(paths: &Paths, version: &str) -> (r: GlobalPlan)
    ensures
        r.file@ == paths.global_file(),
        r.content@ == normalized(version@),
        r.line@ == "✓ global → "@ + normalized(version@),
{
    let content = release::normalize_version(version);
    let line = "✓ global → ".to_owned().concat(content.as_str());
    GlobalPlan { file: paths.global_version_file(), content, line }
}

/// The name of a source.
pub open spec fn source_name(source: ToolchainSource) -> Seq<char> {
    match source {
        ToolchainSource::EnvVar => "EnvVar"@,
        ToolchainSource::GoWork => "GoWork"@,
        ToolchainSource::GoMod => "GoMod"@,
        ToolchainSource::GoVersionFile => "GoVersionFile"@,
        ToolchainSource::Global => "Global"@,
        ToolchainSource::LatestInstalled => "LatestInstalled"@,
    }
}

/// The name of a source.
fn name_of(source: ToolchainSource) -> (r: &'static str)
    ensures
        r@ == source_name(source),
{
    match source {
        ToolchainSource::EnvVar => "EnvVar",
        ToolchainSource::GoWork => "GoWork",
        ToolchainSource::GoMod => "GoMod",
        ToolchainSource::GoVersionFile => "GoVersionFile",
        ToolchainSource::Global => "Global",
        ToolchainSource::LatestInstalled => "LatestInstalled",
    }
}

/// `gv doctor`, the lines on the host and the directories.
pub fn doctor_head(platform: Platform, paths: &Paths) -> (r: Vec<String>)
    ensures
        texts(r@) == seq![
            "gv doctor"@,
            "  platform   : "@ + (os_label(platform.os) + "-"@ + arch_label(platform.arch)),
            "  data dir   : "@ + paths.data@,
            "  config dir : "@ + paths.config@,
            "  cache dir  : "@ + paths.cache@,
        ],
{
    let host = "  platform   : ".to_owned().concat(platform.release_suffix());
    let data = "  data dir   : ".to_owned().concat(paths.data.as_str());
    let config = "  config dir : ".to_owned().concat(paths.config.as_str());
    let cache = "  cache dir  : ".to_owned().concat(paths.cache.as_str());
    let r = vec!["gv doctor".to_owned(), host, data, config, cache];
    assert(texts(r@) =~= seq!["gv doctor"@, host@, data@, config@, cache@]);
    r
}

/// `gv doctor`, the lines on the installed toolchains: how many there are, and
/// the first eight.
pub fn doctor_installed(installed: &[String]) -> (r: Vec<String>)
    ensures
        exists|count: Seq<char>|
            {
                &&& writes_number(count, installed@.len() as int)
                &&& r@.len() > 0
                &&& #[trigger] r@[0]@ == "  installed  : "@ + count + " version(s)"@
            },
        r@.len() > 0 && r@[0]@ == "  installed  : "@ + base_ten(installed@.len()) + " version(s)"@,
        r@.len() == 1 + (if installed@.len() < 8 {
            installed@.len() as int
        } else {
            8
        }),
        forall|i: int| 1 <= i < r@.len() ==> (#[trigger] r@[i])@ == "    - "@ + installed@[i - 1]@,
{
    let count = text::number_text(installed.len());
    let head = "  installed  : ".to_owned().concat(count.as_str()).concat(" version(s)");
    let mut r: Vec<String> = vec![head];
    let mut i: usize = 0;
    while i < installed.len() && i < 8
        invariant
            i <= installed@.len(),
            i <= 8,
            r@.len() == i + 1,
            r@[0] == head,
            forall|j: int| 1 <= j < r@.len() ==> (#[trigger] r@[j])@ == "    - "@ + installed@[j
                - 1]@,
        decreases 8 - i,
    {
        r.push("    - ".to_owned().concat(installed[i].as_str()));
        i = i + 1;
    }
    r
}

/// `gv doctor`, the line on the version that resolves.
pub fn doctor_resolved(resolved: &Option<Resolved>) -> (r: String)
    ensures
        r@ == match *resolved {
            Some(v) => "  resolved   : "@ + v.version@ + " (from "@ + source_name(v.source) + ")"@,
            None => "  resolved   : (none)"@,
        },
{
    match resolved {
        Some(v) => "  resolved   : ".to_owned().concat(v.version.as_str()).concat(
            " (from ",
        ).concat(name_of(v.source)).concat(")"),
        None => "  resolved   : (none)".to_owned(),
    }
}

} // verus!
