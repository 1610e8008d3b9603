//! Resolve and install Go tools (gopls, golangci-lint, etc.), replacing
//! `go install` with sha256-pinned, lockfile-tracked installs.
//!
//! Resolving asks the module proxy and the checksum database; installing runs
//! `go install`. Both are written as steps: the library says what to do next,
//! the caller does it and hands back what came of it.

use vstd::prelude::*;
use vstd::string::*;

use crate::constraint;
use crate::constraint::{constraint_text, picked};
use crate::digest;
use crate::digest::sha256_text;
use crate::lock::LockedTool;
use crate::paths;
use crate::paths::{joined, Paths};
use crate::project::ToolSpec;
use crate::proxy;
use crate::proxy::{
    is_missing, is_success, latest_at, module_above, parent_path, zip_hash, NoHash, VersionInfo, Walk,
};
use crate::registry;
use crate::registry::known_package;
use crate::text;
use crate::text::{is_digit, last_piece, texts, trimmed};

verus! {

/// A tool with everything about it settled.
#[derive(Debug, Clone)]
pub struct ResolvedTool {
    /// The short name in gv.toml, e.g. "gopls".
    pub name: String,
    /// The full Go package path.
    pub package: String,
    /// The concrete version, e.g. "v0.18.1".
    pub version: String,
    /// The name of the binary that `go install` produces.
    pub bin: String,
    /// The hash of the module's zip, from the checksum database.
    pub module_hash: String,
}

/// Why a tool could not be resolved.
#[derive(Debug)]
pub enum ToolError {
    /// The registry does not know the name, and no package is set for it.
    UnknownTool { name: String },
    /// No prefix of the package is a module.
    NoModule { package: String },
    /// The proxy answered with a status that says nothing about the module.
    UnexpectedStatus { status: u16, url: String },
    /// No version of the module satisfies the constraint.
    NoVersion { module: String, constraint: String },
    /// The checksum database has no hash of the module's zip.
    NoHash(NoHash),
}

/// Whether a path segment is a major-version marker: `v` and digits.
pub open spec fn major_marker(s: Seq<char>) -> bool {
    &&& s.len() > 1
    &&& s[0] == 'v'
    &&& forall|i: int| 1 <= i < s.len() ==> is_digit(#[trigger] s[i])
}

/// Whether a path segment is a major-version marker such as `v2`.
pub fn is_major_marker(s: &str) -> (r: bool)
    ensures
        r == major_marker(s@),
{
    let v = text::chars(s);
    if v.len() <= 1 || v[0] != 'v' {
        return false;
    }
    let mut i: usize = 1;
    while i < v.len()
        invariant
            1 <= i <= v@.len(),
            v@ == s@,
            forall|j: int| 1 <= j < i ==> is_digit(#[trigger] v@[j]),
        decreases v@.len() - i,
    {
        if !text::digit(v[i]) {
            assert(!is_digit(v@[i as int]));
            return false;
        }
        i = i + 1;
    }
    true
}

/// The part of a path in front of its last segment and the slash before it.
pub open spec fn without_last(package: Seq<char>) -> Seq<char> {
    package.take(package.len() - last_piece(package, '/').len() - 1)
}

/// Whether a package path ends in `/vN`.
pub open spec fn has_trailing_marker(package: Seq<char>) -> bool {
    let last = last_piece(package, '/');
    major_marker(last) && last.len() < package.len()
}

/// The segment of a package path that names the binary: the last one, or the
/// one before a trailing `/vN`.
pub open spec fn binary_segment(package: Seq<char>) -> Seq<char> {
    if has_trailing_marker(package) {
        last_piece(without_last(package), '/')
    } else {
        last_piece(package, '/')
    }
}

/// The name that `go install` gives the binary: the last path segment,
/// ignoring any trailing `/vN` major-version marker, and the suffix that the
/// host has for executables.
pub fn default_binary_name(package: &str, exe_suffix: &str) -> (r: String)
    ensures
        r@ == binary_segment(package@) + exe_suffix@,
{
    let mut last = text::last_of(package, '/');
    proof {
        text::lemma_last_piece(package@, '/');
    }
    let v = text::chars(package);
    let tail = text::chars(last.as_str());
    if tail.len() < v.len() && is_major_marker(last.as_str()) {
        let cut = v.len() - tail.len() - 1;
        assert(v@.subrange(0, cut as int) == without_last(package@));
        let head = text::slice(&v, 0, cut);
        last = text::last_of(head.as_str(), '/');
    }
    last.concat(exe_suffix)
}

/// A trailing major-version marker does not change the name of the binary.
pub proof fn law_major_marker_is_ignored(package: Seq<char>, marker: Seq<char>)
    requires
        major_marker(marker),
        !has_trailing_marker(package),
    ensures
        binary_segment(package + "/"@ + marker) == binary_segment(package),
{
    reveal_strlit("/");
    let whole = package + "/"@ + marker;
    assert forall|i: int| 0 <= i < marker.len() implies marker[i] != '/' by {
        if i > 0 {
            assert(is_digit(marker[i]));
        }
    }
    lemma_last_piece_behind_slash(package, marker);
    assert(without_last(whole) == package);
}

proof fn lemma_last_piece_behind_slash(head: Seq<char>, tail: Seq<char>)
    requires
        forall|i: int| 0 <= i < tail.len() ==> tail[i] != '/',
    ensures
        last_piece(head + "/"@ + tail, '/') == tail,
    decreases tail.len(),
{
    reveal_strlit("/");
    let whole = head + "/"@ + tail;
    if tail.len() == 0 {
        assert(whole.last() == '/');
    } else {
        assert(whole.drop_last() == head + "/"@ + tail.drop_last());
        lemma_last_piece_behind_slash(head, tail.drop_last());
        assert(tail.drop_last().push(tail.last()) == tail);
    }
}

/// The directory of one version of a tool.
pub open spec fn tool_home(paths: Paths, name: Seq<char>, version: Seq<char>) -> Seq<char> {
    joined(joined(joined(paths.data@, "tools"@), name), version)
}

/// The directory of one version of a tool.
pub fn tool_dir(paths: &Paths, name: &str, version: &str) -> (r: String)
    ensures
        r@ == tool_home(*paths, name@, version@),
{
    let tools = paths::join(paths.data.as_str(), "tools");
    paths::join(paths::join(tools.as_str(), name).as_str(), version)
}

/// The binary of a locked tool.
pub fn tool_bin_path(paths: &Paths, locked: &LockedTool) -> (r: String)
    ensures
        r@ == joined(tool_home(*paths, locked.name@, locked.version@), locked.bin@),
{
    let dir = tool_dir(paths, locked.name.as_str(), locked.version.as_str());
    paths::join(dir.as_str(), locked.bin.as_str())
}

/// What is known of a tool before anyone is asked.
#[derive(Debug, Clone)]
pub struct ToolQuery {
    pub name: String,
    pub package: String,
    /// The version text of the spec, without whitespace around it.
    pub wanted: String,
    pub bin: Option<String>,
}

/// The package of a tool: the one that its spec sets, else the registry's.
pub open spec fn package_of(name: Seq<char>, spec: ToolSpec) -> Option<Seq<char>> {
    match spec.set_package() {
        Some(p) => Some(p),
        None => known_package(name),
    }
}

/// Start to resolve a tool: settle its package.
pub fn start(name: &str, spec: &ToolSpec) -> (r: Result<ToolQuery, ToolError>)
    ensures
        match r {
            Ok(q) => {
                &&& q.name@ == name@
                &&& package_of(name@, *spec) == Some(q.package@)
                &&& q.wanted@ == trimmed(spec.wanted())
                &&& q.bin is Some <==> spec.set_bin() is Some
                &&& q.bin matches Some(b) ==> spec.set_bin() == Some(b@)
            },
            Err(e) => package_of(name@, *spec) is None && (e matches ToolError::UnknownTool {
                name: n,
            } && n@ == name@),
        },
{
    let package = match spec.package_override() {
        Some(p) => p.to_owned(),
        None => match registry::lookup(name) {
            Some(e) => e.package.to_owned(),
            None => {
                return Err(ToolError::UnknownTool { name: name.to_owned() });
            },
        },
    };
    let bin = match spec.bin_override() {
        Some(b) => Some(b.to_owned()),
        None => None,
    };
    Ok(ToolQuery { name: name.to_owned(), package, wanted: text::trim(spec.version()), bin })
}

/// What to ask next to resolve a tool.
#[derive(Debug)]
pub enum ToolStep {
    /// Ask the proxy for the latest version of this path.
    FindModule { candidate: String },
    /// Ask the proxy for the versions of this module.
    ListVersions { module: String },
    /// Ask the checksum database about this version of this module.
    FetchHash { module: String, version: String },
}

/// What came back.
#[derive(Debug)]
pub enum ToolReply {
    /// The proxy knows the module; this is its latest version.
    Latest(VersionInfo),
    /// The proxy answered with this status, which reports no success.
    Status(u16),
    /// The versions of the module.
    Versions(Vec<String>),
    /// The answer of the checksum database.
    Sum(String),
}

/// What follows from a reply.
#[derive(Debug)]
pub enum ToolOutcome {
    Next(ToolStep),
    Resolved(ResolvedTool),
    Failed(ToolError),
}

/// Whether a reply is one to the question.
pub open spec fn answers(step: ToolStep, reply: ToolReply) -> bool {
    match (step, reply) {
        (ToolStep::FindModule { .. }, ToolReply::Latest(_)) => true,
        (ToolStep::FindModule { .. }, ToolReply::Status(s)) => !is_success(s),
        (ToolStep::ListVersions { .. }, ToolReply::Versions(_)) => true,
        (ToolStep::FetchHash { .. }, ToolReply::Sum(_)) => true,
        _ => false,
    }
}

/// Whether the version text asks for the latest version.
pub open spec fn wants_latest(wanted: Seq<char>) -> bool {
    wanted == "latest"@ || wanted == "*"@
}

/// A step as the contracts speak of it.
pub ghost enum StepView {
    FindModule { candidate: Seq<char> },
    ListVersions { module: Seq<char> },
    FetchHash { module: Seq<char>, version: Seq<char> },
}

impl View for ToolStep {
    type V = StepView;

    open spec fn view(&self) -> StepView {
        match *self {
            ToolStep::FindModule { candidate } => StepView::FindModule { candidate: candidate@ },
            ToolStep::ListVersions { module } => StepView::ListVersions { module: module@ },
            ToolStep::FetchHash { module, version } => StepView::FetchHash {
                module: module@,
                version: version@,
            },
        }
    }
}

/// The question to ask first.
pub fn first_step(query: &ToolQuery) -> (r: ToolStep)
    ensures
        r@ == (StepView::FindModule { candidate: query.package@ }),
{
    ToolStep::FindModule { candidate: query.package.clone() }
}

/// The question that follows once the module is known: an unbounded spec
/// takes its latest version, a constraint needs the list of versions, and a
/// plain version stands as it is.
pub open spec fn after_module(
    wanted: Seq<char>,
    module: Seq<char>,
    latest: Seq<char>,
) -> StepView {
    if wants_latest(wanted) {
        StepView::FetchHash { module, version: latest }
    } else if constraint_text(wanted) {
        StepView::ListVersions { module }
    } else {
        StepView::FetchHash { module, version: wanted }
    }
}

/// The binary name of a tool.
pub open spec fn bin_name(query: ToolQuery, exe_suffix: Seq<char>) -> Seq<char> {
    match query.bin {
        Some(b) => b@,
        None => binary_segment(query.package@) + exe_suffix,
    }
}

/// Whether an outcome is the one that follows from a reply.
pub open spec fn follows(
    query: ToolQuery,
    exe_suffix: Seq<char>,
    step: ToolStep,
    reply: ToolReply,
    r: ToolOutcome,
) -> bool {
    match (step, reply) {
        (ToolStep::FindModule { candidate }, ToolReply::Latest(info)) => {
            r matches ToolOutcome::Next(next) && next@ == after_module(
                query.wanted@,
                candidate@,
                info.version@,
            )
        },
        (ToolStep::FindModule { candidate }, ToolReply::Status(s)) => if !is_missing(s) {
            r matches ToolOutcome::Failed(ToolError::UnexpectedStatus { status, url }) && status
                == s && url@ == latest_at(candidate@)
        } else {
            match parent_path(candidate@) {
                Some(up) => r matches ToolOutcome::Next(next) && next@ == (StepView::FindModule {
                    candidate: up,
                }),
                None => r matches ToolOutcome::Failed(ToolError::NoModule { package }) && package@
                    == query.package@,
            }
        },
        (ToolStep::ListVersions { module }, ToolReply::Versions(versions)) => match picked(
            texts(versions@),
            query.wanted@,
        ) {
            Some(i) => r matches ToolOutcome::Next(next) && next@ == (StepView::FetchHash {
                module: module@,
                version: texts(versions@)[i as int],
            }),
            None => r matches ToolOutcome::Failed(ToolError::NoVersion { module: m, constraint })
                && m@ == module@ && constraint@ == query.wanted@,
        },
        (ToolStep::FetchHash { module, version }, ToolReply::Sum(body)) => match zip_hash(
            body@,
            module@,
            version@,
        ) {
            Some(hash) => r matches ToolOutcome::Resolved(t) && t.name@ == query.name@ && t.package@
                == query.package@ && t.version@ == version@ && t.bin@ == bin_name(query, exe_suffix)
                && t.module_hash@ == hash,
            None => r matches ToolOutcome::Failed(ToolError::NoHash(e)) && e.module@ == module@
                && e.version@ == version@,
        },
        _ => false,
    }
}

/// Decide what follows from a reply.
pub fn advance(query: &ToolQuery, exe_suffix: &str, step: ToolStep, reply: &ToolReply) -> (r:
    ToolOutcome)
    requires
        answers(step, *reply),
    ensures
        follows(*query, exe_suffix@, step, *reply, r),
{
    match (step, reply) {
        (ToolStep::FindModule { candidate }, ToolReply::Latest(info)) => {
            if text::same(query.wanted.as_str(), "latest") || text::same(
                query.wanted.as_str(),
                "*",
            ) {
                ToolOutcome::Next(
                    ToolStep::FetchHash { module: candidate, version: info.version.clone() },
                )
            } else if constraint::is_constraint(query.wanted.as_str()) {
                ToolOutcome::Next(ToolStep::ListVersions { module: candidate })
            } else {
                ToolOutcome::Next(
                    ToolStep::FetchHash { module: candidate, version: query.wanted.clone() },
                )
            }
        },
        (ToolStep::FindModule { candidate }, ToolReply::Status(status)) => {
            match proxy::walk_up(candidate.as_str(), *status) {
                Walk::Next(up) => ToolOutcome::Next(ToolStep::FindModule { candidate: up }),
                Walk::NoModule => ToolOutcome::Failed(
                    ToolError::NoModule { package: query.package.clone() },
                ),
                _ => ToolOutcome::Failed(
                    ToolError::UnexpectedStatus {
                        status: *status,
                        url: proxy::latest_url(candidate.as_str()),
                    },
                ),
            }
        },
        (ToolStep::ListVersions { module }, ToolReply::Versions(versions)) => {
            match constraint::pick_max_satisfying(versions, query.wanted.as_str()) {
                Some(version) => ToolOutcome::Next(ToolStep::FetchHash { module, version }),
                None => ToolOutcome::Failed(
                    ToolError::NoVersion { module, constraint: query.wanted.clone() },
                ),
            }
        },
        (ToolStep::FetchHash { module, version }, ToolReply::Sum(body)) => {
            match proxy::parse_sumdb_lookup(body.as_str(), module.as_str(), version.as_str()) {
                Ok(module_hash) => {
                    let bin = match &query.bin {
                        Some(b) => b.clone(),
                        None => default_binary_name(query.package.as_str(), exe_suffix),
                    };
                    ToolOutcome::Resolved(
                        ResolvedTool {
                            name: query.name.clone(),
                            package: query.package.clone(),
                            version,
                            bin,
                            module_hash,
                        },
                    )
                },
                Err(e) => ToolOutcome::Failed(ToolError::NoHash(e)),
            }
        },
        // No other reply answers a step.
        (step, _) => ToolOutcome::Next(step),
    }
}

impl ToolError {
    /// The message for the user. The text of an unexpected status is the
    /// caller's.
    pub fn message(&self, status_text: &str) -> (r: String)
        ensures
            r@ == match *self {
                ToolError::UnknownTool { name } => "unknown tool '"@ + name@
                    + "': either pick from the built-in registry or set package = \"...\" in gv.toml"@,
                ToolError::NoModule { package } => "could not resolve any module path containing "@
                    + package@,
                ToolError::UnexpectedStatus { url, .. } => "unexpected status "@ + status_text@
                    + " for "@ + url@,
                ToolError::NoVersion { module, constraint } => "no version of "@ + module@
                    + " satisfies '"@ + constraint@ + "'"@,
                ToolError::NoHash(e) => "could not find h1 hash for "@ + e.module@ + "@"@
                    + e.version@ + " in sumdb response"@,
            },
    {
        match self {
            ToolError::UnknownTool { name } => {
                "unknown tool '".to_owned().concat(name.as_str()).concat(
                    "': either pick from the built-in registry or set package = \"...\" in gv.toml",
                )
            },
            ToolError::NoModule { package } => {
                "could not resolve any module path containing ".to_owned().concat(package.as_str())
            },
            ToolError::UnexpectedStatus { url, .. } => {
                "unexpected status ".to_owned().concat(status_text).concat(" for ").concat(
                    url.as_str(),
                )
            },
            ToolError::NoVersion { module, constraint } => {
                "no version of ".to_owned().concat(module.as_str()).concat(" satisfies '").concat(
                    constraint.as_str(),
                ).concat("'")
            },
            ToolError::NoHash(e) => e.message(),
        }
    }
}

/// A package that a spec sets is taken as it is: the registry plays no part.
pub proof fn law_set_package_bypasses_registry(name: Seq<char>, spec: ToolSpec)
    requires
        spec.set_package() is Some,
    ensures
        package_of(name, spec) == spec.set_package(),
{
}

/// Whether the steps are those of one resolution with the given replies.
pub open spec fn is_resolution(
    query: ToolQuery,
    exe_suffix: Seq<char>,
    steps: Seq<ToolStep>,
    replies: Seq<ToolReply>,
) -> bool {
    &&& steps.len() > 0
    &&& steps.len() <= replies.len()
    &&& steps[0]@ == (StepView::FindModule { candidate: query.package@ })
    &&& forall|i: int|
        0 <= i < steps.len() - 1 ==> answers(#[trigger] steps[i], replies[i]) && follows(
            query,
            exe_suffix,
            steps[i],
            replies[i],
            ToolOutcome::Next(steps[i + 1]),
        )
}

/// The module path that a step is about.
pub open spec fn path_of(step: StepView) -> Seq<char> {
    match step {
        StepView::FindModule { candidate } => candidate,
        StepView::ListVersions { module } => module,
        StepView::FetchHash { module, .. } => module,
    }
}

/// How many more steps there can be.
spec fn steps_left(step: StepView) -> nat {
    match step {
        StepView::FindModule { candidate } => candidate.len() + 2,
        StepView::ListVersions { .. } => 1,
        StepView::FetchHash { .. } => 0,
    }
}

/// Every path that a resolution asks about is the package's own or one above
/// it.
pub proof fn law_resolution_stays_above_the_package(
    query: ToolQuery,
    exe_suffix: Seq<char>,
    steps: Seq<ToolStep>,
    replies: Seq<ToolReply>,
    i: int,
)
    requires
        is_resolution(query, exe_suffix, steps, replies),
        0 <= i < steps.len(),
    ensures
        proxy::is_above(path_of(steps[i]@), query.package@),
    decreases i,
{
    if i > 0 {
        law_resolution_stays_above_the_package(query, exe_suffix, steps, replies, i - 1);
        let was = path_of(steps[i - 1]@);
        assert(answers(steps[i - 1], replies[i - 1]));
        if path_of(steps[i]@) != was {
            proxy::lemma_parent_is_above(was, query.package@);
        }
    }
}

/// A version that is neither `latest` nor a constraint is taken verbatim: it
/// is the only one whose hash a resolution asks for.
pub proof fn law_plain_version_is_taken_verbatim(
    query: ToolQuery,
    exe_suffix: Seq<char>,
    steps: Seq<ToolStep>,
    replies: Seq<ToolReply>,
    i: int,
)
    requires
        is_resolution(query, exe_suffix, steps, replies),
        0 <= i < steps.len(),
        !wants_latest(query.wanted@),
        !constraint_text(query.wanted@),
    ensures
        !(steps[i]@ is ListVersions),
        steps[i]@ matches StepView::FetchHash { version, .. } ==> version == query.wanted@,
    decreases i,
{
    if i > 0 {
        law_plain_version_is_taken_verbatim(query, exe_suffix, steps, replies, i - 1);
        assert(answers(steps[i - 1], replies[i - 1]));
    }
}

/// A resolution comes to an end: it takes no more questions than the package
/// has characters, and three.
pub proof fn law_resolution_ends(
    query: ToolQuery,
    exe_suffix: Seq<char>,
    steps: Seq<ToolStep>,
    replies: Seq<ToolReply>,
)
    requires
        is_resolution(query, exe_suffix, steps, replies),
    ensures
        steps.len() <= query.package@.len() + 3,
{
    lemma_steps_left(query, exe_suffix, steps, replies, steps.len() - 1);
}

proof fn lemma_step_left(
    query: ToolQuery,
    exe_suffix: Seq<char>,
    step: ToolStep,
    reply: ToolReply,
    next: ToolStep,
)
    requires
        answers(step, reply),
        follows(query, exe_suffix, step, reply, ToolOutcome::Next(next)),
    ensures
        steps_left(next@) < steps_left(step@),
{
    text::lemma_last_piece(path_of(step@), '/');
}

proof fn lemma_steps_left(
    query: ToolQuery,
    exe_suffix: Seq<char>,
    steps: Seq<ToolStep>,
    replies: Seq<ToolReply>,
    i: int,
)
    requires
        is_resolution(query, exe_suffix, steps, replies),
        0 <= i < steps.len(),
    ensures
        steps_left(steps[i]@) + i <= query.package@.len() + 2,
    decreases i,
{
    if i > 0 {
        lemma_steps_left(query, exe_suffix, steps, replies, i - 1);
        assert(answers(steps[i - 1], replies[i - 1]));
        lemma_step_left(query, exe_suffix, steps[i - 1], replies[i - 1], steps[i]);
    }
}

/// Whether the replies of the proxy are those of one that has the given
/// status for each path.
pub open spec fn replies_agree(
    steps: Seq<ToolStep>,
    replies: Seq<ToolReply>,
    status: spec_fn(Seq<char>) -> u16,
) -> bool {
    forall|i: int|
        0 <= i < steps.len() - 1 ==> match ((#[trigger] steps[i])@, replies[i]) {
            (StepView::FindModule { candidate }, ToolReply::Latest(_)) => is_success(
                status(candidate),
            ),
            (StepView::FindModule { candidate }, ToolReply::Status(s)) => status(candidate) == s,
            _ => true,
        }
}

proof fn lemma_walk_of_resolution(
    query: ToolQuery,
    exe_suffix: Seq<char>,
    steps: Seq<ToolStep>,
    replies: Seq<ToolReply>,
    status: spec_fn(Seq<char>) -> u16,
    i: int,
)
    requires
        is_resolution(query, exe_suffix, steps, replies),
        replies_agree(steps, replies, status),
        0 <= i < steps.len(),
    ensures
        module_above(query.package@, status) == match steps[i]@ {
            StepView::FindModule { candidate } => module_above(candidate, status),
            other => Some(path_of(other)),
        },
    decreases i,
{
    if i > 0 {
        lemma_walk_of_resolution(query, exe_suffix, steps, replies, status, i - 1);
        assert(answers(steps[i - 1], replies[i - 1]));
    }
}

/// The module whose versions or hash a resolution asks for is the one that
/// walking up from the package ends at: the longest path above it that the
/// proxy knows.
pub proof fn law_resolution_finds_the_module(
    query: ToolQuery,
    exe_suffix: Seq<char>,
    steps: Seq<ToolStep>,
    replies: Seq<ToolReply>,
    status: spec_fn(Seq<char>) -> u16,
    i: int,
)
    requires
        is_resolution(query, exe_suffix, steps, replies),
        replies_agree(steps, replies, status),
        0 <= i < steps.len(),
        !(steps[i]@ is FindModule),
    ensures
        module_above(query.package@, status) == Some(path_of(steps[i]@)),
{
    lemma_walk_of_resolution(query, exe_suffix, steps, replies, status, i);
}

/// Whether no version in a reply is itself a request for the latest one.
pub open spec fn names_concrete(reply: ToolReply) -> bool {
    match reply {
        ToolReply::Latest(info) => !wants_latest(info.version@),
        ToolReply::Versions(versions) => forall|k: int|
            0 <= k < versions@.len() ==> !wants_latest((#[trigger] texts(versions@)[k])),
        _ => true,
    }
}

/// A tool resolves to a concrete version, never to `latest`, as long as the
/// proxy names concrete versions.
pub proof fn law_resolved_version_is_concrete(
    query: ToolQuery,
    exe_suffix: Seq<char>,
    steps: Seq<ToolStep>,
    replies: Seq<ToolReply>,
    tool: ResolvedTool,
)
    requires
        is_resolution(query, exe_suffix, steps, replies),
        forall|i: int| 0 <= i < replies.len() ==> names_concrete(#[trigger] replies[i]),
        answers(steps.last(), replies[steps.len() - 1]),
        follows(
            query,
            exe_suffix,
            steps.last(),
            replies[steps.len() - 1],
            ToolOutcome::Resolved(tool),
        ),
    ensures
        !wants_latest(tool.version@),
{
    let n = steps.len() - 1;
    if n > 0 {
        assert(answers(steps[n - 1], replies[n - 1]));
        assert(names_concrete(replies[n - 1]));
        if let (ToolStep::ListVersions { .. }, ToolReply::Versions(versions)) = (
            steps[n - 1],
            replies[n - 1],
        ) {
            assert(versions.len() == texts(versions@).len());
            constraint::lemma_picked_is_in_range(texts(versions@), query.wanted@);
        }
    }
}

/// How a tool is built and put into its place.
#[derive(Debug, Clone)]
pub struct BuildPlan {
    pub go_version: String,
    /// The `go` program of the toolchain.
    pub go_bin: String,
    /// Where the tool goes.
    pub dest_dir: String,
    pub dest_bin: String,
    /// Where `go install` puts what it builds.
    pub tmp_gobin: String,
    /// What `go install` should have built.
    pub produced: String,
    /// Where the binary waits before it is put into its place.
    pub tmp_bin: String,
    /// What `go install` is asked for.
    pub target: String,
    /// The arguments of the `go` program.
    pub args: Vec<String>,
    /// The environment that `go install` runs in, beside the caller's own.
    pub env: Vec<(String, String)>,
}

/// Names and values, as the contracts speak of them.
pub open spec fn pairs(v: Seq<(String, String)>) -> Seq<(Seq<char>, Seq<char>)> {
    v.map_values(|p: (String, String)| (p.0@, p.1@))
}

/// Plan how to build a tool with an installed toolchain. The process number
/// keeps the temporary files of two runs apart.
pub fn plan_build(paths: &Paths, go_version: &str, tool: &ResolvedTool, pid: &str) -> (r: BuildPlan)
    ensures
        r.go_version@ == go_version@,
        r.go_bin@ == paths.program_of(go_version@, "go"@),
        r.dest_dir@ == tool_home(*paths, tool.name@, tool.version@),
        r.dest_bin@ == joined(tool_home(*paths, tool.name@, tool.version@), tool.bin@),
        r.tmp_gobin@ == joined(paths.cache@, "gobin-"@ + tool.name@ + "-"@ + pid@ + ".tmp"@),
        r.tmp_bin@ == joined(paths.cache@, "tool-"@ + tool.name@ + "-"@ + pid@ + ".tmp"@),
        r.produced@ == joined(r.tmp_gobin@, tool.bin@),
        r.target@ == tool.package@ + "@"@ + tool.version@,
        texts(r.args@) == seq!["install"@, r.target@],
        pairs(r.env@) == seq![
            ("GOROOT"@, paths.dir_of(go_version@)),
            ("GOTOOLCHAIN"@, "local"@),
            ("GOBIN"@, r.tmp_gobin@),
            ("GOFLAGS"@, "-mod=mod"@),
        ],
{
    let dest_dir = tool_dir(paths, tool.name.as_str(), tool.version.as_str());
    let dest_bin = paths::join(dest_dir.as_str(), tool.bin.as_str());
    let gobin_name = "gobin-".to_owned().concat(tool.name.as_str()).concat("-").concat(pid).concat(
        ".tmp",
    );
    let bin_name = "tool-".to_owned().concat(tool.name.as_str()).concat("-").concat(pid).concat(
        ".tmp",
    );
    let tmp_gobin = paths::join(paths.cache.as_str(), gobin_name.as_str());
    let env = vec![
        ("GOROOT".to_owned(), paths.version_dir(go_version)),
        ("GOTOOLCHAIN".to_owned(), "local".to_owned()),
        ("GOBIN".to_owned(), tmp_gobin.clone()),
        ("GOFLAGS".to_owned(), "-mod=mod".to_owned()),
    ];
    assert(pairs(env@) =~= seq![
        ("GOROOT"@, paths.dir_of(go_version@)),
        ("GOTOOLCHAIN"@, "local"@),
        ("GOBIN"@, tmp_gobin@),
        ("GOFLAGS"@, "-mod=mod"@),
    ]);
    let target = tool.package.clone().concat("@").concat(tool.version.as_str());
    let args = vec!["install".to_owned(), target.clone()];
    assert(texts(args@) =~= seq!["install"@, target@]);
    BuildPlan {
        go_version: go_version.to_owned(),
        go_bin: paths.program(go_version, "go"),
        dest_dir,
        dest_bin,
        produced: paths::join(tmp_gobin.as_str(), tool.bin.as_str()),
        tmp_gobin,
        tmp_bin: paths::join(paths.cache.as_str(), bin_name.as_str()),
        target,
        args,
        env,
    }
}

/// What to do next to install a tool.
#[derive(Debug)]
pub enum BuildStep {
    /// See whether the toolchain's `go` is there.
    CheckGo,
    /// See whether the tool's binary is there.
    CheckDest,
    /// Make the tool's directory and an empty directory to build into.
    Prepare,
    /// Run the `go` program with the plan's arguments and environment.
    Build,
    /// See whether it produced the binary.
    CheckProduced,
    /// List what it produced.
    ListProduced,
    /// Move this file into the tool's place, and clear the directory that was
    /// built into.
    Move { from: String },
    /// Read the tool's binary.
    ReadBinary,
}

/// What to do first to install a tool.
pub fn first_build_step() -> (r: BuildStep)
    ensures
        r is CheckGo,
{
    BuildStep::CheckGo
}

/// What came of it.
#[derive(Debug)]
pub enum BuildEvent {
    /// The file is there, or not.
    Exists(bool),
    Done,
    /// `go install` ended, with success or without.
    Exit(bool),
    /// The files that were produced.
    Files(Vec<String>),
    /// The bytes of the binary.
    Bytes(Vec<u8>),
}

/// Why a tool could not be installed.
#[derive(Debug)]
pub enum BuildError {
    /// The toolchain is not installed.
    ToolchainMissing { go_version: String, go_bin: String },
    /// `go install` failed.
    InstallFailed { target: String },
    /// `go install` produced no binary of the name, nor exactly one other.
    NoBinary { bin: String, dir: String },
}

/// What follows from an event.
#[derive(Debug)]
pub enum BuildOutcome {
    Next(BuildStep),
    Locked(LockedTool),
    Failed(BuildError),
}

/// Whether an event is one that the step can have.
pub open spec fn belongs(step: BuildStep, event: BuildEvent) -> bool {
    match step {
        BuildStep::CheckGo => event is Exists,
        BuildStep::CheckDest => event is Exists,
        BuildStep::Prepare => event is Done,
        BuildStep::Build => event is Exit,
        BuildStep::CheckProduced => event is Exists,
        BuildStep::ListProduced => event is Files,
        BuildStep::Move { .. } => event is Done,
        BuildStep::ReadBinary => event is Bytes,
    }
}

/// Whether a locked tool records the tool, the toolchain that built it and
/// the digest of its binary.
pub open spec fn records(
    locked: LockedTool,
    tool: ResolvedTool,
    go_version: Seq<char>,
    binary: Seq<u8>,
) -> bool {
    &&& locked.name@ == tool.name@
    &&& locked.package@ == tool.package@
    &&& locked.version@ == tool.version@
    &&& locked.bin@ == tool.bin@
    &&& locked.module_hash@ == tool.module_hash@
    &&& locked.built_with@ == go_version
    &&& locked.binary_sha256@ == sha256_text(binary)
}

/// Whether an outcome is the one that follows from an event.
pub open spec fn build_follows(
    plan: BuildPlan,
    tool: ResolvedTool,
    step: BuildStep,
    event: BuildEvent,
    r: BuildOutcome,
) -> bool {
    match (step, event) {
        (BuildStep::CheckGo, BuildEvent::Exists(there)) => if there {
            r matches BuildOutcome::Next(next) && next is CheckDest
        } else {
            r matches BuildOutcome::Failed(BuildError::ToolchainMissing { go_version, go_bin })
                && go_version@ == plan.go_version@ && go_bin@ == plan.go_bin@
        },
        (BuildStep::CheckDest, BuildEvent::Exists(there)) => if there {
            r matches BuildOutcome::Next(next) && next is ReadBinary
        } else {
            r matches BuildOutcome::Next(next) && next is Prepare
        },
        (BuildStep::Prepare, BuildEvent::Done) => r matches BuildOutcome::Next(next) && next
            is Build,
        (BuildStep::Build, BuildEvent::Exit(success)) => if success {
            r matches BuildOutcome::Next(next) && next is CheckProduced
        } else {
            r matches BuildOutcome::Failed(BuildError::InstallFailed { target }) && target@
                == plan.target@
        },
        (BuildStep::CheckProduced, BuildEvent::Exists(there)) => if there {
            r matches BuildOutcome::Next(BuildStep::Move { from }) && from@ == plan.produced@
        } else {
            r matches BuildOutcome::Next(next) && next is ListProduced
        },
        (BuildStep::ListProduced, BuildEvent::Files(files)) => if files@.len() == 1 {
            r matches BuildOutcome::Next(BuildStep::Move { from }) && from@ == files@[0]@
        } else {
            r matches BuildOutcome::Failed(BuildError::NoBinary { bin, dir }) && bin@ == tool.bin@
                && dir@ == plan.tmp_gobin@
        },
        (BuildStep::Move { .. }, BuildEvent::Done) => r matches BuildOutcome::Next(next) && next
            is ReadBinary,
        (BuildStep::ReadBinary, BuildEvent::Bytes(bytes)) => r matches BuildOutcome::Locked(locked)
            && records(locked, tool, plan.go_version@, bytes@),
        _ => false,
    }
}

/// The record of a tool whose binary has this digest.
pub fn lock_tool(tool: &ResolvedTool, go_version: &str, binary_sha256: String) -> (r: LockedTool)
    ensures
        r.name@ == tool.name@,
        r.package@ == tool.package@,
        r.version@ == tool.version@,
        r.bin@ == tool.bin@,
        r.module_hash@ == tool.module_hash@,
        r.built_with@ == go_version@,
        r.binary_sha256@ == binary_sha256@,
{
    LockedTool {
        name: tool.name.clone(),
        package: tool.package.clone(),
        version: tool.version.clone(),
        bin: tool.bin.clone(),
        module_hash: tool.module_hash.clone(),
        built_with: go_version.to_owned(),
        binary_sha256,
    }
}

/// Decide what follows from an event while a tool is installed.
pub fn install(plan: &BuildPlan, tool: &ResolvedTool, step: &BuildStep, event: &BuildEvent) -> (r:
    BuildOutcome)
    requires
        belongs(*step, *event),
    ensures
        build_follows(*plan, *tool, *step, *event, r),
{
    match (step, event) {
        (BuildStep::CheckGo, BuildEvent::Exists(there)) => {
            if *there {
                BuildOutcome::Next(BuildStep::CheckDest)
            } else {
                BuildOutcome::Failed(
                    BuildError::ToolchainMissing {
                        go_version: plan.go_version.clone(),
                        go_bin: plan.go_bin.clone(),
                    },
                )
            }
        },
        (BuildStep::CheckDest, BuildEvent::Exists(there)) => {
            if *there {
                BuildOutcome::Next(BuildStep::ReadBinary)
            } else {
                BuildOutcome::Next(BuildStep::Prepare)
            }
        },
        (BuildStep::Prepare, _) => BuildOutcome::Next(BuildStep::Build),
        (BuildStep::Build, BuildEvent::Exit(success)) => {
            if *success {
                BuildOutcome::Next(BuildStep::CheckProduced)
            } else {
                BuildOutcome::Failed(BuildError::InstallFailed { target: plan.target.clone() })
            }
        },
        (BuildStep::CheckProduced, BuildEvent::Exists(there)) => {
            if *there {
                BuildOutcome::Next(BuildStep::Move { from: plan.produced.clone() })
            } else {
                BuildOutcome::Next(BuildStep::ListProduced)
            }
        },
        (BuildStep::ListProduced, BuildEvent::Files(files)) => {
            if files.len() == 1 {
                BuildOutcome::Next(BuildStep::Move { from: files[0].clone() })
            } else {
                BuildOutcome::Failed(
                    BuildError::NoBinary { bin: tool.bin.clone(), dir: plan.tmp_gobin.clone() },
                )
            }
        },
        (BuildStep::ReadBinary, BuildEvent::Bytes(bytes)) => {
            let sha = digest::sha256_hex(bytes.as_slice());
            BuildOutcome::Locked(lock_tool(tool, plan.go_version.as_str(), sha))
        },
        // A move is done; no other event belongs to a step.
        _ => BuildOutcome::Next(BuildStep::ReadBinary),
    }
}

/// Whether the steps are those of one installation with the given events.
pub open spec fn is_build(
    plan: BuildPlan,
    tool: ResolvedTool,
    steps: Seq<BuildStep>,
    events: Seq<BuildEvent>,
) -> bool {
    &&& steps.len() > 0
    &&& steps.len() <= events.len()
    &&& steps[0] is CheckGo
    &&& forall|i: int|
        0 <= i < steps.len() - 1 ==> belongs(#[trigger] steps[i], events[i]) && build_follows(
            plan,
            tool,
            steps[i],
            events[i],
            BuildOutcome::Next(steps[i + 1]),
        )
}

proof fn lemma_build_steps(
    plan: BuildPlan,
    tool: ResolvedTool,
    steps: Seq<BuildStep>,
    events: Seq<BuildEvent>,
    i: int,
)
    requires
        is_build(plan, tool, steps, events),
        0 <= i < steps.len(),
    ensures
        i == 0 <==> steps[i] is CheckGo,
        i == 1 <==> steps[i] is CheckDest,
        i > 0 ==> events[0] == BuildEvent::Exists(true),
        i > 1 && !(steps[i] is ReadBinary) ==> events[1] == BuildEvent::Exists(false),
        i < 8,
        steps[i] is Build || steps[i] is CheckProduced || steps[i] is ListProduced || steps[i]
            is Move ==> i >= 3 && steps[3] is Build,
        steps[i] is CheckProduced || steps[i] is ListProduced || steps[i] is Move ==> events[3]
            == BuildEvent::Exit(true),
        steps[i] is Prepare ==> i == 2,
        steps[i] is Build ==> i == 3,
        steps[i] is CheckProduced ==> i == 4,
        steps[i] is ListProduced ==> i == 5,
        steps[i] is Move ==> i == 5 || i == 6,
        steps[i] is ReadBinary ==> i <= 7 && (events[1] == BuildEvent::Exists(true) || (events[1]
            == BuildEvent::Exists(false) && i > 3 && events[3] == BuildEvent::Exit(true))),
    decreases i,
{
    if i > 0 {
        lemma_build_steps(plan, tool, steps, events, i - 1);
        assert(belongs(steps[i - 1], events[i - 1]));
    }
}

/// `go install` runs only with an installed toolchain and only where the
/// tool's binary is not there yet.
pub proof fn law_build_only_what_is_missing(
    plan: BuildPlan,
    tool: ResolvedTool,
    steps: Seq<BuildStep>,
    events: Seq<BuildEvent>,
    i: int,
)
    requires
        is_build(plan, tool, steps, events),
        0 <= i < steps.len(),
        steps[i] is Build,
    ensures
        events[0] == BuildEvent::Exists(true),
        events[1] == BuildEvent::Exists(false),
{
    lemma_build_steps(plan, tool, steps, events, i);
}

/// A tool is recorded only once its binary is there: it was there before, or
/// `go install` has ended with success.
pub proof fn law_locked_tool_was_built(
    plan: BuildPlan,
    tool: ResolvedTool,
    steps: Seq<BuildStep>,
    events: Seq<BuildEvent>,
    locked: LockedTool,
)
    requires
        is_build(plan, tool, steps, events),
        belongs(steps.last(), events[steps.len() - 1]),
        build_follows(
            plan,
            tool,
            steps.last(),
            events[steps.len() - 1],
            BuildOutcome::Locked(locked),
        ),
    ensures
        events[0] == BuildEvent::Exists(true),
        events[1] == BuildEvent::Exists(true) || (steps.len() > 3 && steps[3] is Build && events[3]
            == BuildEvent::Exit(true)),
        events[steps.len() - 1] matches BuildEvent::Bytes(binary) && records(
            locked,
            tool,
            plan.go_version@,
            binary@,
        ),
{
    lemma_build_steps(plan, tool, steps, events, steps.len() - 1);
    if events[1] != BuildEvent::Exists(true) {
        lemma_build_steps(plan, tool, steps, events, 3);
        lemma_build_steps(plan, tool, steps, events, 2);
    }
}

/// A recorded tool is found where it was put.
pub proof fn law_locked_tool_is_where_it_was_put(
    paths: Paths,
    plan: BuildPlan,
    tool: ResolvedTool,
    locked: LockedTool,
    binary: Seq<u8>,
)
    requires
        plan.dest_bin@ == joined(tool_home(paths, tool.name@, tool.version@), tool.bin@),
        records(locked, tool, plan.go_version@, binary),
    ensures
        joined(tool_home(paths, locked.name@, locked.version@), locked.bin@) == plan.dest_bin@,
{
}

impl BuildError {
    /// The message for the user. The text of an exit code is the caller's.
    pub fn message(&self, exit_text: &str) -> (r: String)
        ensures
            r@ == match *self {
                BuildError::ToolchainMissing { go_version, go_bin } => "Go toolchain "@
                    + go_version@ + " is not installed (looked at "@ + go_bin@ + ")"@,
                BuildError::InstallFailed { target } => "go install "@ + target@ + " failed (exit "@
                    + exit_text@ + ")"@,
                BuildError::NoBinary { bin, dir } => "go install produced no binary named "@ + bin@
                    + " in "@ + dir@,
            },
    {
        match self {
            BuildError::ToolchainMissing { go_version, go_bin } => {
                "Go toolchain ".to_owned().concat(go_version.as_str()).concat(
                    " is not installed (looked at ",
                ).concat(go_bin.as_str()).concat(")")
            },
            BuildError::InstallFailed { target } => {
                "go install ".to_owned().concat(target.as_str()).concat(" failed (exit ").concat(
                    exit_text,
                ).concat(")")
            },
            BuildError::NoBinary { bin, dir } => {
                "go install produced no binary named ".to_owned().concat(bin.as_str()).concat(
                    " in ",
                ).concat(dir.as_str())
            },
        }
    }
}

} // verus!
