//! Read project-level toolchain pins: the `toolchain` line of `go.work` and
//! `go.mod`, and `.go-version`.

use vstd::prelude::*;
use vstd::string::*;

use crate::paths;
use crate::paths::joined;
use crate::search::{learned, FileState, Request, Search};
use crate::text;
use crate::text::{begins, lines, texts, trimmed};
use crate::workspace;
use crate::workspace::reading_of;

verus! {

/// The canonical name of a toolchain: `go` in front, no whitespace around.
pub open spec fn canonical(v: Seq<char>) -> Seq<char> {
    let t = trimmed(v);
    if begins(t, "go"@) {
        t
    } else {
        "go"@ + t
    }
}

/// Bring a toolchain name into its canonical form.
pub fn normalize(v: &str) -> (r: String)
    ensures
        r@ == canonical(v@),
{
    let t = text::trim(v);
    if text::starts_with(t.as_str(), "go") {
        t
    } else {
        let mut r = "go".to_owned();
        r.append(t.as_str());
        r
    }
}

/// Where a toolchain version comes from.
#[derive(Debug, Clone, Copy, PartialEq, Eq, Structural)]
pub enum ToolchainSource {
    EnvVar,
    GoWork,
    GoMod,
    GoVersionFile,
    Global,
    LatestInstalled,
}

/// A toolchain pin found in a project.
#[derive(Debug, Clone, PartialEq, Eq)]
pub struct ToolchainHit {
    /// The version, as in `go1.25.0`.
    pub version: String,
    pub source: ToolchainSource,
    /// The file that the value came from.
    pub origin: String,
}

/// A toolchain pin as the contracts speak of it.
pub ghost struct HitView {
    pub version: Seq<char>,
    pub source: ToolchainSource,
    pub origin: Seq<char>,
}

impl View for ToolchainHit {
    type V = HitView;

    open spec fn view(&self) -> HitView {
        HitView { version: self.version@, source: self.source, origin: self.origin@ }
    }
}

/// One directory on the way up, and what is known of the files in it that may
/// pin a toolchain.
pub struct Level {
    pub dir: String,
    pub go_work: FileState,
    pub go_mod: FileState,
    pub go_version: FileState,
}

/// The version in the first line of a `go.mod` text, from line `i` on, that
/// is a `toolchain` directive.
pub open spec fn toolchain_from(all: Seq<Seq<char>>, i: int) -> Option<Seq<char>>
    decreases all.len() - i,
{
    if i < 0 || i >= all.len() {
        None
    } else if begins(trimmed(all[i]), "toolchain "@) {
        Some(canonical(trimmed(trimmed(all[i]).skip(10))))
    } else {
        toolchain_from(all, i + 1)
    }
}

/// The version in the `toolchain` directive of a `go.mod` text.
pub open spec fn go_mod_toolchain(content: Seq<char>) -> Option<Seq<char>> {
    toolchain_from(lines(content), 0)
}

/// Parse the `toolchain` directive from the text of a `go.mod` file. Returns
/// `None` if no toolchain line is present.
pub fn read_go_mod_toolchain(content: &str) -> (r: Option<String>)
    ensures
        r is Some <==> go_mod_toolchain(content@) is Some,
        r matches Some(v) ==> go_mod_toolchain(content@) == Some(v@),
{
    let all = text::split_lines(content);
    let mut i: usize = 0;
    proof {
        reveal_strlit("toolchain ");
    }
    while i < all.len()
        invariant
            i <= all@.len(),
            texts(all@) == lines(content@),
            "toolchain "@.len() == 10,
            go_mod_toolchain(content@) == toolchain_from(lines(content@), i as int),
        decreases all@.len() - i,
    {
        assert(all@[i as int]@ == lines(content@)[i as int]);
        let line = text::trim(all[i].as_str());
        if let Some(rest) = text::strip_prefix(line.as_str(), "toolchain ") {
            let name = text::trim(rest.as_str());
            return Some(normalize(name.as_str()));
        }
        i = i + 1;
    }
    None
}

/// The workspace-wide pin, looked for from level `i` on: the nearest `go.work`
/// decides, and without a `toolchain` line in it there is none.
pub open spec fn work_pin(levels: Seq<Level>, i: int) -> Search<HitView>
    decreases levels.len() - i,
{
    if i < 0 || i >= levels.len() {
        Search::NotFound
    } else {
        match levels[i].go_work {
            FileState::Unread => Search::Read(Request::GoWork(i as usize)),
            FileState::Failed => Search::Failed(Request::GoWork(i as usize)),
            FileState::Absent => work_pin(levels, i + 1),
            FileState::Text(t) => match reading_of(t@, levels[i].dir@).toolchain {
                Some(v) => Search::Found(
                    HitView {
                        version: v,
                        source: ToolchainSource::GoWork,
                        origin: joined(levels[i].dir@, "go.work"@),
                    },
                ),
                None => Search::NotFound,
            },
        }
    }
}

/// The pin in the nearest `go.mod`, from level `i` on, that has a `toolchain`
/// line.
pub open spec fn go_mod_pin(levels: Seq<Level>, i: int) -> Search<HitView>
    decreases levels.len() - i,
{
    if i < 0 || i >= levels.len() {
        Search::NotFound
    } else {
        match levels[i].go_mod {
            FileState::Unread => Search::Read(Request::GoMod(i as usize)),
            FileState::Failed => Search::Failed(Request::GoMod(i as usize)),
            FileState::Absent => go_mod_pin(levels, i + 1),
            FileState::Text(t) => match go_mod_toolchain(t@) {
                Some(v) => Search::Found(
                    HitView {
                        version: v,
                        source: ToolchainSource::GoMod,
                        origin: joined(levels[i].dir@, "go.mod"@),
                    },
                ),
                None => go_mod_pin(levels, i + 1),
            },
        }
    }
}

/// The pin in the nearest `.go-version`, from level `i` on, that holds more
/// than whitespace.
pub open spec fn version_file_pin(levels: Seq<Level>, i: int) -> Search<HitView>
    decreases levels.len() - i,
{
    if i < 0 || i >= levels.len() {
        Search::NotFound
    } else {
        match levels[i].go_version {
            FileState::Unread => Search::Read(Request::GoVersion(i as usize)),
            FileState::Failed => Search::Failed(Request::GoVersion(i as usize)),
            FileState::Absent => version_file_pin(levels, i + 1),
            FileState::Text(t) => if trimmed(t@).len() == 0 {
                version_file_pin(levels, i + 1)
            } else {
                Search::Found(
                    HitView {
                        version: canonical(trimmed(t@)),
                        source: ToolchainSource::GoVersionFile,
                        origin: joined(levels[i].dir@, ".go-version"@),
                    },
                )
            },
        }
    }
}

/// The pin of a project: the workspace-wide one, else that of a `go.mod`, else
/// that of a `.go-version`.
pub open spec fn project_pin(levels: Seq<Level>) -> Search<HitView> {
    match work_pin(levels, 0) {
        Search::NotFound => match go_mod_pin(levels, 0) {
            Search::NotFound => version_file_pin(levels, 0),
            other => other,
        },
        other => other,
    }
}

/// Look for a workspace-wide pin.
fn find_work_pin(levels: &[Level]) -> (r: Search<ToolchainHit>)
    ensures
        r@ == work_pin(levels@, 0),
{
    let mut i: usize = 0;
    while i < levels.len()
        invariant
            i <= levels@.len(),
            work_pin(levels@, 0) == work_pin(levels@, i as int),
        decreases levels@.len() - i,
    {
        match &levels[i].go_work {
            FileState::Unread => {
                return Search::Read(Request::GoWork(i));
            },
            FileState::Failed => {
                return Search::Failed(Request::GoWork(i));
            },
            FileState::Absent => {},
            FileState::Text(t) => {
                let work = workspace::parse(t.as_str(), levels[i].dir.as_str());
                return match work.toolchain {
                    Some(version) => Search::Found(
                        ToolchainHit {
                            version,
                            source: ToolchainSource::GoWork,
                            origin: paths::join(
                                levels[i].dir.as_str(),
                                workspace::WORKSPACE_FILE,
                            ),
                        },
                    ),
                    None => Search::NotFound,
                };
            },
        }
        i = i + 1;
    }
    Search::NotFound
}

/// Look for a pin in a `go.mod`.
fn find_go_mod_pin(levels: &[Level]) -> (r: Search<ToolchainHit>)
    ensures
        r@ == go_mod_pin(levels@, 0),
{
    let mut i: usize = 0;
    while i < levels.len()
        invariant
            i <= levels@.len(),
            go_mod_pin(levels@, 0) == go_mod_pin(levels@, i as int),
        decreases levels@.len() - i,
    {
        match &levels[i].go_mod {
            FileState::Unread => {
                return Search::Read(Request::GoMod(i));
            },
            FileState::Failed => {
                return Search::Failed(Request::GoMod(i));
            },
            FileState::Absent => {},
            FileState::Text(t) => {
                if let Some(version) = read_go_mod_toolchain(t.as_str()) {
                    return Search::Found(
                        ToolchainHit {
                            version,
                            source: ToolchainSource::GoMod,
                            origin: paths::join(levels[i].dir.as_str(), "go.mod"),
                        },
                    );
                }
            },
        }
        i = i + 1;
    }
    Search::NotFound
}

/// Look for a pin in a `.go-version`.
fn find_version_file_pin(levels: &[Level]) -> (r: Search<ToolchainHit>)
    ensures
        r@ == version_file_pin(levels@, 0),
{
    let mut i: usize = 0;
    while i < levels.len()
        invariant
            i <= levels@.len(),
            version_file_pin(levels@, 0) == version_file_pin(levels@, i as int),
        decreases levels@.len() - i,
    {
        match &levels[i].go_version {
            FileState::Unread => {
                return Search::Read(Request::GoVersion(i));
            },
            FileState::Failed => {
                return Search::Failed(Request::GoVersion(i));
            },
            FileState::Absent => {},
            FileState::Text(t) => {
                let v = text::trim(t.as_str());
                if !v.as_str().is_empty() {
                    return Search::Found(
                        ToolchainHit {
                            version: normalize(v.as_str()),
                            source: ToolchainSource::GoVersionFile,
                            origin: paths::join(levels[i].dir.as_str(), ".go-version"),
                        },
                    );
                }
            },
        }
        i = i + 1;
    }
    Search::NotFound
}

/// Look for the most authoritative toolchain pin on the way up from the
/// directory of the first level.
///
/// Order of precedence (highest first):
/// 1. `go.work` `toolchain` line (workspace-wide)
/// 2. `go.mod` `toolchain` line, the nearest one
/// 3. `.go-version`, the nearest one
///
/// `go.work` wins because Go itself overrides per-member `go.mod` toolchain
/// pins when in workspace mode.
pub fn find_project_toolchain(levels: &[Level]) -> (r: Search<ToolchainHit>)
    ensures
        r@ == project_pin(levels@),
{
    match find_work_pin(levels) {
        Search::NotFound => {},
        other => {
            return other;
        },
    }
    match find_go_mod_pin(levels) {
        Search::NotFound => {},
        other => {
            return other;
        },
    }
    find_version_file_pin(levels)
}

/// Whether `later` is what may be known of the levels after `earlier`: the
/// directories are the same, and more of the files may have been read.
pub open spec fn levels_learned(earlier: Seq<Level>, later: Seq<Level>) -> bool {
    &&& earlier.len() == later.len()
    &&& forall|i: int|
        0 <= i < earlier.len() ==> {
            &&& (#[trigger] earlier[i]).dir@ == later[i].dir@
            &&& learned(earlier[i].go_work, later[i].go_work)
            &&& learned(earlier[i].go_mod, later[i].go_mod)
            &&& learned(earlier[i].go_version, later[i].go_version)
        }
}

/// Whether a `go.mod` is known to have no `toolchain` line: it is not there, or
/// its text has none.
pub open spec fn gives_no_toolchain(go_mod: FileState) -> bool {
    match go_mod {
        FileState::Absent => true,
        FileState::Text(t) => go_mod_toolchain(t@) is None,
        _ => false,
    }
}

/// Whether a `.go-version` is known to name no version: it is not there, or
/// holds only whitespace.
pub open spec fn gives_no_version(go_version: FileState) -> bool {
    match go_version {
        FileState::Absent => true,
        FileState::Text(t) => trimmed(t@).len() == 0,
        _ => false,
    }
}

/// What is known of the file that a request names.
pub open spec fn requested(levels: Seq<Level>, q: Request) -> FileState {
    match q {
        Request::GoWork(i) => levels[i as int].go_work,
        Request::GoMod(i) => levels[i as int].go_mod,
        Request::GoVersion(i) => levels[i as int].go_version,
        _ => FileState::Unread,
    }
}

/// Whether a request names a file of one of the levels.
pub open spec fn asks_level(levels: Seq<Level>, q: Request) -> bool {
    match q {
        Request::GoWork(i) => i < levels.len(),
        Request::GoMod(i) => i < levels.len(),
        Request::GoVersion(i) => i < levels.len(),
        _ => false,
    }
}

proof fn lemma_work_pin_stable(earlier: Seq<Level>, later: Seq<Level>, i: int)
    requires
        levels_learned(earlier, later),
        0 <= i,
        work_pin(earlier, i).settled(),
    ensures
        work_pin(later, i) == work_pin(earlier, i),
    decreases earlier.len() - i,
{
    if i < earlier.len() {
        let here = earlier[i];
        if here.go_work is Absent {
            lemma_work_pin_stable(earlier, later, i + 1);
        }
    }
}

proof fn lemma_go_mod_pin_stable(earlier: Seq<Level>, later: Seq<Level>, i: int)
    requires
        levels_learned(earlier, later),
        0 <= i,
        go_mod_pin(earlier, i).settled(),
    ensures
        go_mod_pin(later, i) == go_mod_pin(earlier, i),
    decreases earlier.len() - i,
{
    if i < earlier.len() {
        let here = earlier[i];
        if gives_no_toolchain(here.go_mod) {
            lemma_go_mod_pin_stable(earlier, later, i + 1);
        }
    }
}

proof fn lemma_version_file_pin_stable(earlier: Seq<Level>, later: Seq<Level>, i: int)
    requires
        levels_learned(earlier, later),
        0 <= i,
        version_file_pin(earlier, i).settled(),
    ensures
        version_file_pin(later, i) == version_file_pin(earlier, i),
    decreases earlier.len() - i,
{
    if i < earlier.len() {
        let here = earlier[i];
        if gives_no_version(here.go_version) {
            lemma_version_file_pin_stable(earlier, later, i + 1);
        }
    }
}

/// What a search has settled does not depend on the files that it left
/// unread: whatever they turn out to hold, the outcome stays.
pub proof fn law_project_pin_is_stable(earlier: Seq<Level>, later: Seq<Level>)
    requires
        levels_learned(earlier, later),
        project_pin(earlier).settled(),
    ensures
        project_pin(later) == project_pin(earlier),
{
    lemma_work_pin_stable(earlier, later, 0);
    if work_pin(earlier, 0) is NotFound {
        lemma_go_mod_pin_stable(earlier, later, 0);
        if go_mod_pin(earlier, 0) is NotFound {
            lemma_version_file_pin_stable(earlier, later, 0);
        }
    }
}

proof fn lemma_work_pin_asks(levels: Seq<Level>, i: int)
    requires
        0 <= i,
        levels.len() <= usize::MAX,
    ensures
        work_pin(levels, i) matches Search::Read(q) ==> asks_level(levels, q) && requested(
            levels,
            q,
        ) is Unread,
        work_pin(levels, i) matches Search::Failed(q) ==> asks_level(levels, q) && requested(
            levels,
            q,
        ) is Failed,
    decreases levels.len() - i,
{
    if i < levels.len() {
        lemma_work_pin_asks(levels, i + 1);
    }
}

proof fn lemma_go_mod_pin_asks(levels: Seq<Level>, i: int)
    requires
        0 <= i,
        levels.len() <= usize::MAX,
    ensures
        go_mod_pin(levels, i) matches Search::Read(q) ==> asks_level(levels, q) && requested(
            levels,
            q,
        ) is Unread,
        go_mod_pin(levels, i) matches Search::Failed(q) ==> asks_level(levels, q) && requested(
            levels,
            q,
        ) is Failed,
    decreases levels.len() - i,
{
    if i < levels.len() {
        lemma_go_mod_pin_asks(levels, i + 1);
    }
}

proof fn lemma_version_file_pin_asks(levels: Seq<Level>, i: int)
    requires
        0 <= i,
        levels.len() <= usize::MAX,
    ensures
        version_file_pin(levels, i) matches Search::Read(q) ==> asks_level(levels, q) && requested(
            levels,
            q,
        ) is Unread,
        version_file_pin(levels, i) matches Search::Failed(q) ==> asks_level(levels, q) && requested(
            levels,
            q,
        ) is Failed,
    decreases levels.len() - i,
{
    if i < levels.len() {
        lemma_version_file_pin_asks(levels, i + 1);
    }
}

/// A search asks only for files that nobody has read, so reading what it asks
/// for brings it to an end; and it fails only at a file that could not be
/// read.
pub proof fn law_project_pin_asks_for_unread(levels: Seq<Level>)
    requires
        levels.len() <= usize::MAX,
    ensures
        project_pin(levels) matches Search::Read(q) ==> asks_level(levels, q) && requested(
            levels,
            q,
        ) is Unread,
        project_pin(levels) matches Search::Failed(q) ==> asks_level(levels, q) && requested(
            levels,
            q,
        ) is Failed,
{
    lemma_work_pin_asks(levels, 0);
    lemma_go_mod_pin_asks(levels, 0);
    lemma_version_file_pin_asks(levels, 0);
}

/// A `toolchain` line in the nearest `go.work` wins over every `go.mod` and
/// every `.go-version`, whatever they hold.
pub proof fn law_go_work_wins(levels: Seq<Level>, i: int)
    requires
        0 <= i < levels.len(),
        forall|j: int| 0 <= j < i ==> (#[trigger] levels[j]).go_work is Absent,
        levels[i].go_work is Text,
        reading_of(levels[i].go_work->Text_0@, levels[i].dir@).toolchain is Some,
    ensures
        project_pin(levels) == Search::Found(
            HitView {
                version: reading_of(levels[i].go_work->Text_0@, levels[i].dir@).toolchain->0,
                source: ToolchainSource::GoWork,
                origin: joined(levels[i].dir@, "go.work"@),
            },
        ),
{
    lemma_work_pin_skips(levels, 0, i);
}

proof fn lemma_work_pin_skips(levels: Seq<Level>, from: int, to: int)
    requires
        0 <= from <= to < levels.len(),
        forall|j: int| from <= j < to ==> (#[trigger] levels[j]).go_work is Absent,
    ensures
        work_pin(levels, from) == work_pin(levels, to),
    decreases to - from,
{
    if from < to {
        assert(levels[from].go_work is Absent);
        lemma_work_pin_skips(levels, from + 1, to);
    }
}

proof fn lemma_go_mod_pin_skips(levels: Seq<Level>, from: int, to: int)
    requires
        0 <= from <= to <= levels.len(),
        forall|j: int| from <= j < to ==> gives_no_toolchain((#[trigger] levels[j]).go_mod),
    ensures
        go_mod_pin(levels, from) == go_mod_pin(levels, to),
    decreases to - from,
{
    if from < to {
        assert(gives_no_toolchain(levels[from].go_mod));
        lemma_go_mod_pin_skips(levels, from + 1, to);
    }
}

proof fn lemma_version_file_pin_skips(levels: Seq<Level>, from: int, to: int)
    requires
        0 <= from <= to <= levels.len(),
        forall|j: int| from <= j < to ==> gives_no_version((#[trigger] levels[j]).go_version),
    ensures
        version_file_pin(levels, from) == version_file_pin(levels, to),
    decreases to - from,
{
    if from < to {
        assert(gives_no_version(levels[from].go_version));
        lemma_version_file_pin_skips(levels, from + 1, to);
    }
}

/// Without a workspace-wide pin, the nearest `toolchain` line in a `go.mod`
/// wins over every `.go-version`, nearer ones included, whatever they hold.
pub proof fn law_go_mod_wins(levels: Seq<Level>, i: int)
    requires
        work_pin(levels, 0) is NotFound,
        0 <= i < levels.len(),
        forall|j: int| 0 <= j < i ==> gives_no_toolchain((#[trigger] levels[j]).go_mod),
        levels[i].go_mod is Text,
        go_mod_toolchain(levels[i].go_mod->Text_0@) is Some,
    ensures
        project_pin(levels) == Search::Found(
            HitView {
                version: go_mod_toolchain(levels[i].go_mod->Text_0@)->0,
                source: ToolchainSource::GoMod,
                origin: joined(levels[i].dir@, "go.mod"@),
            },
        ),
{
    lemma_go_mod_pin_skips(levels, 0, i);
}

/// Without a workspace-wide pin and without a `toolchain` line in any `go.mod`,
/// the nearest `.go-version` that names a version decides.
pub proof fn law_go_version_is_last(levels: Seq<Level>, i: int)
    requires
        work_pin(levels, 0) is NotFound,
        forall|j: int|
            0 <= j < levels.len() ==> gives_no_toolchain((#[trigger] levels[j]).go_mod),
        0 <= i < levels.len(),
        forall|j: int| 0 <= j < i ==> gives_no_version((#[trigger] levels[j]).go_version),
        levels[i].go_version is Text,
        trimmed(levels[i].go_version->Text_0@).len() > 0,
    ensures
        project_pin(levels) == Search::Found(
            HitView {
                version: canonical(levels[i].go_version->Text_0@),
                source: ToolchainSource::GoVersionFile,
                origin: joined(levels[i].dir@, ".go-version"@),
            },
        ),
{
    lemma_go_mod_pin_skips(levels, 0, levels.len() as int);
    lemma_version_file_pin_skips(levels, 0, i);
    let raw = levels[i].go_version->Text_0@;
    text::lemma_trimmed_ends(raw);
    text::lemma_trimmed_is_self(trimmed(raw));
}

/// A project that pins a toolchain nowhere has no pin.
pub proof fn law_no_pin(levels: Seq<Level>)
    requires
        work_pin(levels, 0) is NotFound,
        forall|j: int|
            0 <= j < levels.len() ==> gives_no_toolchain((#[trigger] levels[j]).go_mod),
        forall|j: int|
            0 <= j < levels.len() ==> gives_no_version((#[trigger] levels[j]).go_version),
    ensures
        project_pin(levels) is NotFound,
{
    lemma_go_mod_pin_skips(levels, 0, levels.len() as int);
    lemma_version_file_pin_skips(levels, 0, levels.len() as int);
}

/// A canonical name is not empty and has no whitespace around it.
pub proof fn lemma_canonical_is_trimmed(v: Seq<char>)
    ensures
        canonical(v).len() >= 2,
        trimmed(canonical(v)) == canonical(v),
{
    reveal_strlit("go");
    let t = trimmed(v);
    text::lemma_trimmed_ends(v);
    let c = canonical(v);
    assert(c[0] == 'g') by {
        if begins(t, "go"@) {
            assert(t.take(2)[0] == 'g');
        }
    }
    assert(c.len() >= 2);
    assert(c.last() == (if t.len() > 0 {
        t.last()
    } else {
        'o'
    }));
    text::lemma_trimmed_is_self(c);
}

/// The canonical form of a toolchain name is its own canonical form.
pub proof fn law_canonical_is_idempotent(v: Seq<char>)
    ensures
        canonical(canonical(v)) == canonical(v),
{
    lemma_canonical_is_trimmed(v);
    lemma_canonical_begins_go(v);
}

/// A canonical name begins with `go`.
pub proof fn lemma_canonical_begins_go(v: Seq<char>)
    ensures
        begins(canonical(v), "go"@),
{
    let t = trimmed(v);
    assert(("go"@ + t).take("go"@.len() as int) == "go"@);
}

proof fn lemma_toolchain_from_is_a_go_name(all: Seq<Seq<char>>, i: int)
    ensures
        toolchain_from(all, i) matches Some(v) ==> begins(v, "go"@),
    decreases all.len() - i,
{
    if 0 <= i < all.len() {
        lemma_canonical_begins_go(trimmed(trimmed(all[i]).skip(10)));
        lemma_toolchain_from_is_a_go_name(all, i + 1);
    }
}

proof fn lemma_work_pin_is_a_go_name(levels: Seq<Level>, i: int)
    ensures
        work_pin(levels, i) matches Search::Found(h) ==> begins(h.version, "go"@) && h.source
            is GoWork,
    decreases levels.len() - i,
{
    if 0 <= i < levels.len() {
        lemma_work_pin_is_a_go_name(levels, i + 1);
        if levels[i].go_work is Text {
            let t = levels[i].go_work->Text_0@;
            workspace::lemma_reading_toolchain_is_a_go_name(
                lines(t),
                levels[i].dir@,
                lines(t).len(),
            );
        }
    }
}

proof fn lemma_go_mod_pin_is_a_go_name(levels: Seq<Level>, i: int)
    ensures
        go_mod_pin(levels, i) matches Search::Found(h) ==> begins(h.version, "go"@) && h.source
            is GoMod,
    decreases levels.len() - i,
{
    if 0 <= i < levels.len() {
        lemma_go_mod_pin_is_a_go_name(levels, i + 1);
        if levels[i].go_mod is Text {
            lemma_toolchain_from_is_a_go_name(lines(levels[i].go_mod->Text_0@), 0);
        }
    }
}

proof fn lemma_version_file_pin_is_a_go_name(levels: Seq<Level>, i: int)
    ensures
        version_file_pin(levels, i) matches Search::Found(h) ==> begins(h.version, "go"@)
            && h.source is GoVersionFile,
    decreases levels.len() - i,
{
    if 0 <= i < levels.len() {
        lemma_version_file_pin_is_a_go_name(levels, i + 1);
        if levels[i].go_version is Text {
            lemma_canonical_begins_go(trimmed(levels[i].go_version->Text_0@));
        }
    }
}

/// The version of a project's pin is a `go...` name that comes from a file.
pub proof fn lemma_project_pin_is_a_go_name(levels: Seq<Level>)
    ensures
        project_pin(levels) matches Search::Found(h) ==> begins(h.version, "go"@) && (h.source
            is GoWork || h.source is GoMod || h.source is GoVersionFile),
{
    lemma_work_pin_is_a_go_name(levels, 0);
    lemma_go_mod_pin_is_a_go_name(levels, 0);
    lemma_version_file_pin_is_a_go_name(levels, 0);
}

} // verus!
