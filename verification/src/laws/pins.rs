//! Laws of toolchain pins: what a `go.mod` and a toolchain name say, and when a
//! search for a pin passes a file over or fails at it.

use vstd::prelude::*;

use crate::laws::text::{blank, law_begins, law_trim, law_trim_is_idempotent, tight};
use crate::manifest::{
    canonical, gives_no_toolchain, gives_no_version, go_mod_pin, go_mod_toolchain, project_pin,
    toolchain_from, version_file_pin, work_pin, HitView, Level, ToolchainSource,
};
use crate::paths::joined;
use crate::release::normalized;
use crate::resolve::{resolution, Context, ResolvedView};
use crate::search::{FileState, Listing, Request, Search};
use crate::text::{begins, lines, trimmed};
use crate::workspace::reading_of;

verus! {

/// A toolchain name loses the whitespace around it, and gets `go` in front
/// where it lacks that.
pub proof fn law_canonical(lead: Seq<char>, name: Seq<char>, trail: Seq<char>)
    requires
        blank(lead),
        tight(name),
        blank(trail),
    ensures
        name.len() >= 2 && name[0] == 'g' && name[1] == 'o' ==> canonical(lead + name + trail)
            == name && normalized(lead + name + trail) == name,
        !(name.len() >= 2 && name[0] == 'g' && name[1] == 'o') ==> canonical(lead + name + trail)
            == "go"@ + name && normalized(lead + name + trail) == "go"@ + name,
{
    reveal_strlit("go");
    law_trim(lead, name, trail);
    law_begins(name, "go"@);
    crate::release::law_normalized_is_canonical(lead + name + trail);
    if name.len() >= 2 && name[0] == 'g' && name[1] == 'o' {
        assert(begins(name, "go"@));
    } else {
        assert(!begins(name, "go"@)) by {
            if begins(name, "go"@) {
                assert(name[0] == "go"@[0] && name[1] == "go"@[1]);
            }
        }
    }
}

/// Whether a line of a `go.mod` is a `toolchain` directive that says `rest`.
pub open spec fn directs(line: Seq<char>, rest: Seq<char>) -> bool {
    trimmed(line) == "toolchain "@ + rest
}

/// Whether a line of a `go.mod` is no `toolchain` directive.
pub open spec fn directs_nothing(line: Seq<char>) -> bool {
    forall|rest: Seq<char>| trimmed(line) != "toolchain "@ + rest
}

/// The first `toolchain` directive of a `go.mod` names the toolchain; a text
/// without one names none.
pub proof fn law_go_mod_toolchain(content: Seq<char>, i: int, rest: Seq<char>)
    requires
        0 <= i <= lines(content).len(),
        forall|j: int| 0 <= j < i ==> directs_nothing(#[trigger] lines(content)[j]),
        i < lines(content).len() ==> directs(lines(content)[i], rest),
    ensures
        i < lines(content).len() ==> go_mod_toolchain(content) == Some(canonical(rest)),
        i == lines(content).len() ==> go_mod_toolchain(content) is None,
{
    lemma_toolchain_from(lines(content), 0, i, rest);
}

proof fn lemma_toolchain_from(all: Seq<Seq<char>>, from: int, i: int, rest: Seq<char>)
    requires
        0 <= from <= i <= all.len(),
        forall|j: int| from <= j < i ==> directs_nothing(#[trigger] all[j]),
        i < all.len() ==> directs(all[i], rest),
    ensures
        i < all.len() ==> toolchain_from(all, from) == Some(canonical(rest)),
        i == all.len() ==> toolchain_from(all, from) is None,
    decreases i - from,
{
    reveal_strlit("toolchain ");
    if from < i {
        assert(directs_nothing(all[from]));
        let t = trimmed(all[from]);
        if begins(t, "toolchain "@) {
            assert(t == "toolchain "@ + t.skip(10));
        }
        lemma_toolchain_from(all, from + 1, i, rest);
    } else if i < all.len() {
        let t = trimmed(all[i]);
        law_begins(rest, "toolchain "@);
        assert(t.skip(10) == rest);
        law_trim_is_idempotent(rest);
    }
}

/// Whether the workspace pins nothing: there is no `go.work` up to the top, or
/// the nearest one names no toolchain.
pub open spec fn workspace_pins_nothing(levels: Seq<Level>, nearest: int) -> bool {
    &&& 0 <= nearest <= levels.len()
    &&& forall|j: int| 0 <= j < nearest ==> (#[trigger] levels[j]).go_work is Absent
    &&& nearest < levels.len() ==> (levels[nearest].go_work matches FileState::Text(t)
        && reading_of(t@, levels[nearest].dir@).toolchain is None)
}

proof fn lemma_work_pin(levels: Seq<Level>, from: int, to: int)
    requires
        0 <= from <= to <= levels.len(),
        forall|j: int| from <= j < to ==> (#[trigger] levels[j]).go_work is Absent,
    ensures
        work_pin(levels, from) == work_pin(levels, to),
    decreases to - from,
{
    if from < to {
        assert(levels[from].go_work is Absent);
        lemma_work_pin(levels, from + 1, to);
    }
}

proof fn lemma_go_mod_pin(levels: Seq<Level>, from: int, to: int)
    requires
        0 <= from <= to <= levels.len(),
        forall|j: int| from <= j < to ==> gives_no_toolchain((#[trigger] levels[j]).go_mod),
    ensures
        go_mod_pin(levels, from) == go_mod_pin(levels, to),
    decreases to - from,
{
    if from < to {
        assert(gives_no_toolchain(levels[from].go_mod));
        lemma_go_mod_pin(levels, from + 1, to);
    }
}

proof fn lemma_version_file_pin(levels: Seq<Level>, from: int, to: int)
    requires
        0 <= from <= to <= levels.len(),
        forall|j: int| from <= j < to ==> gives_no_version((#[trigger] levels[j]).go_version),
    ensures
        version_file_pin(levels, from) == version_file_pin(levels, to),
    decreases to - from,
{
    if from < to {
        assert(gives_no_version(levels[from].go_version));
        lemma_version_file_pin(levels, from + 1, to);
    }
}

/// Whether a `go.mod` is not there, or holds a text without a `toolchain`
/// directive.
pub open spec fn no_directive(go_mod: FileState) -> bool {
    match go_mod {
        FileState::Absent => true,
        FileState::Text(t) => forall|j: int|
            0 <= j < lines(t@).len() ==> directs_nothing(#[trigger] lines(t@)[j]),
        _ => false,
    }
}

/// Whether a `.go-version` is not there, or holds only whitespace.
pub open spec fn no_version(go_version: FileState) -> bool {
    match go_version {
        FileState::Absent => true,
        FileState::Text(t) => blank(t@),
        _ => false,
    }
}

proof fn lemma_nothing(levels: Seq<Level>, from: int, to: int)
    requires
        0 <= from <= to <= levels.len(),
    ensures
        (forall|j: int| from <= j < to ==> no_directive((#[trigger] levels[j]).go_mod)) ==> (forall|
            j: int,
        |
            from <= j < to ==> gives_no_toolchain((#[trigger] levels[j]).go_mod)),
        (forall|j: int| from <= j < to ==> no_version((#[trigger] levels[j]).go_version)) ==> (
        forall|j: int| from <= j < to ==> gives_no_version((#[trigger] levels[j]).go_version)),
{
    if forall|j: int| from <= j < to ==> no_directive((#[trigger] levels[j]).go_mod) {
        assert forall|j: int| from <= j < to implies gives_no_toolchain(
            (#[trigger] levels[j]).go_mod,
        ) by {
            assert(no_directive(levels[j].go_mod));
            if let FileState::Text(t) = levels[j].go_mod {
                law_go_mod_toolchain(t@, lines(t@).len() as int, Seq::empty());
            }
        }
    }
    if forall|j: int| from <= j < to ==> no_version((#[trigger] levels[j]).go_version) {
        assert forall|j: int| from <= j < to implies gives_no_version(
            (#[trigger] levels[j]).go_version,
        ) by {
            assert(no_version(levels[j].go_version));
            if let FileState::Text(t) = levels[j].go_version {
                law_trim(t@, Seq::empty(), Seq::empty());
                assert(t@ + Seq::<char>::empty() + Seq::<char>::empty() == t@);
            }
        }
    }
}

/// The project's pin, file by file: a toolchain in the nearest `go.work`; else
/// the first directive of the nearest `go.mod` with one, whatever any
/// `.go-version` holds; else the name in the nearest `.go-version` that holds
/// more than whitespace; else none.
pub proof fn law_project_pin(levels: Seq<Level>, work: int, module: int, file: int)
    requires
        workspace_pins_nothing(levels, work),
        0 <= module <= levels.len(),
        forall|j: int| 0 <= j < module ==> no_directive((#[trigger] levels[j]).go_mod),
        0 <= file <= levels.len(),
        forall|j: int| 0 <= j < file ==> no_version((#[trigger] levels[j]).go_version),
    ensures
        module < levels.len() ==> (levels[module].go_mod matches FileState::Text(t) ==> (
        go_mod_toolchain(t@) matches Some(v) ==> project_pin(levels) == Search::Found(
            HitView {
                version: v,
                source: ToolchainSource::GoMod,
                origin: joined(levels[module].dir@, "go.mod"@),
            },
        ))),
        module < levels.len() && levels[module].go_mod is Failed ==> project_pin(levels)
            == Search::<HitView>::Failed(Request::GoMod(module as usize)),
        module < levels.len() && levels[module].go_mod is Unread ==> project_pin(levels)
            == Search::<HitView>::Read(Request::GoMod(module as usize)),
        module == levels.len() && file < levels.len() ==> (levels[file].go_version
            matches FileState::Text(t) ==> (!blank(t@) ==> project_pin(levels) == Search::Found(
            HitView {
                version: canonical(t@),
                source: ToolchainSource::GoVersionFile,
                origin: joined(levels[file].dir@, ".go-version"@),
            },
        ))),
        module == levels.len() && file < levels.len() && levels[file].go_version is Failed
            ==> project_pin(levels) == Search::<HitView>::Failed(
            Request::GoVersion(file as usize),
        ),
        module == levels.len() && file < levels.len() && levels[file].go_version is Unread
            ==> project_pin(levels) == Search::<HitView>::Read(Request::GoVersion(file as usize)),
        module == levels.len() && file == levels.len() ==> project_pin(levels) is NotFound,
{
    lemma_work_pin(levels, 0, work);
    lemma_nothing(levels, 0, module);
    lemma_nothing(levels, 0, file);
    lemma_go_mod_pin(levels, 0, module);
    lemma_version_file_pin(levels, 0, file);
    if file < levels.len() {
        if let FileState::Text(t) = levels[file].go_version {
            law_trim_is_idempotent(t@);
            if trimmed(t@).len() == 0 {
                lemma_trimmed_away(t@);
            }
        }
    }
}

proof fn lemma_trimmed_away(s: Seq<char>)
    requires
        trimmed(s).len() == 0,
    ensures
        blank(s),
{
    let (a, b) = crate::laws::text::lemma_front(s);
    let (c, d) = crate::laws::text::lemma_back(b);
    assert(c.len() == 0);
    assert forall|i: int| 0 <= i < s.len() implies crate::text::is_white(#[trigger] s[i]) by {
        if i < a.len() {
            assert(crate::text::is_white(a[i]));
        } else {
            assert(b == d);
            assert(crate::text::is_white(d[i - a.len()]));
        }
    }
}

/// A search stops at a `go.work` that is unread or cannot be read, and takes
/// the toolchain of the nearest one.
pub proof fn law_workspace_pin(levels: Seq<Level>, i: int)
    requires
        0 <= i < levels.len(),
        forall|j: int| 0 <= j < i ==> (#[trigger] levels[j]).go_work is Absent,
    ensures
        levels[i].go_work is Unread ==> project_pin(levels) == Search::<HitView>::Read(
            Request::GoWork(i as usize),
        ),
        levels[i].go_work is Failed ==> project_pin(levels) == Search::<HitView>::Failed(
            Request::GoWork(i as usize),
        ),
        levels[i].go_work matches FileState::Text(t) ==> (reading_of(
            t@,
            levels[i].dir@,
        ).toolchain matches Some(v) ==> project_pin(levels) == Search::Found(
            HitView {
                version: v,
                source: ToolchainSource::GoWork,
                origin: joined(levels[i].dir@, "go.work"@),
            },
        )),
{
    lemma_work_pin(levels, 0, i);
}

/// Whether `GV_VERSION` says nothing: it is not set, or holds only whitespace.
pub open spec fn env_says_nothing(c: Context) -> bool {
    match c.env {
        Some(v) => blank(v@),
        None => true,
    }
}

proof fn lemma_blank_env(c: Context)
    ensures
        env_says_nothing(c) <==> c.env is None || trimmed(c.env->0@).len() == 0,
{
    if let Some(v) = c.env {
        if blank(v@) {
            law_trim(v@, Seq::empty(), Seq::empty());
            assert(v@ + Seq::<char>::empty() + Seq::<char>::empty() == v@);
        }
        if trimmed(v@).len() == 0 {
            lemma_trimmed_away(v@);
        }
    }
}

/// The version that applies, source by source: what `GV_VERSION` says; else the
/// project's pin, with its file; else what the global file says; else the
/// newest of the installed names. A source that cannot be read ends the search
/// where it comes to it.
pub proof fn law_resolution_order(c: Context)
    ensures
        !env_says_nothing(c) ==> resolution(c) == Search::Found(
            ResolvedView {
                version: canonical(c.env->0@),
                source: ToolchainSource::EnvVar,
                origin: None,
            },
        ),
        env_says_nothing(c) ==> match project_pin(c.levels@) {
            Search::Found(h) => resolution(c) == Search::Found(
                ResolvedView { version: h.version, source: h.source, origin: Some(h.origin) },
            ),
            Search::Read(q) => resolution(c) == Search::<ResolvedView>::Read(q),
            Search::Failed(q) => resolution(c) == Search::<ResolvedView>::Failed(q),
            Search::NotFound => match c.global {
                FileState::Unread => resolution(c) == Search::<ResolvedView>::Read(Request::Global),
                FileState::Failed => resolution(c) == Search::<ResolvedView>::Failed(
                    Request::Global,
                ),
                FileState::Text(t) => !blank(t@) ==> resolution(c) == Search::Found(
                    ResolvedView {
                        version: canonical(t@),
                        source: ToolchainSource::Global,
                        origin: Some(c.global_file@),
                    },
                ),
                FileState::Absent => true,
            },
        },
        env_says_nothing(c) && project_pin(c.levels@) is NotFound && no_version(c.global)
            ==> match c.installed {
            Listing::Unread => resolution(c) == Search::<ResolvedView>::Read(Request::Installed),
            Listing::Failed => resolution(c) == Search::<ResolvedView>::Failed(Request::Installed),
            Listing::Names(_) => resolution(c) matches Search::Found(r) ==> r.source
                is LatestInstalled && r.origin is None,
        },
{
    lemma_blank_env(c);
    if let Some(v) = c.env {
        law_trim_is_idempotent(v@);
    }
    if let FileState::Text(t) = c.global {
        law_trim_is_idempotent(t@);
        if trimmed(t@).len() == 0 {
            lemma_trimmed_away(t@);
        }
        if blank(t@) {
            law_trim(t@, Seq::empty(), Seq::empty());
            assert(t@ + Seq::<char>::empty() + Seq::<char>::empty() == t@);
        }
    }
}

} // verus!
