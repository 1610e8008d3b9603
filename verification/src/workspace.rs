//! Parse `go.work` files. Workspaces let a single `gv.toml` + `gv.lock` rule
//! a multi-module repo, with `toolchain` at the workspace root taking
//! precedence over individual members' `go.mod`.

use vstd::prelude::*;
use vstd::string::*;

use crate::manifest::canonical;
use crate::paths;
use crate::paths::joined;
use crate::project::Marks;
use crate::text;
use crate::text::{before, begins, lines, texts, trimmed, without_leading, without_trailing};

verus! {

pub const WORKSPACE_FILE: &'static str = "go.work";

/// What a `go.work` file says.
#[derive(Debug, Clone, Default)]
pub struct GoWork {
    /// `toolchain go1.25.0` line, if present.
    pub toolchain: Option<String>,
    /// Module directories listed under `use (...)` (or `use ./path`),
    /// resolved relative to the go.work file.
    pub members: Vec<String>,
}

/// A `go.work` file as read so far.
pub ghost struct Reading {
    pub toolchain: Option<Seq<char>>,
    pub members: Seq<Seq<char>>,
    /// Whether a `use (` block is open.
    pub in_use_block: bool,
}

/// The directory that a `use` line names: the text without surrounding
/// whitespace and quotes, where anything is left.
pub open spec fn use_target(line: Seq<char>) -> Option<Seq<char>> {
    let stripped = trimmed(without_trailing(without_leading(trimmed(line), '"'), '"'));
    if stripped.len() == 0 {
        None
    } else {
        Some(stripped)
    }
}

/// The members once the `use` target in `line` has been added.
pub open spec fn with_target(
    members: Seq<Seq<char>>,
    root: Seq<char>,
    line: Seq<char>,
) -> Seq<Seq<char>> {
    match use_target(line) {
        Some(p) => members.push(joined(root, p)),
        None => members,
    }
}

/// A line without its comment and the whitespace around it.
pub open spec fn bare_line(raw: Seq<char>) -> Seq<char> {
    trimmed(before(trimmed(raw), "//"@))
}

/// The reading after one more line.
pub open spec fn after_line(st: Reading, raw: Seq<char>, root: Seq<char>) -> Reading {
    let line = bare_line(raw);
    if line.len() == 0 {
        st
    } else if begins(line, "toolchain "@) {
        Reading { toolchain: Some(canonical(trimmed(line.skip(10)))), ..st }
    } else if begins(line, "use "@) {
        let rest = trimmed(line.skip(3));
        if rest == "("@ {
            Reading { in_use_block: true, ..st }
        } else {
            Reading { members: with_target(st.members, root, rest), ..st }
        }
    } else if st.in_use_block {
        if line == ")"@ {
            Reading { in_use_block: false, ..st }
        } else {
            Reading { members: with_target(st.members, root, line), ..st }
        }
    } else {
        st
    }
}

/// The reading after the first `n` lines.
pub open spec fn reading(all: Seq<Seq<char>>, root: Seq<char>, n: nat) -> Reading
    decreases n,
{
    if n == 0 {
        Reading { toolchain: None, members: Seq::empty(), in_use_block: false }
    } else {
        after_line(reading(all, root, (n - 1) as nat), all[n - 1], root)
    }
}

/// The reading of a whole file.
pub open spec fn reading_of(text: Seq<char>, root: Seq<char>) -> Reading {
    reading(lines(text), root, lines(text).len())
}

/// The directory that a `use` line names.
pub fn parse_use_target(line: &str) -> (r: Option<String>)
    ensures
        r is Some <==> use_target(line@) is Some,
        r matches Some(p) ==> use_target(line@) == Some(p@),
{
    let trimmed_line = text::trim(line);
    let unquoted = text::strip_both(trimmed_line.as_str(), '"');
    let stripped = text::trim(unquoted.as_str());
    proof {
        if trimmed_line@.len() == 0 {
            assert(unquoted@ == Seq::<char>::empty());
        }
    }
    if stripped.as_str().is_empty() {
        None
    } else {
        Some(stripped)
    }
}

/// The canonical form of a toolchain name.
pub fn normalize_toolchain(v: &str) -> (r: String)
    ensures
        r@ == canonical(v@),
{
    crate::manifest::normalize(v)
}

/// Read the text of a `go.work` file that stands in the directory `root`.
pub fn parse(text: &str, root: &str) -> (r: GoWork)
    ensures
        r.toolchain is Some <==> reading_of(text@, root@).toolchain is Some,
        r.toolchain matches Some(v) ==> reading_of(text@, root@).toolchain == Some(v@),
        texts(r.members@) == reading_of(text@, root@).members,
{
    let all = text::split_lines(text);
    let mut toolchain: Option<String> = None;
    let mut members: Vec<String> = Vec::new();
    let mut in_use_block = false;
    let mut i: usize = 0;
    assert(texts(members@) == Seq::<Seq<char>>::empty());
    proof {
        reveal_strlit("toolchain ");
        reveal_strlit("use ");
    }
    while i < all.len()
        invariant
            i <= all@.len(),
            texts(all@) == lines(text@),
            "toolchain "@.len() == 10,
            toolchain is Some <==> reading(lines(text@), root@, i as nat).toolchain is Some,
            toolchain matches Some(v) ==> reading(lines(text@), root@, i as nat).toolchain == Some(
                v@,
            ),
            texts(members@) == reading(lines(text@), root@, i as nat).members,
            in_use_block == reading(lines(text@), root@, i as nat).in_use_block,
        decreases all@.len() - i,
    {
        let ghost st = reading(lines(text@), root@, i as nat);
        let ghost raw = lines(text@)[i as int];
        assert(all@[i as int]@ == raw);
        let ghost had = members@;
        let trimmed_line = text::trim(all[i].as_str());
        let uncommented = text::cut_before(trimmed_line.as_str(), "//");
        let line = text::trim(uncommented.as_str());
        assert(line@ == bare_line(raw));
        i = i + 1;
        assert(reading(lines(text@), root@, i as nat) == after_line(st, raw, root@));
        if line.as_str().is_empty() {
            continue;
        }
        if let Some(rest) = text::strip_prefix(line.as_str(), "toolchain ") {
            let name = text::trim(rest.as_str());
            toolchain = Some(normalize_toolchain(name.as_str()));
            continue;
        }
        if text::starts_with(line.as_str(), "use ") {
            let cs = text::chars(line.as_str());
            proof {
                reveal_strlit("use ");
                assert(cs@.subrange(3, cs@.len() as int) == line@.skip(3));
            }
            let tail = text::slice(&cs, 3, cs.len());
            let rest = text::trim(tail.as_str());
            if text::same(rest.as_str(), "(") {
                in_use_block = true;
                continue;
            }
            if let Some(p) = parse_use_target(rest.as_str()) {
                members.push(paths::join(root, p.as_str()));
                assert(texts(members@) == texts(had).push(joined(root@, p@)));
            }
            continue;
        }
        if in_use_block {
            if text::same(line.as_str(), ")") {
                in_use_block = false;
                continue;
            }
            if let Some(p) = parse_use_target(line.as_str()) {
                members.push(paths::join(root, p.as_str()));
                assert(texts(members@) == texts(had).push(joined(root@, p@)));
            }
        }
    }
    GoWork { toolchain, members }
}

/// Find the workspace root on the way up: the first directory with a
/// `go.work`. The directories are given from where the search starts; the
/// result counts from there.
pub fn find_workspace_root(dirs: &[Marks]) -> (r: Option<usize>)
    ensures
        match r {
            Some(i) => {
                &&& i < dirs@.len()
                &&& dirs@[i as int].go_work
                &&& forall|j: int| 0 <= j < i ==> !(#[trigger] dirs@[j]).go_work
            },
            None => forall|j: int| 0 <= j < dirs@.len() ==> !(#[trigger] dirs@[j]).go_work,
        },
{
    let mut i: usize = 0;
    while i < dirs.len()
        invariant
            i <= dirs@.len(),
            forall|j: int| 0 <= j < i ==> !(#[trigger] dirs@[j]).go_work,
        decreases dirs@.len() - i,
    {
        if dirs[i].go_work {
            return Some(i);
        }
        i = i + 1;
    }
    None
}

/// The toolchain of a `go.work` file is a `go...` name.
pub proof fn lemma_reading_toolchain_is_a_go_name(all: Seq<Seq<char>>, root: Seq<char>, n: nat)
    ensures
        reading(all, root, n).toolchain matches Some(v) ==> begins(v, "go"@),
    decreases n,
{
    if n > 0 {
        lemma_reading_toolchain_is_a_go_name(all, root, (n - 1) as nat);
        crate::manifest::lemma_canonical_begins_go(trimmed(bare_line(all[n - 1]).skip(10)));
    }
}

} // verus!
