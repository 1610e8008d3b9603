//! Laws of `go.work`: which line names the toolchain, and which lines name the
//! members.

use vstd::prelude::*;

use crate::laws::text::{
    blank, law_before_mark, law_before_no_mark, law_begins, law_strip, law_trim,
    law_trim_is_idempotent, lemma_back, lemma_front, repeated, stands_at,
};
use crate::manifest::canonical;
use crate::paths::joined;
use crate::text::{begins, is_white, lines, trimmed};
use crate::workspace::{bare_line, reading, reading_of, use_target};

verus! {

/// A line loses the whitespace around it, and its comment with the whitespace
/// in front of that.
pub proof fn law_bare_line(code: Seq<char>, comment: Seq<char>)
    requires
        forall|i: int| 0 <= i < code.len() ==> !stands_at(code + "//"@ + comment, "//"@, i),
    ensures
        bare_line(code + "//"@ + comment) == trimmed(code),
        bare_line(code) == trimmed(code),
{
    reveal_strlit("//");
    let (a, b) = lemma_front(code);
    let (d, e) = lemma_back(comment);
    let whole = code + "//"@ + comment;
    let core = b + "//"@ + d;
    assert(whole == a + core + e);
    law_trim(a, core, e);
    assert(core.subrange(b.len() as int, b.len() + 2int) == "//"@);
    assert forall|i: int| 0 <= i < b.len() implies !stands_at(core, "//"@, i) by {
        if stands_at(core, "//"@, i) {
            assert(whole.subrange(a.len() + i, a.len() + i + 2) == core.subrange(i, i + 2));
            assert(stands_at(whole, "//"@, a.len() + i));
        }
    }
    law_before_mark(core, "//"@, b.len() as int);
    assert(core.take(b.len() as int) == b);
    lemma_trimmed_front(code);
    let t = trimmed(code);
    let (f, g) = lemma_back(b);
    assert(t == f);
    assert forall|i: int| !stands_at(t, "//"@, i) by {
        if stands_at(t, "//"@, i) {
            assert(whole.subrange(a.len() + i, a.len() + i + 2) == t.subrange(i, i + 2));
            assert(stands_at(whole, "//"@, a.len() + i));
        }
    }
    law_before_no_mark(t, "//"@);
    law_trim_is_idempotent(code);
}

proof fn lemma_trimmed_front(s: Seq<char>)
    ensures
        trimmed(crate::text::trimmed_start(s)) == trimmed(s),
{
    let (a, b) = lemma_front(s);
    let (c, d) = lemma_back(b);
    let none = Seq::<char>::empty();
    if c.len() > 0 {
        assert(c[0] == b[0]);
    }
    law_trim(none, c, d);
    assert(none + c + d == b);
    law_trim(a, c, d);
    assert(a + c + d == s);
}

/// Whether a line names a toolchain.
pub open spec fn names_toolchain(line: Seq<char>) -> bool {
    begins(bare_line(line), "toolchain "@)
}

/// The last `toolchain` line of a `go.work` names the toolchain, and a text
/// without such a line has none: no line of another kind gives one.
pub proof fn law_workspace_toolchain(text: Seq<char>, root: Seq<char>, i: int)
    requires
        -1 <= i < lines(text).len(),
        i >= 0 ==> names_toolchain(lines(text)[i]),
        forall|j: int| i < j < lines(text).len() ==> !names_toolchain(#[trigger] lines(text)[j]),
    ensures
        i == -1 ==> reading_of(text, root).toolchain is None,
        i >= 0 ==> reading_of(text, root).toolchain == Some(
            canonical(bare_line(lines(text)[i]).skip("toolchain "@.len() as int)),
        ),
{
    lemma_toolchain(lines(text), root, i, lines(text).len());
}

proof fn lemma_toolchain(all: Seq<Seq<char>>, root: Seq<char>, i: int, n: nat)
    requires
        -1 <= i < n <= all.len() || (i == -1 && n == 0),
        i >= 0 ==> names_toolchain(all[i]),
        forall|j: int| i < j < n ==> !names_toolchain(#[trigger] all[j]),
    ensures
        i == -1 ==> reading(all, root, n).toolchain is None,
        i >= 0 ==> reading(all, root, n).toolchain == Some(
            canonical(bare_line(all[i]).skip("toolchain "@.len() as int)),
        ),
    decreases n,
{
    reveal_strlit("toolchain ");
    if n > 0 {
        if i == n - 1 {
            law_trim_is_idempotent(bare_line(all[i]).skip(10));
            assert(bare_line(all[i]).len() > 0);
        } else {
            assert(!names_toolchain(all[n - 1]));
            lemma_toolchain(all, root, i, (n - 1) as nat);
        }
    }
}

/// Whether a line opens a block of members.
pub open spec fn opens_block(line: Seq<char>) -> bool {
    begins(bare_line(line), "use "@) && trimmed(bare_line(line).skip(4)) == "("@
}

/// Whether a line closes a block of members.
pub open spec fn closes_block(line: Seq<char>) -> bool {
    bare_line(line) == ")"@
}

/// Whether the line at `i` stands in a block: a line before it opens one, and
/// none in between closes it.
pub open spec fn in_block(all: Seq<Seq<char>>, i: int) -> bool {
    exists|k: int| #[trigger]
        opens_at(all, k) && k < i && forall|j: int| k < j < i ==> !closes_block(#[trigger] all[j])
}

/// Whether the line at `k` opens a block.
pub open spec fn opens_at(all: Seq<Seq<char>>, k: int) -> bool {
    0 <= k < all.len() && opens_block(all[k])
}

/// What the line at `i` says of a member, where it says anything: what follows
/// `use`, or the whole of a line in a block.
pub open spec fn member_text(all: Seq<Seq<char>>, i: int) -> Option<Seq<char>> {
    let line = bare_line(all[i]);
    if begins(line, "toolchain "@) || opens_block(all[i]) {
        None
    } else if begins(line, "use "@) {
        Some(trimmed(line.skip(4)))
    } else if in_block(all, i) && !closes_block(all[i]) {
        Some(line)
    } else {
        None
    }
}

/// Whether the line at `i` names a member.
pub open spec fn names_member(all: Seq<Seq<char>>, i: int) -> bool {
    member_text(all, i) is Some && use_target(member_text(all, i)->0) is Some
}

/// The directory that the line at `i` names.
pub open spec fn member(all: Seq<Seq<char>>, root: Seq<char>, i: int) -> Seq<char> {
    joined(root, use_target(member_text(all, i)->0)->0)
}

/// The numbers from 0 up to `n`.
pub open spec fn upto(n: nat) -> Seq<int> {
    Seq::new(n, |i: int| i)
}

/// The members of a `go.work` are the directories that its lines name, in the
/// order of the lines: behind `use`, or in a block that `use (` opens and `)`
/// closes.
pub proof fn law_workspace_members(text: Seq<char>, root: Seq<char>)
    ensures
        reading_of(text, root).members == upto(lines(text).len()).filter(
            |i: int| names_member(lines(text), i),
        ).map_values(|i: int| member(lines(text), root, i)),
{
    lemma_members(lines(text), root, lines(text).len());
}

proof fn lemma_block(all: Seq<Seq<char>>, root: Seq<char>, n: nat)
    requires
        n <= all.len(),
    ensures
        reading(all, root, n).in_use_block == in_block(all, n as int),
    decreases n,
{
    reveal_strlit("toolchain ");
    reveal_strlit("use ");
    reveal_strlit("(");
    reveal_strlit(")");
    if n > 0 {
        lemma_block(all, root, (n - 1) as nat);
        let last = n - 1;
        let line = bare_line(all[last]);
        lemma_use_rest(line);
        lemma_kinds(line);
        if opens_block(all[last]) {
            assert(opens_at(all, last));
        } else if closes_block(all[last]) {
            assert(!in_block(all, n as int)) by {
                if in_block(all, n as int) {
                    let k = choose|k: int| #[trigger]
                        opens_at(all, k) && k < n && forall|j: int|
                            k < j < n ==> !closes_block(#[trigger] all[j]);
                    if k < last {
                        assert(!closes_block(all[last]));
                    }
                }
            }
        } else {
            if in_block(all, last) {
                let k = choose|k: int| #[trigger]
                    opens_at(all, k) && k < last && forall|j: int|
                        k < j < last ==> !closes_block(#[trigger] all[j]);
                assert(opens_at(all, k));
            }
            if in_block(all, n as int) {
                let k = choose|k: int| #[trigger]
                    opens_at(all, k) && k < n && forall|j: int|
                        k < j < n ==> !closes_block(#[trigger] all[j]);
                assert(opens_at(all, k) && k < last);
            }
        }
    }
}

proof fn lemma_use_rest(line: Seq<char>)
    ensures
        begins(line, "use "@) ==> trimmed(line.skip(3)) == trimmed(line.skip(4)),
{
    reveal_strlit("use ");
    if begins(line, "use "@) {
        law_begins(line, "use "@);
        assert(line[3] == "use "@[3]);
        let rest = line.skip(4);
        assert(line.skip(3).drop_first() == rest);
        assert(line.skip(3)[0] == ' ');
    }
}

proof fn lemma_kinds(line: Seq<char>)
    ensures
        begins(line, "toolchain "@) ==> !begins(line, "use "@) && line != ")"@ && line.len() > 0,
        begins(line, "use "@) ==> line != ")"@ && line.len() > 0,
{
    reveal_strlit("toolchain ");
    reveal_strlit("use ");
    reveal_strlit(")");
    law_begins(line, "toolchain "@);
    law_begins(line, "use "@);
    if begins(line, "toolchain "@) {
        assert(line[0] == "toolchain "@[0]);
    }
    if begins(line, "use "@) {
        assert(line[0] == "use "@[0]);
    }
}

proof fn lemma_members(all: Seq<Seq<char>>, root: Seq<char>, n: nat)
    requires
        n <= all.len(),
    ensures
        reading(all, root, n).members == upto(n).filter(
            |i: int| names_member(all, i),
        ).map_values(|i: int| member(all, root, i)),
    decreases n,
{
    reveal(Seq::filter);
    let named = |i: int| names_member(all, i);
    let dir = |i: int| member(all, root, i);
    if n > 0 {
        let last = n - 1;
        lemma_members(all, root, last as nat);
        lemma_block(all, root, last as nat);
        let line = bare_line(all[last]);
        lemma_use_rest(line);
        lemma_kinds(line);
        reveal_strlit(")");
        assert(upto(n).drop_last() == upto(last as nat));
        assert(upto(n).last() == last);
        let had = upto(last as nat).filter(named);
        assert(had.push(last).map_values(dir) == had.map_values(dir).push(dir(last)));
        if line.len() == 0 {
            lemma_empty_target(line);
        }
    }
}

proof fn lemma_empty_target(line: Seq<char>)
    requires
        line.len() == 0,
    ensures
        use_target(line) is None,
{
    law_trim(line, line, line);
    assert(line + line + line == line);
    law_strip('"', 0, line);
    assert(repeated('"', 0) + line == line);
    assert(line + repeated('"', 0) == line);
}

/// The whitespace and the quotes around a directory are taken off; a text of
/// nothing else names no directory.
pub proof fn law_use_target(
    lead: Seq<char>,
    quotes: nat,
    lead_inside: Seq<char>,
    dir: Seq<char>,
    trail_inside: Seq<char>,
    more: nat,
    trail: Seq<char>,
)
    requires
        blank(lead),
        blank(lead_inside),
        blank(trail_inside),
        blank(trail),
        quotes > 0 || lead_inside.len() == 0,
        more > 0 || trail_inside.len() == 0,
        dir.len() > 0,
        !is_white(dir[0]),
        !is_white(dir[dir.len() - 1]),
        lead_inside.len() > 0 || dir[0] != '"',
        trail_inside.len() > 0 || dir[dir.len() - 1] != '"',
    ensures
        use_target(
            lead + (repeated('"', quotes) + (lead_inside + dir + trail_inside) + repeated(
                '"',
                more,
            )) + trail,
        ) == Some(dir),
        use_target(lead + repeated('"', quotes) + trail) is None,
        quotes > 0 && more > 0 && lead_inside.len() > 0 ==> use_target(
            lead + (repeated('"', quotes) + lead_inside + repeated('"', more)) + trail,
        ) is None,
{
    let inside = lead_inside + dir + trail_inside;
    let core = repeated('"', quotes) + inside + repeated('"', more);
    law_trim(lead, core, trail);
    assert(core == repeated('"', quotes) + (inside + repeated('"', more)));
    if lead_inside.len() > 0 {
        assert(is_white(lead_inside[0]));
    }
    if trail_inside.len() > 0 {
        assert(is_white(trail_inside[trail_inside.len() - 1]));
    }
    law_strip('"', quotes, inside + repeated('"', more));
    law_strip('"', more, inside);
    law_trim(lead_inside, dir, trail_inside);
    if quotes > 0 && more > 0 && lead_inside.len() > 0 {
        let hollow = repeated('"', quotes) + lead_inside + repeated('"', more);
        law_trim(lead, hollow, trail);
        assert(hollow == repeated('"', quotes) + (lead_inside + repeated('"', more)));
        assert(is_white(lead_inside[lead_inside.len() - 1]));
        law_strip('"', quotes, lead_inside + repeated('"', more));
        law_strip('"', more, lead_inside);
        law_trim(lead_inside, Seq::empty(), Seq::empty());
        assert(lead_inside + Seq::<char>::empty() + Seq::<char>::empty() == lead_inside);
    }
    let only = repeated('"', quotes);
    let none = Seq::<char>::empty();
    law_trim(lead, only, trail);
    law_strip('"', quotes, none);
    assert(only + none == only);
    law_strip('"', 0, none);
    assert(none + repeated('"', 0) == none);
    law_trim(none, none, none);
    assert(none + none + none == none);
}

} // verus!
