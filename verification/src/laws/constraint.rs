//! Laws of constraints: which texts are constraints, what is handed to the
//! version parser, which tags count as versions, and which one is picked.

use vstd::prelude::*;

use crate::constraint::{
    best_after, best_among, constraint_text, go_version, is_hex, is_pseudo, normalized_req, picked,
    semver_at_most, semver_req_parses, semver_satisfies, seen, semver_version, tagged,
    without_inner_v, without_v, SemVer,
};
use crate::laws::text::{blank, free_of, law_trim_start, lemma_front};
use crate::text::{is_digit, is_white};

verus! {

/// Whether a character is one of the comparison operators.
pub open spec fn operator(c: char) -> bool {
    "^~><="@.contains(c)
}

proof fn lemma_operator(c: char)
    ensures
        operator(c) <==> c == '^' || c == '~' || c == '>' || c == '<' || c == '=',
{
    reveal_strlit("^~><=");
    let ops = "^~><="@;
    assert(ops == seq!['^', '~', '>', '<', '=']);
    assert(ops[0] == '^' && ops[1] == '~' && ops[2] == '>' && ops[3] == '<' && ops[4] == '=');
}

/// A text whose first character behind any whitespace is a comparison operator
/// is a constraint, whatever follows.
pub proof fn law_operator_makes_a_constraint(lead: Seq<char>, op: char, rest: Seq<char>)
    requires
        blank(lead),
        operator(op),
    ensures
        constraint_text(lead + (seq![op] + rest)),
{
    lemma_operator(op);
    law_trim_start(lead, seq![op] + rest);
}

/// A text with a comma or a star anywhere is a constraint.
pub proof fn law_comma_or_star_makes_a_constraint(raw: Seq<char>, i: int)
    requires
        0 <= i < raw.len(),
        raw[i] == ',' || raw[i] == '*',
    ensures
        constraint_text(raw),
{
    let (a, b) = lemma_front(raw);
    if i < a.len() {
        assert(is_white(a[i]));
    }
    assert(b[i - a.len()] == raw[i]);
}

/// A text that opens with no comparison operator and has neither comma nor star
/// is no constraint.
pub proof fn law_plain_version_is_no_constraint(lead: Seq<char>, rest: Seq<char>)
    requires
        blank(lead),
        rest.len() > 0 ==> !is_white(rest[0]) && !operator(rest[0]),
        free_of(rest, ','),
        free_of(rest, '*'),
    ensures
        !constraint_text(lead + rest),
{
    law_trim_start(lead, rest);
    if rest.len() > 0 {
        lemma_operator(rest[0]);
    }
}

/// Whether a version may stand right behind the character: an operator, a comma
/// or a space.
pub open spec fn edge(c: char) -> bool {
    "^~><=, "@.contains(c)
}

proof fn lemma_edge(c: char)
    ensures
        edge(c) <==> crate::constraint::opens(c),
{
    reveal_strlit("^~><=, ");
    let all = "^~><=, "@;
    assert(all[0] == '^' && all[1] == '~' && all[2] == '>' && all[3] == '<' && all[4] == '='
        && all[5] == ',' && all[6] == ' ');
    if edge(c) {
        let k = choose|k: int| 0 <= k < all.len() && all[k] == c;
    }
}

/// Whether no comparator has a `v` in front of its version.
pub open spec fn bare(req: Seq<char>) -> bool {
    &&& req.len() > 0 ==> req[0] != 'v'
    &&& forall|i: int| 0 < i < req.len() && #[trigger] req[i] == 'v' ==> !edge(req[i - 1])
}

/// A constraint without a `v` in front of any version is left as it is, with
/// every other `v` that it has.
pub proof fn law_bare_constraint_is_kept(raw: Seq<char>)
    requires
        bare(raw),
    ensures
        normalized_req(raw) == raw,
{
    lemma_inner_kept(raw);
}

proof fn lemma_inner_kept(raw: Seq<char>)
    requires
        forall|i: int| 0 < i < raw.len() && #[trigger] raw[i] == 'v' ==> !edge(raw[i - 1]),
    ensures
        without_inner_v(raw) == raw,
    decreases raw.len(),
{
    if raw.len() > 0 {
        lemma_edge(raw[0]);
        let rest = raw.skip(1);
        assert forall|i: int| 0 < i < rest.len() && #[trigger] rest[i] == 'v' implies !edge(
            rest[i - 1],
        ) by {
            assert(raw[i + 1] == 'v');
        }
        if raw.len() > 1 && raw[1] == 'v' {
            assert(!edge(raw[0]));
        }
        lemma_inner_kept(rest);
        assert(seq![raw[0]] + rest == raw);
    }
}

/// One `v` in front of a version makes no difference, at the start or behind an
/// operator, a comma or a space: it is taken out.
pub proof fn law_leading_v_is_taken_out(p: Seq<char>, q: Seq<char>)
    requires
        p.len() == 0 || edge(p[p.len() - 1]),
        q.len() == 0 || q[0] != 'v',
    ensures
        normalized_req(p + "v"@ + q) == normalized_req(p + q),
{
    reveal_strlit("v");
    if p.len() == 0 {
        assert(p + q == q);
        assert((p + "v"@ + q).drop_first() == q);
    } else {
        lemma_edge(p[p.len() - 1]);
        if p[0] == 'v' {
            let less = p.drop_first();
            assert((p + "v"@ + q).drop_first() == less + "v"@ + q);
            assert((p + q).drop_first() == less + q);
            assert(less[less.len() - 1] == p[p.len() - 1]);
            lemma_inner_v(less, q);
        } else {
            lemma_inner_v(p, q);
        }
    }
}

proof fn lemma_inner_v(p: Seq<char>, q: Seq<char>)
    requires
        p.len() > 0,
        edge(p[p.len() - 1]),
        q.len() == 0 || q[0] != 'v',
    ensures
        without_inner_v(p + "v"@ + q) == without_inner_v(p + q),
    decreases p.len(),
{
    reveal_strlit("v");
    lemma_edge(p[p.len() - 1]);
    let x = p + "v"@ + q;
    let y = p + q;
    if p.len() == 1 {
        assert(x.skip(2) == q);
        assert(y.skip(1) == q);
    } else if crate::constraint::opens(p[0]) && p[1] == 'v' {
        assert(p.len() > 2);
        let less = p.skip(2);
        assert(x.skip(2) == less + "v"@ + q);
        assert(y.skip(2) == less + q);
        lemma_inner_v(less, q);
    } else {
        let less = p.skip(1);
        assert(x.skip(1) == less + "v"@ + q);
        assert(y.skip(1) == less + q);
        assert(less[less.len() - 1] == p[p.len() - 1]);
        lemma_inner_v(less, q);
    }
}

/// Only one `v` is taken out: a second one stays.
pub proof fn law_second_v_stays(p: Seq<char>, q: Seq<char>)
    requires
        p.len() == 0 || edge(p[p.len() - 1]),
        q.len() == 0 || q[0] != 'v',
    ensures
        normalized_req(p + "vv"@ + q) == normalized_req(p) + "v"@ + normalized_req(q),
{
    reveal_strlit("v");
    reveal_strlit("vv");
    let tail = "v"@ + q;
    assert(tail.skip(1) == q);
    assert(without_inner_v(tail) == "v"@ + without_inner_v(q));
    assert(without_v(q) == q);
    if p.len() == 0 {
        assert(p + "vv"@ + q == "vv"@ + q);
        assert(("vv"@ + q).drop_first() == tail);
        assert(normalized_req(p) == Seq::<char>::empty());
        assert(Seq::<char>::empty() + "v"@ + normalized_req(q) == "v"@ + normalized_req(q));
    } else {
        assert(p + "vv"@ + q == p + "v"@ + tail);
        let less = without_v(p);
        lemma_edge(p[p.len() - 1]);
        if p[0] == 'v' {
            assert((p + "v"@ + tail).drop_first() == less + "v"@ + tail);
            assert(less[less.len() - 1] == p[p.len() - 1]);
        }
        lemma_inner_parts(less, tail);
        assert(normalized_req(p) + ("v"@ + normalized_req(q)) == normalized_req(p) + "v"@
            + normalized_req(q));
    }
}

proof fn lemma_inner_parts(p: Seq<char>, q: Seq<char>)
    requires
        p.len() > 0,
        edge(p[p.len() - 1]),
    ensures
        without_inner_v(p + "v"@ + q) == without_inner_v(p) + without_inner_v(q),
    decreases p.len(),
{
    reveal_strlit("v");
    lemma_edge(p[p.len() - 1]);
    let x = p + "v"@ + q;
    let rest = if p.len() > 1 && crate::constraint::opens(p[0]) && p[1] == 'v' {
        p.skip(2)
    } else {
        p.skip(1)
    };
    if p.len() == 1 {
        assert(x.skip(2) == q);
        assert(p.skip(1) == Seq::<char>::empty());
        assert(without_inner_v(p) == seq![p[0]]);
    } else {
        let k = p.len() - rest.len();
        assert(rest.len() > 0);
        assert(rest[rest.len() - 1] == p[p.len() - 1]);
        assert(x.skip(k) == rest + "v"@ + q);
        lemma_inner_parts(rest, q);
        assert(without_inner_v(x) == seq![p[0]] + (without_inner_v(rest) + without_inner_v(q)));
        assert(without_inner_v(p) == seq![p[0]] + without_inner_v(rest));
        assert(seq![p[0]] + (without_inner_v(rest) + without_inner_v(q)) == seq![p[0]]
            + without_inner_v(rest) + without_inner_v(q));
    }
}

/// Nothing but the letter `v` is ever taken out of a constraint.
pub proof fn law_only_v_is_taken_out(raw: Seq<char>)
    ensures
        normalized_req(raw).filter(|c: char| c != 'v') == raw.filter(|c: char| c != 'v'),
{
    let other = |c: char| c != 'v';
    lemma_inner_filter(without_v(raw));
    if without_v(raw) != raw {
        assert(raw == seq![raw[0]] + raw.drop_first());
        lemma_filter_front(raw);
    }
}

proof fn lemma_filter_front(s: Seq<char>)
    requires
        s.len() > 0,
    ensures
        s.filter(|c: char| c != 'v') == (if s[0] != 'v' {
            seq![s[0]]
        } else {
            Seq::<char>::empty()
        }) + s.skip(1).filter(|c: char| c != 'v'),
        s.drop_first() == s.skip(1),
    decreases s.len(),
{
    reveal(Seq::filter);
    let other = |c: char| c != 'v';
    if s.len() == 1 {
        assert(s.drop_last() == Seq::<char>::empty());
        assert(s.skip(1) == Seq::<char>::empty());
        assert(Seq::<char>::empty().filter(other) == Seq::<char>::empty());
    } else {
        lemma_filter_front(s.drop_last());
        assert(s.drop_last().skip(1) == s.skip(1).drop_last());
        assert(s.skip(1).last() == s.last());
    }
}

proof fn lemma_inner_filter(raw: Seq<char>)
    ensures
        without_inner_v(raw).filter(|c: char| c != 'v') == raw.filter(|c: char| c != 'v'),
    decreases raw.len(),
{
    if raw.len() > 0 {
        let strips = crate::constraint::opens(raw[0]) && raw.len() > 1 && raw[1] == 'v';
        let rest = if strips {
            raw.skip(2)
        } else {
            raw.skip(1)
        };
        lemma_inner_filter(rest);
        let out = without_inner_v(raw);
        assert(out.skip(1) == without_inner_v(rest));
        lemma_filter_front(out);
        lemma_filter_front(raw);
        if strips {
            lemma_filter_front(raw.skip(1));
            assert(raw.skip(1).skip(1) == rest);
        }
    }
}

/// Whether a text is a time of 14 digits.
pub open spec fn is_time(t: Seq<char>) -> bool {
    t.len() == 14 && forall|i: int| 0 <= i < t.len() ==> '0' <= #[trigger] t[i] <= '9'
}

/// Whether a text is a revision of 12 hexadecimal digits.
pub open spec fn is_revision(r: Seq<char>) -> bool {
    r.len() == 12 && forall|i: int| 0 <= i < r.len() ==> "0123456789abcdefABCDEF"@.contains(
        #[trigger] r[i],
    )
}

proof fn lemma_hex(c: char)
    ensures
        "0123456789abcdefABCDEF"@.contains(c) <==> is_hex(c),
{
    reveal_strlit("0123456789abcdefABCDEF");
    let all = "0123456789abcdefABCDEF"@;
    if is_hex(c) {
        let k = if '0' <= c <= '9' {
            c as int - '0' as int
        } else if 'a' <= c <= 'f' {
            c as int - 'a' as int + 10
        } else {
            c as int - 'A' as int + 16
        };
        assert(all[k] == c);
    }
    if all.contains(c) {
        let k = choose|k: int| 0 <= k < all.len() && all[k] == c;
        assert(is_hex(all[k]));
    }
}

/// A time and a revision make a pseudo-version of a version 0.0 of its major
/// number, and of any version behind an identifier `0` of its own.
pub proof fn law_pseudo_versions(
    minor: u64,
    patch: u64,
    earlier: Seq<char>,
    time: Seq<char>,
    revision: Seq<char>,
)
    requires
        is_time(time),
        is_revision(revision),
    ensures
        is_pseudo(minor, patch, time + "-"@ + revision) <==> minor == 0 && patch == 0,
        is_pseudo(minor, patch, "0."@ + (time + "-"@ + revision)),
        is_pseudo(minor, patch, earlier + ".0."@ + (time + "-"@ + revision)),
{
    reveal_strlit("-");
    reveal_strlit("0.");
    reveal_strlit(".0.");
    let core = time + "-"@ + revision;
    assert forall|s: Seq<char>| #[trigger] crate::constraint::ends_in_revision(s + core) by {
        let all = s + core;
        let n = all.len() as int;
        assert forall|i: int| n - 27 <= i < n - 13 implies is_digit(#[trigger] all[i]) by {
            assert('0' <= time[i - (n - 27)] <= '9');
        }
        assert(all[n - 13] == '-');
        assert forall|i: int| n - 12 <= i < n implies is_hex(#[trigger] all[i]) by {
            lemma_hex(revision[i - (n - 12)]);
        }
    }
    let none = Seq::<char>::empty();
    assert(none + core == core);
    assert(crate::constraint::ends_in_revision(none + core));
    assert(crate::constraint::ends_in_revision("0."@ + core));
    assert(crate::constraint::ends_in_revision((earlier + ".0."@) + core));
    let long = earlier + ".0."@ + core;
    assert(long[long.len() - 28] == '.' && long[long.len() - 29] == '0' && long[long.len() - 30]
        == '.');
}

/// A pseudo-version is made up of a time and a revision in one of those forms:
/// no other pre-release identifier counts as one.
pub proof fn law_no_other_pseudo_versions(minor: u64, patch: u64, pre: Seq<char>)
    requires
        is_pseudo(minor, patch, pre),
    ensures
        pre.len() >= 27,
        ({
            let n = pre.len() as int;
            let front = pre.take(n - 27);
            &&& is_time(pre.subrange(n - 27, n - 13))
            &&& pre[n - 13] == '-'
            &&& is_revision(pre.skip(n - 12))
            &&& (front.len() == 0 && minor == 0 && patch == 0) || front == "0."@ || (front.len() >= 3
                && front.skip(front.len() - 3) == ".0."@)
        }),
{
    reveal_strlit("0.");
    reveal_strlit(".0.");
    let n = pre.len() as int;
    let time = pre.subrange(n - 27, n - 13);
    assert forall|i: int| 0 <= i < time.len() implies '0' <= #[trigger] time[i] <= '9' by {
        assert(is_digit(pre[n - 27 + i]));
    }
    let rev = pre.skip(n - 12);
    assert forall|i: int| 0 <= i < rev.len() implies "0123456789abcdefABCDEF"@.contains(
        #[trigger] rev[i],
    ) by {
        assert(is_hex(pre[n - 12 + i]));
        lemma_hex(rev[i]);
    }
    let front = pre.take(n - 27);
    if n == 29 {
        assert(front == "0."@);
    } else if n > 29 {
        assert(front.skip(front.len() - 3) == ".0."@);
    }
}

/// A module version is read without one leading `v`, and is a version unless it
/// is a pseudo-version.
pub proof fn law_go_version(s: Seq<char>)
    ensures
        go_version("v"@ + s) == tagged(semver_version(s)),
        s.len() > 0 && s[0] != 'v' ==> go_version(s) == tagged(semver_version(s)),
        tagged(semver_version(s)) is Some <==> (semver_version(s) matches Some(v) && !is_pseudo(
            v.1,
            v.2,
            v.3,
        )),
        tagged(semver_version(s)) is Some ==> tagged(semver_version(s)) == semver_version(s),
{
    reveal_strlit("v");
    assert(("v"@ + s).drop_first() == s);
}

/// A candidate becomes the best exactly where it is a version, satisfies the
/// constraint, and nothing was best before or it is above that.
pub proof fn law_better_candidate(
    best: Option<usize>,
    index: usize,
    version: SemVer,
    satisfies: bool,
    at_most_best: bool,
)
    ensures
        seen(None) is None,
        seen(Some(version)) == Some(version@),
        best_after(best, index, None, satisfies, at_most_best) == best,
        best_after(best, index, Some(version@), false, at_most_best) == best,
        best_after(None, index, Some(version@), true, at_most_best) == Some(index),
        best_after(best, index, Some(version@), true, false) == Some(index),
        best is Some ==> best_after(best, index, Some(version@), true, true) == best,
{
}

/// Whether a text names a version that satisfies a requirement.
pub open spec fn eligible(text: Seq<char>, req: Seq<char>) -> bool {
    &&& semver_version(without_v(text)) matches Some(v) && !is_pseudo(v.1, v.2, v.3)
    &&& semver_satisfies(req, without_v(text))
}

/// A version is picked exactly where the constraint can be read and one of the
/// versions satisfies it, and it is one of those.
pub proof fn law_pick_takes_what_satisfies(available: Seq<Seq<char>>, req_raw: Seq<char>)
    requires
        available.len() <= usize::MAX,
    ensures
        picked(available, req_raw) is Some <==> semver_req_parses(normalized_req(req_raw)) && exists|
            j: int,
        |
            0 <= j < available.len() && eligible(
                #[trigger] available[j],
                normalized_req(req_raw),
            ),
        picked(available, req_raw) matches Some(i) ==> i < available.len() && eligible(
            available[i as int],
            normalized_req(req_raw),
        ),
{
    lemma_best(available, normalized_req(req_raw), available.len());
}

proof fn lemma_best(available: Seq<Seq<char>>, req: Seq<char>, n: nat)
    requires
        n <= available.len() <= usize::MAX,
    ensures
        best_among(available, req, n) is Some <==> exists|j: int|
            0 <= j < n && eligible(#[trigger] available[j], req),
        best_among(available, req, n) matches Some(i) ==> i < n && eligible(
            available[i as int],
            req,
        ),
    decreases n,
{
    if n > 0 {
        lemma_best(available, req, (n - 1) as nat);
        let here = available[n - 1];
        if eligible(here, req) {
            assert(best_among(available, req, n) is Some);
        }
        if best_among(available, req, (n - 1) as nat) is Some {
            assert(best_among(available, req, n) is Some);
        }
    }
}

/// One more version is picked where it satisfies the constraint and is above
/// the one that was picked; else the choice stays.
pub proof fn law_one_more_version(available: Seq<Seq<char>>, text: Seq<char>, req_raw: Seq<char>)
    requires
        available.len() < usize::MAX,
        semver_req_parses(normalized_req(req_raw)),
    ensures
        picked(available.push(text), req_raw) == (if eligible(text, normalized_req(req_raw)) && (
        picked(available, req_raw) is None || !semver_at_most(
            without_v(text),
            without_v(available[picked(available, req_raw)->0 as int]),
        )) {
            Some(available.len() as usize)
        } else {
            picked(available, req_raw)
        }),
{
    let req = normalized_req(req_raw);
    let more = available.push(text);
    lemma_best_extends(available, text, req, available.len());
    lemma_best(available, req, available.len());
    assert(more[available.len() as int] == text);
    if picked(available, req_raw) is Some {
        let i = picked(available, req_raw)->0 as int;
        assert(more[i] == available[i]);
    }
}

proof fn lemma_best_extends(
    available: Seq<Seq<char>>,
    text: Seq<char>,
    req: Seq<char>,
    n: nat,
)
    requires
        n <= available.len() < usize::MAX,
    ensures
        best_among(available.push(text), req, n) == best_among(available, req, n),
    decreases n,
{
    if n > 0 {
        lemma_best_extends(available, text, req, (n - 1) as nat);
        lemma_best(available, req, (n - 1) as nat);
        let best = best_among(available, req, (n - 1) as nat);
        if best is Some {
            assert(available.push(text)[best->0 as int] == available[best->0 as int]);
        }
        assert(available.push(text)[n - 1] == available[n - 1]);
    }
}

} // verus!
