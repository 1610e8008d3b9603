//! Version constraints such as `^v0.18`, and the choice of the highest
//! version that satisfies one. Parsing, matching and ordering of versions are
//! those of the `semver` crate.

use vstd::prelude::*;
use vstd::string::*;

use crate::text;
use crate::text::{is_digit, texts, trimmed_start};

verus! {

/// A parsed version, field by field.
pub struct SemVer {
    pub major: u64,
    pub minor: u64,
    pub patch: u64,
    /// The pre-release identifier; empty for a release.
    pub pre: String,
    /// The build metadata; empty where there is none.
    pub build: String,
}

impl View for SemVer {
    type V = (u64, u64, u64, Seq<char>, Seq<char>);

    open spec fn view(&self) -> (u64, u64, u64, Seq<char>, Seq<char>) {
        (self.major, self.minor, self.patch, self.pre@, self.build@)
    }
}

/// What `semver::Version::parse` returns for a text: major, minor and patch
/// number, pre-release identifier and build metadata, or `None` for an error.
pub uninterp spec fn semver_version(text: Seq<char>) -> Option<(u64, u64, u64, Seq<char>, Seq<char>)>;

/// Whether `semver::VersionReq::parse` accepts a text.
pub uninterp spec fn semver_req_parses(text: Seq<char>) -> bool;

/// What `semver::VersionReq::matches` returns for the requirement and the
/// version that two texts parse to; false where either does not parse.
pub uninterp spec fn semver_satisfies(req: Seq<char>, version: Seq<char>) -> bool;

/// What `<=` on `semver::Version` returns for the versions that two texts
/// parse to.
pub uninterp spec fn semver_at_most(a: Seq<char>, b: Seq<char>) -> bool;

/// Whether the major, minor and patch numbers of `a` come before those of `b`.
pub open spec fn numbers_below(
    a: (u64, u64, u64, Seq<char>, Seq<char>),
    b: (u64, u64, u64, Seq<char>, Seq<char>),
) -> bool {
    ||| a.0 < b.0
    ||| a.0 == b.0 && a.1 < b.1
    ||| a.0 == b.0 && a.1 == b.1 && a.2 < b.2
}

/// Whether a requirement may name a pre-release: the identifier of one stands
/// behind a hyphen.
pub open spec fn names_pre_release(req: Seq<char>) -> bool {
    req.contains('-')
}

/// Calls `semver::Version::parse`. Claimed of it: the result depends on the
/// text alone, and its fields are handed over as they are.
#[verifier::external_body]
fn semver_parse(text: &str) -> (r: Option<SemVer>)
    ensures
        r is Some <==> semver_version(text@) is Some,
        r matches Some(v) ==> semver_version(text@) == Some(v@),
{
    match semver::Version::parse(text) {
        Ok(v) => Some(SemVer {
            major: v.major,
            minor: v.minor,
            patch: v.patch,
            pre: v.pre.as_str().to_string(),
            build: v.build.as_str().to_string(),
        }),
        Err(_) => None,
    }
}

/// Calls `semver::VersionReq::parse`. Claimed of it: whether it succeeds
/// depends on the text alone.
#[verifier::external_body]
fn semver_req_ok(text: &str) -> (r: bool)
    ensures
        r == semver_req_parses(text@),
{
    semver::VersionReq::parse(text).is_ok()
}

/// Calls `semver::VersionReq::matches` on the requirement and the version
/// that the two texts parse to. Claimed of it: the result depends on the two
/// texts alone, and a version with a pre-release identifier satisfies only a
/// requirement that names one itself, for which it has to hold a hyphen.
#[verifier::external_body]
fn semver_matches(req: &str, version: &str) -> (r: bool)
    ensures
        r == semver_satisfies(req@, version@),
        r && (semver_version(version@) matches Some(v) && v.3.len() > 0) ==> names_pre_release(
            req@,
        ),
{
    match (semver::VersionReq::parse(req), semver::Version::parse(version)) {
        (Ok(q), Ok(v)) => q.matches(&v),
        _ => false,
    }
}

/// Calls `<=` of `semver::Version` on the versions that the two texts parse
/// to. Claimed of it: the result depends on the two texts alone; the major,
/// minor and patch numbers decide first, in that order; and the order is
/// total, so that where `a` is not at most `b`, `b` is at most `a`, and so is
/// whatever is at most `b`.
#[verifier::external_body]
fn semver_le(a: &str, b: &str) -> (r: bool)
    requires
        semver_version(a@) is Some,
        semver_version(b@) is Some,
    ensures
        r == semver_at_most(a@, b@),
        numbers_below(semver_version(a@)->0, semver_version(b@)->0) ==> r,
        numbers_below(semver_version(b@)->0, semver_version(a@)->0) ==> !r,
        !r ==> semver_at_most(b@, a@),
        !r ==> forall|t: Seq<char>|
            semver_version(t) is Some && semver_at_most(t, b@) ==> #[trigger] semver_at_most(
                t,
                a@,
            ),
{
    semver::Version::parse(a).unwrap() <= semver::Version::parse(b).unwrap()
}

/// A Go module version without the leading `v` that Go writes and `semver`
/// does not take.
pub open spec fn without_v(raw: Seq<char>) -> Seq<char> {
    if raw.len() > 0 && raw[0] == 'v' {
        raw.drop_first()
    } else {
        raw
    }
}

/// Strip the leading `v` from a Go module version.
fn strip_v(raw: &str) -> (r: String)
    ensures
        r@ == without_v(raw@),
{
    let v = text::chars(raw);
    if v.len() > 0 && v[0] == 'v' {
        assert(v@.subrange(1, v@.len() as int) == v@.drop_first());
        text::slice(&v, 1, v.len())
    } else {
        assert(v@.subrange(0, v@.len() as int) == v@);
        text::slice(&v, 0, v.len())
    }
}

/// A hexadecimal digit.
pub open spec fn is_hex(c: char) -> bool {
    is_digit(c) || 'a' <= c <= 'f' || 'A' <= c <= 'F'
}

/// Whether a text ends in a time of 14 digits, a hyphen and 12 hexadecimal
/// digits of a revision.
pub open spec fn ends_in_revision(pre: Seq<char>) -> bool {
    let n = pre.len() as int;
    &&& n >= 27
    &&& forall|i: int| n - 27 <= i < n - 13 ==> is_digit(#[trigger] pre[i])
    &&& pre[n - 13] == '-'
    &&& forall|i: int| n - 12 <= i < n ==> is_hex(#[trigger] pre[i])
}

/// Whether a minor and a patch number and a pre-release identifier are those
/// of a pseudo-version, the name that Go makes up for a revision without a
/// tag. The identifier ends in the time and the revision. Without an earlier
/// tag it is nothing more, and both numbers are 0; behind an earlier tag an
/// identifier `0` of its own stands before it.
pub open spec fn is_pseudo(minor: u64, patch: u64, pre: Seq<char>) -> bool {
    let n = pre.len() as int;
    &&& ends_in_revision(pre)
    &&& if n == 27 {
        minor == 0 && patch == 0
    } else {
        &&& n >= 29
        &&& pre[n - 28] == '.'
        &&& pre[n - 29] == '0'
        &&& n == 29 || pre[n - 30] == '.'
    }
}

/// Whether a text ends in a time and a revision.
fn has_revision(v: &Vec<char>) -> (r: bool)
    ensures
        r == ends_in_revision(v@),
{
    let n = v.len();
    if n < 27 || v[n - 13] != '-' {
        return false;
    }
    let mut i: usize = n - 27;
    while i < n
        invariant
            27 <= n == v@.len(),
            n - 27 <= i <= n,
            v@[n - 13] == '-',
            forall|j: int| n - 27 <= j < i && j < n - 13 ==> is_digit(#[trigger] v@[j]),
            forall|j: int| n - 12 <= j < i ==> is_hex(#[trigger] v@[j]),
        decreases n - i,
    {
        let c = v[i];
        let fits = if i < n - 13 {
            text::digit(c)
        } else if i == n - 13 {
            true
        } else {
            text::digit(c) || ('a' <= c && c <= 'f') || ('A' <= c && c <= 'F')
        };
        if !fits {
            assert(i < n - 13 ==> !is_digit(v@[i as int]));
            assert(i >= n - 12 ==> !is_hex(v@[i as int]));
            return false;
        }
        i = i + 1;
    }
    true
}

/// Whether a minor and a patch number and a pre-release identifier are those
/// of a pseudo-version.
pub fn is_pseudo_version(minor: u64, patch: u64, pre: &str) -> (r: bool)
    ensures
        r == is_pseudo(minor, patch, pre@),
{
    let v = text::chars(pre);
    let n = v.len();
    if !has_revision(&v) {
        false
    } else if n == 27 {
        minor == 0 && patch == 0
    } else {
        n >= 29 && v[n - 28] == '.' && v[n - 29] == '0' && (n == 29 || v[n - 30] == '.')
    }
}

/// A parsed version, unless it is a pseudo-version.
pub open spec fn tagged(
    parsed: Option<(u64, u64, u64, Seq<char>, Seq<char>)>,
) -> Option<(u64, u64, u64, Seq<char>, Seq<char>)> {
    match parsed {
        Some(v) => if is_pseudo(v.1, v.2, v.3) {
            None
        } else {
            Some(v)
        },
        None => None,
    }
}

/// What is known of an optional version.
pub open spec fn seen(parsed: Option<SemVer>) -> Option<(u64, u64, u64, Seq<char>, Seq<char>)> {
    match parsed {
        Some(v) => Some(v@),
        None => None,
    }
}

/// Leave a parsed version out where it is a pseudo-version.
pub fn without_pseudo(parsed: Option<SemVer>) -> (r: Option<SemVer>)
    ensures
        seen(r) == tagged(seen(parsed)),
{
    match parsed {
        Some(v) => if is_pseudo_version(v.minor, v.patch, v.pre.as_str()) {
            None
        } else {
            Some(v)
        },
        None => None,
    }
}

/// What a Go module version reads as: `semver`'s reading of it without the
/// leading `v`; `None` for pseudo-versions and for tags that are not semantic
/// versions.
pub open spec fn go_version(raw: Seq<char>) -> Option<(u64, u64, u64, Seq<char>, Seq<char>)> {
    tagged(semver_version(without_v(raw)))
}

/// Strip the leading `v` from a Go module version so that `semver` can parse
/// it. Returns `None` for pseudo-versions and for tags that are not semantic
/// versions.
pub fn parse_go_version(raw: &str) -> (r: Option<SemVer>)
    ensures
        seen(r) == go_version(raw@),
{
    let s = strip_v(raw);
    let parsed = semver_parse(s.as_str());
    without_pseudo(parsed)
}

/// The characters that open a comparator.
pub open spec fn is_op(c: char) -> bool {
    c == '^' || c == '~' || c == '>' || c == '<' || c == '='
}

/// Whether a version text is a constraint and not one plain version: it opens
/// with an operator, or holds a comma or a star.
pub open spec fn constraint_text(raw: Seq<char>) -> bool {
    let s = trimmed_start(raw);
    ||| s.len() > 0 && is_op(s[0])
    ||| s.contains(',')
    ||| s.contains('*')
}

/// Detect a semver-style constraint string. Plain version strings like
/// `v0.18.1` or `1.2.3` are *not* constraints and resolve verbatim.
pub fn is_constraint(raw: &str) -> (r: bool)
    ensures
        r == constraint_text(raw@),
{
    let s = text::trim_start(raw);
    let v = text::chars(s.as_str());
    if v.len() > 0 {
        let c = v[0];
        if c == '^' || c == '~' || c == '>' || c == '<' || c == '=' {
            return true;
        }
    }
    text::has_char(s.as_str(), ',') || text::has_char(s.as_str(), '*')
}

/// The characters that a comparator's version may stand behind.
pub open spec fn opens(c: char) -> bool {
    is_op(c) || c == ',' || c == ' '
}

/// A constraint without the `v` behind an operator, a comma or a space.
pub open spec fn without_inner_v(raw: Seq<char>) -> Seq<char>
    decreases raw.len(),
{
    if raw.len() == 0 {
        Seq::empty()
    } else if opens(raw[0]) && raw.len() > 1 && raw[1] == 'v' {
        seq![raw[0]] + without_inner_v(raw.skip(2))
    } else {
        seq![raw[0]] + without_inner_v(raw.skip(1))
    }
}

/// A constraint without the `v` of each comparator: that at its start, and
/// those behind an operator, a comma or a space.
pub open spec fn normalized_req(raw: Seq<char>) -> Seq<char> {
    without_inner_v(without_v(raw))
}

/// Strip the leading `v` from each comparator in a constraint so that
/// `semver` parses it (`^v0.18` becomes `^0.18`).
pub fn normalize_req(raw: &str) -> (r: String)
    ensures
        r@ == normalized_req(raw@),
{
    let bare = strip_v(raw);
    let v = text::chars(bare.as_str());
    let mut out = String::new();
    let mut i: usize = 0;
    assert(v@.skip(0) == v@);
    while i < v.len()
        invariant
            i <= v@.len(),
            without_inner_v(v@) == out@ + without_inner_v(v@.skip(i as int)),
        decreases v@.len() - i,
    {
        let c = v[i];
        let ghost done = out@;
        let ghost rest = v@.skip(i as int);
        out.push(c);
        let opens = c == '^' || c == '~' || c == '>' || c == '<' || c == '=' || c == ',' || c == ' ';
        if opens && i + 1 < v.len() && v[i + 1] == 'v' {
            assert(rest.skip(2) == v@.skip(i + 2));
            assert(done + (seq![c] + without_inner_v(rest.skip(2))) == out@ + without_inner_v(
                rest.skip(2),
            ));
            i = i + 2;
        } else {
            assert(rest.skip(1) == v@.skip(i + 1));
            assert(done + (seq![c] + without_inner_v(rest.skip(1))) == out@ + without_inner_v(
                rest.skip(1),
            ));
            i = i + 1;
        }
    }
    assert(v@.skip(i as int) == Seq::<char>::empty());
    out
}

/// A constraint without any `v` is left as it is.
pub proof fn law_req_without_v_is_kept(raw: Seq<char>)
    requires
        !raw.contains('v'),
    ensures
        normalized_req(raw) == raw,
{
    if raw.len() > 0 {
        assert(raw[0] != 'v');
    }
    lemma_without_inner_v_keeps(raw);
}

proof fn lemma_without_inner_v_keeps(raw: Seq<char>)
    requires
        !raw.contains('v'),
    ensures
        without_inner_v(raw) == raw,
    decreases raw.len(),
{
    if raw.len() > 0 {
        let rest = raw.skip(1);
        assert(!rest.contains('v')) by {
            if rest.contains('v') {
                let k = choose|k: int| 0 <= k < rest.len() && rest[k] == 'v';
                assert(raw[k + 1] == 'v');
            }
        }
        lemma_without_inner_v_keeps(rest);
        if raw.len() > 1 {
            assert(raw[1] != 'v');
        }
        assert(seq![raw[0]] + rest == raw);
    }
}

/// Whether no two `v` stand side by side.
pub open spec fn single_v(raw: Seq<char>) -> bool {
    forall|i: int| 0 < i < raw.len() ==> !(raw[i - 1] == 'v' && #[trigger] raw[i] == 'v')
}

/// Whether no comparator has a `v` in front: none stands at the start or
/// behind an operator, a comma or a space.
pub open spec fn no_leading_v(req: Seq<char>) -> bool {
    &&& req.len() > 0 ==> req[0] != 'v'
    &&& forall|i: int| 0 < i < req.len() && opens(req[i - 1]) ==> #[trigger] req[i] != 'v'
}

/// Every comparator loses its leading `v`, the first one included.
pub proof fn law_each_comparator_loses_its_v(raw: Seq<char>)
    requires
        single_v(raw),
    ensures
        no_leading_v(normalized_req(raw)),
{
    let bare = without_v(raw);
    assert(single_v(bare)) by {
        if bare != raw {
            assert forall|i: int| 0 < i < bare.len() implies !(bare[i - 1] == 'v'
                && #[trigger] bare[i] == 'v') by {
                assert(bare[i] == raw[i + 1]);
            }
        }
    }
    assert(bare.len() > 0 ==> bare[0] != 'v') by {
        if bare.len() > 0 && bare != raw {
            assert(raw[1] == bare[0]);
        }
    }
    lemma_without_inner_v_strips(bare);
}

proof fn lemma_without_inner_v_strips(raw: Seq<char>)
    requires
        single_v(raw),
    ensures
        without_inner_v(raw).len() > 0 <==> raw.len() > 0,
        raw.len() > 0 ==> without_inner_v(raw)[0] == raw[0],
        forall|i: int|
            0 < i < without_inner_v(raw).len() && opens(without_inner_v(raw)[i - 1])
                ==> #[trigger] without_inner_v(raw)[i] != 'v',
    decreases raw.len(),
{
    if raw.len() > 0 {
        let strips = opens(raw[0]) && raw.len() > 1 && raw[1] == 'v';
        let rest = if strips {
            raw.skip(2)
        } else {
            raw.skip(1)
        };
        let k = raw.len() - rest.len();
        assert forall|i: int| 0 < i < rest.len() implies !(rest[i - 1] == 'v' && #[trigger] rest[i]
            == 'v') by {
            assert(rest[i] == raw[i + k]);
        }
        lemma_without_inner_v_strips(rest);
        let out = without_inner_v(raw);
        let tail = without_inner_v(rest);
        assert(out == seq![raw[0]] + tail);
        assert forall|i: int| 0 < i < out.len() && opens(out[i - 1]) implies #[trigger] out[i]
            != 'v' by {
            assert(out[i] == tail[i - 1]);
            if i == 1 {
                assert(rest[0] == raw[k]);
                if strips {
                    assert(!(raw[1] == 'v' && raw[2] == 'v'));
                }
            } else {
                assert(out[i - 1] == tail[i - 2]);
            }
        }
    }
}

/// The best candidate once the one at `index` has been looked at, given what
/// it reads as, whether it satisfies the constraint, and whether it is at
/// most the best so far.
pub open spec fn best_after(
    best: Option<usize>,
    index: usize,
    parsed: Option<(u64, u64, u64, Seq<char>, Seq<char>)>,
    satisfies: bool,
    at_most_best: bool,
) -> Option<usize> {
    if parsed is Some && satisfies && (best is None || !at_most_best) {
        Some(index)
    } else {
        best
    }
}

/// Look at one more candidate, given what `parse_go_version` makes of it: it
/// becomes the best where it reads as a version, satisfies the constraint and
/// is above the best so far.
pub fn consider(
    best: Option<usize>,
    index: usize,
    parsed: &Option<SemVer>,
    satisfies: bool,
    at_most_best: bool,
) -> (r: Option<usize>)
    ensures
        r == best_after(best, index, seen(*parsed), satisfies, at_most_best),
{
    if parsed.is_some() && satisfies && (best.is_none() || !at_most_best) {
        Some(index)
    } else {
        best
    }
}

/// Whether the text at `i` reads as a version that satisfies `req`.
pub open spec fn is_candidate(available: Seq<Seq<char>>, req: Seq<char>, i: int) -> bool {
    go_version(available[i]) is Some && semver_satisfies(req, without_v(available[i]))
}

/// The position of the version to pick among the first `n`: each is looked at
/// in turn, so that of equal versions the first stays.
pub open spec fn best_among(available: Seq<Seq<char>>, req: Seq<char>, n: nat) -> Option<usize>
    decreases n,
{
    if n == 0 {
        None
    } else {
        let best = best_among(available, req, (n - 1) as nat);
        let here = without_v(available[n - 1]);
        best_after(
            best,
            (n - 1) as usize,
            go_version(available[n - 1]),
            semver_satisfies(req, here),
            semver_at_most(here, without_v(available[best->0 as int])),
        )
    }
}

/// The position of the version to pick, where there is one.
pub open spec fn picked(available: Seq<Seq<char>>, req_raw: Seq<char>) -> Option<usize> {
    let req = normalized_req(req_raw);
    if semver_req_parses(req) {
        best_among(available, req, available.len())
    } else {
        None
    }
}

/// The version to pick is one of those that are there.
pub proof fn lemma_picked_is_in_range(available: Seq<Seq<char>>, req_raw: Seq<char>)
    requires
        available.len() <= usize::MAX,
    ensures
        picked(available, req_raw) matches Some(i) ==> i < available.len(),
{
    lemma_best_is_in_range(available, normalized_req(req_raw), available.len());
}

proof fn lemma_best_is_in_range(available: Seq<Seq<char>>, req: Seq<char>, n: nat)
    requires
        n <= available.len() <= usize::MAX,
    ensures
        best_among(available, req, n) matches Some(i) ==> i < n,
    decreases n,
{
    if n > 0 {
        lemma_best_is_in_range(available, req, (n - 1) as nat);
    }
}

/// Whether the version at `b` is a candidate that no other one of the first
/// `n` exceeds.
pub open spec fn is_best(available: Seq<Seq<char>>, req: Seq<char>, n: int, b: int) -> bool {
    &&& 0 <= b < n
    &&& is_candidate(available, req, b)
    &&& forall|j: int|
        #![trigger is_candidate(available, req, j)]
        0 <= j < n && j != b && is_candidate(available, req, j) ==> {
            &&& semver_at_most(without_v(available[j]), without_v(available[b]))
            &&& !numbers_below(
                semver_version(without_v(available[b]))->0,
                semver_version(without_v(available[j]))->0,
            )
        }
}

/// Pick the highest version in `available` that satisfies `req`. Versions are
/// expected to be `v`-prefixed (Go convention); the chosen value is returned
/// in that same form. Pseudo-versions and tags that are not semantic versions
/// are skipped, and so are pre-releases unless the constraint opts in by naming
/// one.
pub fn pick_max_satisfying(available: &[String], req_raw: &str) -> (r: Option<String>)
    ensures
        r is Some <==> picked(texts(available@), req_raw@) is Some,
        r matches Some(s) ==> s@ == texts(available@)[picked(texts(available@), req_raw@)->0 as int],
        r is Some ==> is_best(
            texts(available@),
            normalized_req(req_raw@),
            available@.len() as int,
            picked(texts(available@), req_raw@)->0 as int,
        ),
        r matches Some(s) ==> go_version(s@) is Some && semver_satisfies(
            normalized_req(req_raw@),
            without_v(s@),
        ),
        r matches Some(s) ==> forall|j: int|
            0 <= j < available@.len() && j != picked(texts(available@), req_raw@)->0 && go_version(
                #[trigger] texts(available@)[j],
            ) is Some && semver_satisfies(
                normalized_req(req_raw@),
                without_v(texts(available@)[j]),
            ) ==> semver_at_most(without_v(texts(available@)[j]), without_v(s@)) && !numbers_below(
                semver_version(without_v(s@))->0,
                semver_version(without_v(texts(available@)[j]))->0,
            ),
        r matches Some(s) ==> (go_version(s@)->0).3.len() > 0 ==> names_pre_release(
            normalized_req(req_raw@),
        ),
        r is None && semver_req_parses(normalized_req(req_raw@)) ==> forall|j: int|
            0 <= j < available@.len() ==> !is_candidate(
                texts(available@),
                normalized_req(req_raw@),
                j,
            ),
{
    let req = normalize_req(req_raw);
    if !semver_req_ok(req.as_str()) {
        return None;
    }
    let ghost all = texts(available@);
    let mut best: Option<usize> = None;
    let mut i: usize = 0;
    while i < available.len()
        invariant
            i <= available@.len(),
            all == texts(available@),
            best == best_among(all, req@, i as nat),
            best matches Some(b) ==> is_best(all, req@, i as int, b as int) && ((go_version(
                all[b as int],
            )->0).3.len() > 0 ==> names_pre_release(req@)),
            best is None ==> forall|j: int|
                0 <= j < i ==> !is_candidate(all, req@, j),
        decreases available@.len() - i,
    {
        let here = strip_v(available[i].as_str());
        assert(here@ == without_v(all[i as int]));
        let parsed = parse_go_version(available[i].as_str());
        let satisfies = semver_matches(req.as_str(), here.as_str());
        let ghost was = best;
        let at_most_best = match best {
            Some(b) => {
                let top = strip_v(available[b].as_str());
                assert(top@ == without_v(all[b as int]));
                assert(is_candidate(all, req@, b as int));
                if parsed.is_some() && satisfies {
                    semver_le(here.as_str(), top.as_str())
                } else {
                    false
                }
            },
            None => false,
        };
        best = consider(best, i, &parsed, satisfies, at_most_best);
        proof {
            assert(best == best_among(all, req@, (i + 1) as nat));
            assert(is_candidate(all, req@, i as int) <==> parsed is Some && satisfies);
            if best is Some {
                let b = best->0 as int;
                assert forall|j: int|
                    #![trigger is_candidate(all, req@, j)]
                    0 <= j < i + 1 && j != b && is_candidate(all, req@, j) implies {
                    &&& semver_at_most(without_v(all[j]), without_v(all[b]))
                    &&& !numbers_below(
                        semver_version(without_v(all[b]))->0,
                        semver_version(without_v(all[j]))->0,
                    )
                } by {
                    if was is Some && b != was->0 {
                        assert(is_candidate(all, req@, was->0 as int));
                    }
                }
            }
        }
        i = i + 1;
    }
    match best {
        Some(b) => {
            proof {
                assert(all[b as int] == available@[b as int]@);
                assert forall|j: int|
                    0 <= j < all.len() && j != b && go_version(#[trigger] all[j]) is Some
                        && semver_satisfies(req@, without_v(all[j])) implies semver_at_most(
                    without_v(all[j]),
                    without_v(all[b as int]),
                ) && !numbers_below(
                    semver_version(without_v(all[b as int]))->0,
                    semver_version(without_v(all[j]))->0,
                ) by {
                    assert(is_candidate(all, req@, j));
                }
            }
            Some(available[b].clone())
        },
        None => None,
    }
}

} // verus!
