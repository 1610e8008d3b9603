//! Laws of tools: what a spec says, how the binary is called, and how a tool is
//! resolved to one version of one module.

use vstd::prelude::*;

use crate::constraint::{constraint_text, lemma_picked_is_in_range, picked};
use crate::laws::constraint::{law_operator_makes_a_constraint, operator};
use crate::laws::text::{free_of, law_last_piece};
use crate::project::ToolSpec;
use crate::proxy::{latest_at, zip_hash, VersionInfo};
use crate::registry::known_package;
use crate::text::{is_digit, texts};
use crate::tool::{
    answers, bin_name, binary_segment, follows, is_resolution, major_marker, package_of,
    wants_latest, StepView, ToolError, ToolOutcome, ToolQuery, ToolReply, ToolStep,
};

verus! {

/// What the two forms of a spec say: the short one is a version; the long one
/// may set a package and a binary name beside it.
pub proof fn law_specs(text: String, package: Option<String>, bin: Option<String>)
    ensures
        ToolSpec::Short(text).wanted() == text@,
        ToolSpec::Short(text).set_package() is None,
        ToolSpec::Short(text).set_bin() is None,
        (ToolSpec::Long { package, version: text, bin }).wanted() == text@,
        (ToolSpec::Long { package, version: text, bin }).set_package() == (match package {
            Some(p) => Some(p@),
            None => None,
        }),
        (ToolSpec::Long { package, version: text, bin }).set_bin() == (match bin {
            Some(b) => Some(b@),
            None => None,
        }),
{
}

/// The package is the one that the spec sets, and the registry's only where the
/// spec sets none.
pub proof fn law_package(
    name: Seq<char>,
    version: String,
    package: String,
    bin: Option<String>,
    short: String,
)
    ensures
        package_of(name, ToolSpec::Long { package: Some(package), version, bin }) == Some(package@),
        package_of(name, ToolSpec::Long { package: None, version, bin }) == known_package(name),
        package_of(name, ToolSpec::Short(short)) == known_package(name),
{
}

/// Whether a segment is a major-version marker.
pub open spec fn marker_of(s: Seq<char>, digits: Seq<char>) -> bool {
    &&& s == "v"@ + digits
    &&& digits.len() > 0
    &&& forall|i: int| 0 <= i < digits.len() ==> '0' <= #[trigger] digits[i] <= '9'
}

/// A major-version marker is a `v` and one or more digits.
pub proof fn law_major_marker(s: Seq<char>)
    ensures
        major_marker(s) <==> marker_of(s, s.skip(1)),
{
    reveal_strlit("v");
    if major_marker(s) {
        assert(s == "v"@ + s.skip(1));
        assert forall|i: int| 0 <= i < s.skip(1).len() implies '0' <= #[trigger] s.skip(1)[i]
            <= '9' by {
            assert(is_digit(s[i + 1]));
        }
    }
    if marker_of(s, s.skip(1)) {
        assert(s[0] == "v"@[0]);
        assert forall|i: int| 1 <= i < s.len() implies is_digit(#[trigger] s[i]) by {
            assert('0' <= s.skip(1)[i - 1] <= '9');
        }
    }
}

/// The binary is called after the last segment of the package; where that is a
/// major-version marker behind a slash, after the segment before it.
pub proof fn law_binary_name(head: Seq<char>, segment: Seq<char>, digits: Seq<char>)
    requires
        free_of(segment, '/'),
        digits.len() > 0,
        forall|i: int| 0 <= i < digits.len() ==> '0' <= #[trigger] digits[i] <= '9',
    ensures
        binary_segment(segment) == segment,
        !major_marker(segment) ==> binary_segment(head + "/"@ + segment) == segment,
        binary_segment(head + "/"@ + segment + "/v"@ + digits) == segment,
        binary_segment(segment + "/v"@ + digits) == segment,
{
    reveal_strlit("/");
    reveal_strlit("/v");
    reveal_strlit("v");
    law_last_piece(head, '/', segment);
    assert(head.push('/') + segment == head + "/"@ + segment);
    let m = "v"@ + digits;
    assert(m.skip(1) == digits);
    law_major_marker(m);
    assert forall|i: int| 0 <= i < m.len() implies #[trigger] m[i] != '/' by {
        if i > 0 {
            assert('0' <= digits[i - 1] <= '9');
        }
    }
    let inner = head + "/"@ + segment;
    law_last_piece(inner, '/', m);
    assert(inner.push('/') + m == inner + "/v"@ + digits);
    assert((inner + "/v"@ + digits).take(inner.len() as int) == inner);
    law_last_piece(segment, '/', m);
    assert(segment.push('/') + m == segment + "/v"@ + digits);
    assert((segment + "/v"@ + digits).take(segment.len() as int) == segment);
}

/// The name of the binary is the one that is set, else that of the package with
/// the host's suffix.
pub proof fn law_bin(query: ToolQuery, exe_suffix: Seq<char>)
    ensures
        query.bin matches Some(b) ==> bin_name(query, exe_suffix) == b@,
        query.bin is None ==> bin_name(query, exe_suffix) == binary_segment(query.package@)
            + exe_suffix,
{
}

/// Once the proxy knows the module, `latest` and `*` take the version that it
/// names, a constraint asks for the list of versions, and any other text is the
/// version.
pub proof fn law_module_found(
    query: ToolQuery,
    exe_suffix: Seq<char>,
    candidate: String,
    info: VersionInfo,
    r: ToolOutcome,
)
    requires
        follows(
            query,
            exe_suffix,
            ToolStep::FindModule { candidate },
            ToolReply::Latest(info),
            r,
        ),
    ensures
        r is Next,
        query.wanted@ == "latest"@ || query.wanted@ == "*"@ ==> r->Next_0@
            == (StepView::FetchHash { module: candidate@, version: info.version@ }),
        query.wanted@ != "latest"@ && query.wanted@ != "*"@ && constraint_text(query.wanted@)
            ==> r->Next_0@ == (StepView::ListVersions { module: candidate@ }),
        query.wanted@ != "latest"@ && query.wanted@ != "*"@ && !constraint_text(query.wanted@)
            ==> r->Next_0@ == (StepView::FetchHash {
            module: candidate@,
            version: query.wanted@,
        }),
{
}

/// Where there is no module at a path, what stands in front of its last slash
/// is asked about next; without one the resolution fails with the package. Any
/// other status fails with that status and the address.
pub proof fn law_module_missing(
    query: ToolQuery,
    exe_suffix: Seq<char>,
    candidate: String,
    status: u16,
    r: ToolOutcome,
    p: Seq<char>,
    q: Seq<char>,
)
    requires
        follows(
            query,
            exe_suffix,
            ToolStep::FindModule { candidate },
            ToolReply::Status(status),
            r,
        ),
        free_of(q, '/'),
    ensures
        (status == 404 || status == 410) && p.len() > 0 && candidate@ == p + "/"@ + q ==> (r
            matches ToolOutcome::Next(next) && next@ == (StepView::FindModule { candidate: p })),
        (status == 404 || status == 410) && (candidate@ == q || candidate@ == "/"@ + q) ==> (r
            matches ToolOutcome::Failed(ToolError::NoModule { package }) && package@
            == query.package@),
        status != 404 && status != 410 ==> (r matches ToolOutcome::Failed(
            ToolError::UnexpectedStatus { status: s, url },
        ) && s == status && url@ == latest_at(candidate@)),
{
    crate::laws::proxy::law_parent(p, q);
}

/// From a list of versions the one that is picked for the constraint goes on,
/// with the module; without one the resolution fails with both.
pub proof fn law_versions_listed(
    query: ToolQuery,
    exe_suffix: Seq<char>,
    module: String,
    versions: Vec<String>,
    r: ToolOutcome,
)
    requires
        follows(
            query,
            exe_suffix,
            ToolStep::ListVersions { module },
            ToolReply::Versions(versions),
            r,
        ),
    ensures
        picked(texts(versions@), query.wanted@) matches Some(i) ==> i < versions@.len() && (r
            matches ToolOutcome::Next(next) && next@ == (StepView::FetchHash {
            module: module@,
            version: versions@[i as int]@,
        })),
        picked(texts(versions@), query.wanted@) is None ==> (r matches ToolOutcome::Failed(
            ToolError::NoVersion { module: m, constraint },
        ) && m@ == module@ && constraint@ == query.wanted@),
{
    assert(versions.len() == texts(versions@).len());
    lemma_picked_is_in_range(texts(versions@), query.wanted@);
}

/// A resolved tool has the name and the package that were asked for, the
/// version whose hash was asked for, the hash that the checksum database gives
/// for it, and its binary name.
pub proof fn law_hash_fetched(
    query: ToolQuery,
    exe_suffix: Seq<char>,
    module: String,
    version: String,
    body: String,
    r: ToolOutcome,
)
    requires
        follows(
            query,
            exe_suffix,
            ToolStep::FetchHash { module, version },
            ToolReply::Sum(body),
            r,
        ),
    ensures
        zip_hash(body@, module@, version@) matches Some(hash) ==> (r matches ToolOutcome::Resolved(
            t,
        ) && t.name@ == query.name@ && t.package@ == query.package@ && t.version@ == version@
            && t.module_hash@ == hash && (query.bin matches Some(b) ==> t.bin@ == b@) && (
        query.bin is None ==> t.bin@ == binary_segment(query.package@) + exe_suffix)),
        zip_hash(body@, module@, version@) is None ==> (r matches ToolOutcome::Failed(
            ToolError::NoHash(e),
        ) && e.module@ == module@ && e.version@ == version@),
{
}

/// A resolution whose version text opens with a comparison operator asks for
/// the list of versions as soon as the module is known, and every version
/// whose hash it asks for is one of that list: the text itself is never taken
/// for a version.
pub proof fn law_operator_asks_for_versions(
    query: ToolQuery,
    exe_suffix: Seq<char>,
    steps: Seq<ToolStep>,
    replies: Seq<ToolReply>,
    i: int,
    op: char,
    rest: Seq<char>,
)
    requires
        is_resolution(query, exe_suffix, steps, replies),
        0 <= i < steps.len(),
        operator(op),
        query.wanted@ == seq![op] + rest,
    ensures
        i + 1 < steps.len() && replies[i] is Latest ==> steps[i + 1]@ is ListVersions,
        steps[i]@ matches StepView::FetchHash { version, .. } ==> i > 0 && (replies[i - 1]
            matches ToolReply::Versions(versions) && texts(versions@).contains(version)),
{
    lemma_not_latest(query.wanted@, op, rest);
    let none = Seq::<char>::empty();
    law_operator_makes_a_constraint(none, op, rest);
    assert(none + (seq![op] + rest) == query.wanted@);
    if i + 1 < steps.len() {
        assert(answers(steps[i], replies[i]));
    }
    if i > 0 {
        assert(answers(steps[i - 1], replies[i - 1]));
        if let (ToolStep::ListVersions { .. }, ToolReply::Versions(versions)) = (
            steps[i - 1],
            replies[i - 1],
        ) {
            assert(versions.len() == texts(versions@).len());
            lemma_picked_is_in_range(texts(versions@), query.wanted@);
        }
    }
}

proof fn lemma_not_latest(wanted: Seq<char>, op: char, rest: Seq<char>)
    requires
        operator(op),
        wanted == seq![op] + rest,
    ensures
        !wants_latest(wanted),
{
    reveal_strlit("latest");
    reveal_strlit("*");
    reveal_strlit("^~><=");
    assert(wanted[0] == op);
    let ops = "^~><="@;
    let k = choose|k: int| 0 <= k < ops.len() && ops[k] == op;
}

/// Which replies answer a step: a version or a status without success for a
/// path, a list for a module, a text for a hash.
pub proof fn law_answers(step: ToolStep, reply: ToolReply)
    ensures
        step is FindModule ==> (answers(step, reply) <==> reply is Latest || (reply
            matches ToolReply::Status(s) && !(200 <= s <= 299))),
        step is ListVersions ==> (answers(step, reply) <==> reply is Versions),
        step is FetchHash ==> (answers(step, reply) <==> reply is Sum),
{
}

/// A step is as it looks: its view has the same texts.
pub proof fn law_step_views(a: String, b: String)
    ensures
        (ToolStep::FindModule { candidate: a })@ == (StepView::FindModule { candidate: a@ }),
        (ToolStep::ListVersions { module: a })@ == (StepView::ListVersions { module: a@ }),
        (ToolStep::FetchHash { module: a, version: b })@ == (StepView::FetchHash {
            module: a@,
            version: b@,
        }),
{
}

} // verus!
