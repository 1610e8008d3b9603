//! Resolve which Go version applies in the current context.

use std::cmp::Ordering;

use vstd::prelude::*;
use vstd::string::*;

use crate::manifest;
use crate::manifest::{
    asks_level, canonical, levels_learned, project_pin, requested, Level, ToolchainHit,
    ToolchainSource,
};
use crate::release::normalized;
use crate::search::{learned, FileState, Listing, Request, Search};
use crate::text;
use crate::text::{begins, number_or_zero, pieces, texts, trimmed};

verus! {

/// The version that applies, and where it comes from.
#[derive(Debug, Clone)]
pub struct Resolved {
    pub version: String,
    pub source: ToolchainSource,
    /// The file that the value came from, where it came from one.
    pub origin: Option<String>,
}

/// A resolved version as the contracts speak of it.
pub ghost struct ResolvedView {
    pub version: Seq<char>,
    pub source: ToolchainSource,
    pub origin: Option<Seq<char>>,
}

impl View for Resolved {
    type V = ResolvedView;

    open spec fn view(&self) -> ResolvedView {
        ResolvedView {
            version: self.version@,
            source: self.source,
            origin: match self.origin {
                Some(p) => Some(p@),
                None => None,
            },
        }
    }
}

/// What is known of everything that may decide the version.
pub struct Context {
    /// The value of `GV_VERSION`, where it is set.
    pub env: Option<String>,
    /// The directories on the way up from the current one.
    pub levels: Vec<Level>,
    /// The path of the global version file.
    pub global_file: String,
    /// The global version file.
    pub global: FileState,
    /// The names in the directory of installed versions.
    pub installed: Listing,
}

/// The number in the `i`-th piece of a version, 0 where there is none.
pub open spec fn component(parts: Seq<Seq<char>>, i: int) -> int {
    if i < parts.len() {
        number_or_zero(parts[i])
    } else {
        0
    }
}

/// The text behind the `go` of a version.
pub open spec fn without_go(v: Seq<char>) -> Seq<char> {
    if begins(v, "go"@) {
        v.skip(2)
    } else {
        v
    }
}

/// The first three numbers of a version.
pub open spec fn components(v: Seq<char>) -> (int, int, int) {
    let parts = pieces(without_go(v), '.');
    (component(parts, 0), component(parts, 1), component(parts, 2))
}

/// Whether the numbers of `a` come before those of `b`.
pub open spec fn older(a: Seq<char>, b: Seq<char>) -> bool {
    let x = components(a);
    let y = components(b);
    ||| x.0 < y.0
    ||| x.0 == y.0 && x.1 < y.1
    ||| x.0 == y.0 && x.1 == y.1 && x.2 < y.2
}

/// The `i`-th number of a version cut at its dots.
fn component_at(parts: &[String], i: usize) -> (r: u64)
    ensures
        r == component(texts(parts@), i as int),
{
    if i < parts.len() {
        assert(texts(parts@)[i as int] == parts@[i as int]@);
        text::parse_or_zero(parts[i].as_str())
    } else {
        0
    }
}

/// The first three numbers of a version such as `go1.25.0`; what is missing
/// or no number counts as 0.
pub fn parse_components(v: &str) -> (r: (u64, u64, u64))
    ensures
        (r.0 as int, r.1 as int, r.2 as int) == components(v@),
{
    let s = match text::strip_prefix(v, "go") {
        Some(rest) => {
            proof {
                reveal_strlit("go");
            }
            rest
        },
        None => v.to_owned(),
    };
    let parts = text::split(s.as_str(), '.');
    (component_at(&parts, 0), component_at(&parts, 1), component_at(&parts, 2))
}

/// Compare two versions by their first three numbers.
pub fn compare_versions(a: &str, b: &str) -> (r: Ordering)
    ensures
        r is Less <==> older(a@, b@),
        r is Greater <==> older(b@, a@),
        r is Equal <==> components(a@) == components(b@),
{
    let x = parse_components(a);
    let y = parse_components(b);
    if x.0 != y.0 {
        if x.0 < y.0 {
            Ordering::Less
        } else {
            Ordering::Greater
        }
    } else if x.1 != y.1 {
        if x.1 < y.1 {
            Ordering::Less
        } else {
            Ordering::Greater
        }
    } else if x.2 != y.2 {
        if x.2 < y.2 {
            Ordering::Less
        } else {
            Ordering::Greater
        }
    } else {
        Ordering::Equal
    }
}

/// Whether the numbers of `a` come before those of `b`.
fn is_older(a: &str, b: &str) -> (r: bool)
    ensures
        r == older(a@, b@),
{
    match compare_versions(a, b) {
        Ordering::Less => true,
        _ => false,
    }
}

/// `sorted` with `name` put behind everything that is not older.
pub open spec fn placed(sorted: Seq<Seq<char>>, name: Seq<char>) -> Seq<Seq<char>>
    decreases sorted.len(),
{
    if sorted.len() > 0 && older(sorted.last(), name) {
        placed(sorted.drop_last(), name).push(sorted.last())
    } else {
        sorted.push(name)
    }
}

/// The names that begin with `go`, newest first; names with the same numbers
/// keep their order.
pub open spec fn newest_first(names: Seq<Seq<char>>) -> Seq<Seq<char>>
    decreases names.len(),
{
    if names.len() == 0 {
        Seq::empty()
    } else {
        let rest = newest_first(names.drop_last());
        if begins(names.last(), "go"@) {
            placed(rest, names.last())
        } else {
            rest
        }
    }
}

/// Where `name` goes in a list that is newest first.
fn place_for(sorted: &[String], name: &str) -> (at: usize)
    ensures
        at <= sorted@.len(),
        placed(texts(sorted@), name@) == texts(sorted@).insert(at as int, name@),
{
    let mut at: usize = sorted.len();
    let ghost all = texts(sorted@);
    let n = sorted.len();
    proof {
        assert(all.take(n as int) == all);
        assert(all.skip(n as int) == Seq::<Seq<char>>::empty());
        assert(placed(all, name@) == placed(all.take(n as int), name@) + all.skip(n as int));
    }
    while at > 0
        invariant_except_break
            at <= sorted@.len(),
            all == texts(sorted@),
            placed(all, name@) == placed(all.take(at as int), name@) + all.skip(at as int),
        ensures
            at <= sorted@.len(),
            all == texts(sorted@),
            placed(all, name@) == all.take(at as int).push(name@) + all.skip(at as int),
        decreases at,
    {
        assert(all[at - 1] == sorted@[at - 1]@);
        let ghost head = all.take(at as int);
        assert(head.last() == all[at - 1]);
        if !is_older(sorted[at - 1].as_str(), name) {
            break;
        }
        assert(head.drop_last() == all.take(at - 1));
        assert(placed(head.drop_last(), name@).push(head.last()) + all.skip(at as int) == placed(
            all.take(at - 1),
            name@,
        ) + all.skip(at - 1));
        at = at - 1;
        assert(at == 0 ==> placed(all.take(0), name@) == all.take(0).push(name@));
    }
    assert(all.take(at as int).push(name@) + all.skip(at as int) == all.insert(at as int, name@));
    at
}

/// The installed toolchains among the names in the directory of versions,
/// newest first.
pub fn list_installed(names: &[String]) -> (r: Vec<String>)
    ensures
        texts(r@) == newest_first(texts(names@)),
{
    let mut out: Vec<String> = Vec::new();
    let mut i: usize = 0;
    let ghost all = texts(names@);
    assert(texts(out@) == Seq::<Seq<char>>::empty());
    assert(all.take(0) == Seq::<Seq<char>>::empty());
    while i < names.len()
        invariant
            i <= names@.len(),
            all == texts(names@),
            texts(out@) == newest_first(all.take(i as int)),
        decreases names@.len() - i,
    {
        let ghost upto = all.take(i + 1);
        assert(upto.drop_last() == all.take(i as int));
        assert(upto.last() == names@[i as int]@);
        if text::starts_with(names[i].as_str(), "go") {
            let at = place_for(&out, names[i].as_str());
            let ghost had = out@;
            let name = names[i].clone();
            out.insert(at, name);
            assert(texts(out@) == texts(had).insert(at as int, name@));
        }
        i = i + 1;
    }
    assert(all.take(all.len() as int) == all);
    out
}

/// The newest installed toolchain, where there is one.
pub fn pick_latest_installed(names: &[String]) -> (r: Option<String>)
    ensures
        r is Some <==> newest_first(texts(names@)).len() > 0,
        r matches Some(v) ==> v@ == newest_first(texts(names@))[0],
{
    let all = list_installed(names);
    assert(texts(all@).len() == all@.len());
    if all.len() == 0 {
        None
    } else {
        assert(texts(all@)[0] == all@[0]@);
        Some(all[0].clone())
    }
}

/// The version that the global file or, without one there, the installed
/// toolchains decide.
pub open spec fn fallback(c: Context) -> Search<ResolvedView> {
    match c.global {
        FileState::Unread => Search::Read(Request::Global),
        FileState::Failed => Search::Failed(Request::Global),
        FileState::Text(t) => if trimmed(t@).len() > 0 {
            Search::Found(
                ResolvedView {
                    version: canonical(trimmed(t@)),
                    source: ToolchainSource::Global,
                    origin: Some(c.global_file@),
                },
            )
        } else {
            latest_known(c)
        },
        FileState::Absent => latest_known(c),
    }
}

/// The newest installed toolchain.
pub open spec fn latest_known(c: Context) -> Search<ResolvedView> {
    match c.installed {
        Listing::Unread => Search::Read(Request::Installed),
        Listing::Failed => Search::Failed(Request::Installed),
        Listing::Names(names) => {
            let all = newest_first(texts(names@));
            if all.len() > 0 {
                Search::Found(
                    ResolvedView {
                        version: all[0],
                        source: ToolchainSource::LatestInstalled,
                        origin: None,
                    },
                )
            } else {
                Search::NotFound
            }
        },
    }
}

/// The version that applies: that of `GV_VERSION`, else the project's pin,
/// else the global version, else the newest installed one.
pub open spec fn resolution(c: Context) -> Search<ResolvedView> {
    if c.env is Some && trimmed(c.env->0@).len() > 0 {
        Search::Found(
            ResolvedView {
                version: canonical(trimmed(c.env->0@)),
                source: ToolchainSource::EnvVar,
                origin: None,
            },
        )
    } else {
        match project_pin(c.levels@) {
            Search::Found(h) => Search::Found(
                ResolvedView { version: h.version, source: h.source, origin: Some(h.origin) },
            ),
            Search::Read(q) => Search::Read(q),
            Search::Failed(q) => Search::Failed(q),
            Search::NotFound => fallback(c),
        }
    }
}

/// Resolve the version that applies in a context.
pub fn resolve(context: &Context) -> (r: Search<Resolved>)
    ensures
        r@ == resolution(*context),
{
    if let Some(raw) = &context.env {
        let v = text::trim(raw.as_str());
        if !v.as_str().is_empty() {
            return Search::Found(
                Resolved {
                    version: manifest::normalize(v.as_str()),
                    source: ToolchainSource::EnvVar,
                    origin: None,
                },
            );
        }
    }
    match manifest::find_project_toolchain(&context.levels) {
        Search::Found(hit) => {
            let ToolchainHit { version, source, origin } = hit;
            return Search::Found(Resolved { version, source, origin: Some(origin) });
        },
        Search::Read(q) => {
            return Search::Read(q);
        },
        Search::Failed(q) => {
            return Search::Failed(q);
        },
        Search::NotFound => {},
    }
    match &context.global {
        FileState::Unread => {
            return Search::Read(Request::Global);
        },
        FileState::Failed => {
            return Search::Failed(Request::Global);
        },
        FileState::Absent => {},
        FileState::Text(t) => {
            let v = text::trim(t.as_str());
            if !v.as_str().is_empty() {
                return Search::Found(
                    Resolved {
                        version: manifest::normalize(v.as_str()),
                        source: ToolchainSource::Global,
                        origin: Some(context.global_file.clone()),
                    },
                );
            }
        },
    }
    match &context.installed {
        Listing::Unread => Search::Read(Request::Installed),
        Listing::Failed => Search::Failed(Request::Installed),
        Listing::Names(names) => match pick_latest_installed(names) {
            Some(version) => Search::Found(
                Resolved { version, source: ToolchainSource::LatestInstalled, origin: None },
            ),
            None => Search::NotFound,
        },
    }
}

/// `GV_VERSION` decides whenever it is set to more than whitespace, whatever
/// else is known.
pub proof fn law_env_wins(c: Context)
    requires
        c.env is Some,
        trimmed(c.env->0@).len() > 0,
    ensures
        resolution(c) == Search::Found(
            ResolvedView {
                version: canonical(c.env->0@),
                source: ToolchainSource::EnvVar,
                origin: None,
            },
        ),
{
    let t = trimmed(c.env->0@);
    text::lemma_trimmed_ends(c.env->0@);
    text::lemma_trimmed_is_self(t);
}

/// Without a value in `GV_VERSION` a project's pin decides, whatever the
/// global version and the installed toolchains are.
pub proof fn law_project_pin_wins(c: Context)
    requires
        c.env is None || trimmed(c.env->0@).len() == 0,
        project_pin(c.levels@) is Found,
    ensures
        resolution(c) matches Search::Found(r) && r.version == project_pin(c.levels@)->Found_0.version
            && r.source == project_pin(c.levels@)->Found_0.source && r.origin == Some(
            project_pin(c.levels@)->Found_0.origin,
        ),
{
}

/// Without a value in `GV_VERSION` and without a project pin, the global
/// version decides, whatever is installed.
pub proof fn law_global_wins(c: Context)
    requires
        c.env is None || trimmed(c.env->0@).len() == 0,
        project_pin(c.levels@) is NotFound,
        c.global is Text,
        trimmed(c.global->Text_0@).len() > 0,
    ensures
        resolution(c) == Search::Found(
            ResolvedView {
                version: canonical(c.global->Text_0@),
                source: ToolchainSource::Global,
                origin: Some(c.global_file@),
            },
        ),
{
    let t = trimmed(c.global->Text_0@);
    text::lemma_trimmed_ends(c.global->Text_0@);
    text::lemma_trimmed_is_self(t);
}

/// What `gv use-global` writes is what resolves where the global version
/// decides.
pub proof fn law_global_version_is_read_back(c: Context, version: Seq<char>)
    requires
        c.env is None || trimmed(c.env->0@).len() == 0,
        project_pin(c.levels@) is NotFound,
        c.global is Text,
        c.global->Text_0@ == normalized(version),
    ensures
        resolution(c) == Search::Found(
            ResolvedView {
                version: normalized(version),
                source: ToolchainSource::Global,
                origin: Some(c.global_file@),
            },
        ),
{
    crate::release::law_normalized_is_canonical(version);
    manifest::law_canonical_is_idempotent(version);
    manifest::lemma_canonical_is_trimmed(version);
    law_global_wins(c);
}

/// Without any other source the newest installed toolchain decides, and
/// nothing is resolved exactly where none is installed.
pub proof fn law_latest_installed_is_last(c: Context)
    requires
        c.env is None || trimmed(c.env->0@).len() == 0,
        project_pin(c.levels@) is NotFound,
        c.global is Absent || (c.global is Text && trimmed(c.global->Text_0@).len() == 0),
        c.installed is Names,
    ensures
        newest_first(texts(c.installed->Names_0@)).len() == 0 ==> resolution(c) is NotFound,
        newest_first(texts(c.installed->Names_0@)).len() > 0 ==> resolution(c) == Search::Found(
            ResolvedView {
                version: newest_first(texts(c.installed->Names_0@))[0],
                source: ToolchainSource::LatestInstalled,
                origin: None,
            },
        ),
{
}

/// Whether `later` is what may be known of a context after `earlier`.
pub open spec fn context_learned(earlier: Context, later: Context) -> bool {
    &&& earlier.env == later.env
    &&& earlier.global_file@ == later.global_file@
    &&& levels_learned(earlier.levels@, later.levels@)
    &&& learned(earlier.global, later.global)
    &&& earlier.installed is Unread || earlier.installed == later.installed
}

/// What resolution has settled does not depend on the files that it left
/// unread.
pub proof fn law_resolution_is_stable(earlier: Context, later: Context)
    requires
        context_learned(earlier, later),
        resolution(earlier).settled(),
    ensures
        resolution(later) == resolution(earlier),
{
    if project_pin(earlier.levels@).settled() {
        manifest::law_project_pin_is_stable(earlier.levels@, later.levels@);
    }
}

/// Resolution asks only for what nobody has read, and fails only where
/// something could not be read.
pub proof fn law_resolution_asks_for_unread(c: Context)
    requires
        c.levels@.len() <= usize::MAX,
    ensures
        resolution(c) matches Search::Read(q) ==> match q {
            Request::Global => c.global is Unread,
            Request::Installed => c.installed is Unread,
            _ => asks_level(c.levels@, q) && requested(c.levels@, q) is Unread,
        },
        resolution(c) matches Search::Failed(q) ==> match q {
            Request::Global => c.global is Failed,
            Request::Installed => c.installed is Failed,
            _ => asks_level(c.levels@, q) && requested(c.levels@, q) is Failed,
        },
{
    manifest::law_project_pin_asks_for_unread(c.levels@);
}

/// Every resolved version is a `go...` name, and it names the file it came
/// from exactly where it came from one.
pub proof fn law_resolved_version_is_a_go_name(c: Context)
    ensures
        resolution(c) matches Search::Found(r) ==> {
            &&& begins(r.version, "go"@)
            &&& r.origin is None <==> (r.source is EnvVar || r.source is LatestInstalled)
        },
{
    if c.env is Some {
        manifest::lemma_canonical_begins_go(trimmed(c.env->0@));
    }
    manifest::lemma_project_pin_is_a_go_name(c.levels@);
    if c.global is Text {
        manifest::lemma_canonical_begins_go(trimmed(c.global->Text_0@));
    }
    if c.installed is Names {
        let names = texts(c.installed->Names_0@);
        law_installed_are_the_go_names(names);
        let all = newest_first(names);
        if all.len() > 0 {
            let wanted = |n: Seq<char>| begins(n, "go"@);
            assert(all.to_multiset().count(all[0]) > 0) by {
                broadcast use vstd::seq_lib::group_to_multiset_ensures;

                assert(all.contains(all[0]));
            }
            assert(names.filter(wanted).contains(all[0])) by {
                broadcast use vstd::seq_lib::group_to_multiset_ensures;

            }
            let k = choose|k: int|
                0 <= k < names.filter(wanted).len() && names.filter(wanted)[k] == all[0];
            names.lemma_filter_pred(wanted, k);
        }
    }
}

proof fn lemma_placed_sorted(sorted: Seq<Seq<char>>, name: Seq<char>)
    requires
        forall|i: int, j: int| 0 <= i < j < sorted.len() ==> !older(sorted[i], sorted[j]),
    ensures
        placed(sorted, name).len() == sorted.len() + 1,
        forall|i: int, j: int|
            0 <= i < j < placed(sorted, name).len() ==> !older(
                placed(sorted, name)[i],
                placed(sorted, name)[j],
            ),
        forall|i: int|
            0 <= i < placed(sorted, name).len() ==> #[trigger] placed(sorted, name)[i] == name
                || sorted.contains(placed(sorted, name)[i]),
    decreases sorted.len(),
{
    let r = placed(sorted, name);
    if sorted.len() > 0 && older(sorted.last(), name) {
        let head = sorted.drop_last();
        lemma_placed_sorted(head, name);
        let p = placed(head, name);
        assert forall|i: int| 0 <= i < r.len() implies #[trigger] r[i] == name || sorted.contains(
            r[i],
        ) by {
            if i < p.len() {
                assert(r[i] == p[i]);
                if p[i] != name {
                    let k = choose|k: int| 0 <= k < head.len() && head[k] == p[i];
                    assert(sorted[k] == p[i]);
                }
            } else {
                assert(sorted[sorted.len() - 1] == r[i]);
            }
        }
        assert forall|i: int, j: int| 0 <= i < j < r.len() implies !older(r[i], r[j]) by {
            if j == p.len() {
                assert(r[i] == p[i]);
                if p[i] != name {
                    let k = choose|k: int| 0 <= k < head.len() && head[k] == p[i];
                    assert(sorted[k] == p[i]);
                }
            } else {
                assert(r[i] == p[i] && r[j] == p[j]);
            }
        }
    } else {
        assert forall|i: int| 0 <= i < r.len() implies #[trigger] r[i] == name || sorted.contains(
            r[i],
        ) by {
            if i < sorted.len() {
                assert(r[i] == sorted[i]);
            }
        }
        assert forall|i: int, j: int| 0 <= i < j < r.len() implies !older(r[i], r[j]) by {
            if j == sorted.len() {
                assert(r[i] == sorted[i]);
                if i < sorted.len() - 1 {
                    assert(!older(sorted[i], sorted[sorted.len() - 1]));
                }
            }
        }
    }
}

/// The list of installed toolchains is newest first: none is older than a
/// later one.
pub proof fn law_installed_newest_first(names: Seq<Seq<char>>)
    ensures
        forall|i: int, j: int|
            0 <= i < j < newest_first(names).len() ==> !older(
                newest_first(names)[i],
                newest_first(names)[j],
            ),
    decreases names.len(),
{
    if names.len() > 0 {
        law_installed_newest_first(names.drop_last());
        lemma_placed_sorted(newest_first(names.drop_last()), names.last());
    }
}

proof fn lemma_placed_multiset(sorted: Seq<Seq<char>>, name: Seq<char>)
    ensures
        placed(sorted, name).to_multiset() == sorted.to_multiset().insert(name),
    decreases sorted.len(),
{
    broadcast use vstd::seq_lib::group_to_multiset_ensures;

    if sorted.len() > 0 && older(sorted.last(), name) {
        lemma_placed_multiset(sorted.drop_last(), name);
        assert(sorted == sorted.drop_last().push(sorted.last()));
    }
}

/// The list of installed toolchains holds the names that begin with `go`,
/// each as often as it was there, and no others.
pub proof fn law_installed_are_the_go_names(names: Seq<Seq<char>>)
    ensures
        newest_first(names).to_multiset() == names.filter(
            |n: Seq<char>| begins(n, "go"@),
        ).to_multiset(),
    decreases names.len(),
{
    broadcast use vstd::seq_lib::group_to_multiset_ensures;

    let wanted = |n: Seq<char>| begins(n, "go"@);
    reveal(Seq::filter);
    if names.len() > 0 {
        law_installed_are_the_go_names(names.drop_last());
        lemma_placed_multiset(newest_first(names.drop_last()), names.last());
    }
}

proof fn lemma_placed_keeps_order(
    sorted: Seq<Seq<char>>,
    name: Seq<char>,
    numbers: (int, int, int),
)
    ensures
        placed(sorted, name).filter(|n: Seq<char>| components(n) == numbers) == (if components(name)
            == numbers {
            sorted.filter(|n: Seq<char>| components(n) == numbers).push(name)
        } else {
            sorted.filter(|n: Seq<char>| components(n) == numbers)
        }),
    decreases sorted.len(),
{
    let same = |n: Seq<char>| components(n) == numbers;
    reveal(Seq::filter);
    if sorted.len() > 0 && older(sorted.last(), name) {
        let head = sorted.drop_last();
        lemma_placed_keeps_order(head, name, numbers);
        let p = placed(head, name);
        assert(p.push(sorted.last()).drop_last() == p);
    } else {
        assert(sorted.push(name).drop_last() == sorted);
    }
}

/// Installed toolchains with the same numbers are listed in the order in
/// which they were given.
pub proof fn law_installed_order_is_stable(names: Seq<Seq<char>>, numbers: (int, int, int))
    ensures
        newest_first(names).filter(|n: Seq<char>| components(n) == numbers) == names.filter(
            |n: Seq<char>| begins(n, "go"@) && components(n) == numbers,
        ),
    decreases names.len(),
{
    reveal(Seq::filter);
    if names.len() > 0 {
        law_installed_order_is_stable(names.drop_last(), numbers);
        lemma_placed_keeps_order(newest_first(names.drop_last()), names.last(), numbers);
    }
}

} // verus!
