//! What `gv` asks the Go module proxy and the checksum database, and how it
//! reads their answers.
//!
//! Endpoints used:
//!   GET /<encoded-module>/@latest    JSON {Version, Time}
//!   GET /<encoded-module>/@v/list    one version per line
//!   GET sum.golang.org/lookup/<encoded-module>@<version>

use vstd::prelude::*;
use vstd::string::*;

use crate::text;
use crate::text::{begins, last_piece, lines, texts, trimmed};

verus! {

pub const PROXY_BASE: &'static str = "https://proxy.golang.org";

/// A version as the proxy describes it.
#[derive(Debug, Clone)]
pub struct VersionInfo {
    pub version: String,
    pub time: Option<String>,
}

/// The lower-case form of an ASCII upper-case letter.
pub open spec fn lowered(c: char) -> char {
    (c as u8 + 32) as char
}

/// An ASCII upper-case letter.
pub open spec fn is_upper(c: char) -> bool {
    'A' <= c <= 'Z'
}

/// The proxy's spelling of a path: every upper-case letter is written as `!`
/// and the lower-case letter.
pub open spec fn encoded(s: Seq<char>) -> Seq<char>
    decreases s.len(),
{
    if s.len() == 0 {
        Seq::empty()
    } else if is_upper(s[0]) {
        seq!['!', lowered(s[0])] + encoded(s.drop_first())
    } else {
        seq![s[0]] + encoded(s.drop_first())
    }
}

/// Module proxy case-encoding: every uppercase letter is replaced by `!` plus
/// the lowercase form. See https://go.dev/ref/mod#goproxy-protocol.
pub fn encode_path(s: &str) -> (r: String)
    ensures
        r@ == encoded(s@),
{
    let v = text::chars(s);
    let mut out = String::new();
    let mut i: usize = 0;
    assert(v@.skip(0) == v@);
    while i < v.len()
        invariant
            i <= v@.len(),
            encoded(v@) == out@ + encoded(v@.skip(i as int)),
        decreases v@.len() - i,
    {
        let c = v[i];
        let ghost done = out@;
        let ghost rest = v@.skip(i as int);
        assert(rest.drop_first() == v@.skip(i + 1));
        if 'A' <= c && c <= 'Z' {
            out.push('!');
            out.push((c as u8 + 32) as char);
            assert(done + (seq!['!', lowered(c)] + encoded(rest.drop_first())) == out@ + encoded(
                rest.drop_first(),
            ));
        } else {
            out.push(c);
            assert(done + (seq![c] + encoded(rest.drop_first())) == out@ + encoded(
                rest.drop_first(),
            ));
        }
        i = i + 1;
    }
    assert(v@.skip(i as int) == Seq::<char>::empty());
    out
}

/// The path behind a spelling of the proxy.
pub open spec fn decoded(s: Seq<char>) -> Seq<char>
    decreases s.len(),
{
    if s.len() == 0 {
        Seq::empty()
    } else if s[0] == '!' && s.len() > 1 {
        seq![(s[1] as u8 - 32) as char] + decoded(s.skip(2))
    } else {
        seq![s[0]] + decoded(s.skip(1))
    }
}

/// The proxy's spelling loses nothing: of a path without `!` it can be read
/// back, so two such paths never share a spelling.
pub proof fn law_encoding_can_be_read_back(s: Seq<char>)
    requires
        !s.contains('!'),
    ensures
        decoded(encoded(s)) == s,
    decreases s.len(),
{
    if s.len() > 0 {
        let rest = s.drop_first();
        assert(!rest.contains('!')) by {
            if rest.contains('!') {
                let k = choose|k: int| 0 <= k < rest.len() && rest[k] == '!';
                assert(s[k + 1] == '!');
            }
        }
        assert(s[0] != '!');
        law_encoding_can_be_read_back(rest);
        let e = encoded(s);
        if is_upper(s[0]) {
            assert(e.skip(2) == encoded(rest));
            assert(e[1] == lowered(s[0]));
            assert(((lowered(s[0]) as u8 - 32) as char) == s[0]);
        } else {
            assert(e.skip(1) == encoded(rest));
        }
        assert(seq![s[0]] + rest == s);
    }
}

/// The proxy's spelling holds no upper-case letter.
pub proof fn law_encoding_has_no_upper_case(s: Seq<char>)
    ensures
        forall|i: int| 0 <= i < encoded(s).len() ==> !is_upper(#[trigger] encoded(s)[i]),
    decreases s.len(),
{
    if s.len() > 0 {
        let rest = encoded(s.drop_first());
        law_encoding_has_no_upper_case(s.drop_first());
        assert forall|i: int| 0 <= i < encoded(s).len() implies !is_upper(
            #[trigger] encoded(s)[i],
        ) by {
            let n = encoded(s).len() - rest.len();
            if i >= n {
                assert(encoded(s)[i] == rest[i - n]);
            }
        }
    }
}

/// A path without upper-case letters is its own spelling.
pub proof fn law_encoding_keeps_lower_case(s: Seq<char>)
    requires
        forall|i: int| 0 <= i < s.len() ==> !is_upper(#[trigger] s[i]),
    ensures
        encoded(s) == s,
    decreases s.len(),
{
    if s.len() > 0 {
        let rest = s.drop_first();
        assert forall|i: int| 0 <= i < rest.len() implies !is_upper(#[trigger] rest[i]) by {
            assert(!is_upper(s[i + 1]));
        }
        assert(!is_upper(s[0]));
        law_encoding_keeps_lower_case(rest);
        assert(seq![s[0]] + rest == s);
    }
}

/// Where the proxy answers which version of a module is the latest.
pub open spec fn latest_at(module: Seq<char>) -> Seq<char> {
    "https://proxy.golang.org"@ + "/"@ + encoded(module) + "/@latest"@
}

/// The address of the proxy's answer on the latest version of a module.
pub fn latest_url(module: &str) -> (r: String)
    ensures
        r@ == latest_at(module@),
{
    PROXY_BASE.to_owned().concat("/").concat(encode_path(module).as_str()).concat("/@latest")
}

/// Where the proxy lists the versions of a module.
pub open spec fn list_at(module: Seq<char>) -> Seq<char> {
    "https://proxy.golang.org"@ + "/"@ + encoded(module) + "/@v/list"@
}

/// The address of the proxy's list of the versions of a module.
pub fn list_url(module: &str) -> (r: String)
    ensures
        r@ == list_at(module@),
{
    PROXY_BASE.to_owned().concat("/").concat(encode_path(module).as_str()).concat("/@v/list")
}

/// Where the checksum database answers on a version of a module.
pub open spec fn sum_at(module: Seq<char>, version: Seq<char>) -> Seq<char> {
    "https://sum.golang.org/lookup/"@ + encoded(module) + "@"@ + version
}

/// The address of the checksum database's answer on a version of a module.
pub fn sum_url(module: &str, version: &str) -> (r: String)
    ensures
        r@ == sum_at(module@, version@),
{
    "https://sum.golang.org/lookup/".to_owned().concat(encode_path(module).as_str()).concat(
        "@",
    ).concat(version)
}

/// The path above: what stands in front of the last slash, where that is
/// anything.
pub open spec fn parent_path(path: Seq<char>) -> Option<Seq<char>> {
    let cut = path.len() - last_piece(path, '/').len() - 1;
    if cut > 0 {
        Some(path.take(cut))
    } else {
        None
    }
}

/// The path above a package path.
pub fn parent_of(path: &str) -> (r: Option<String>)
    ensures
        r is Some <==> parent_path(path@) is Some,
        r matches Some(p) ==> parent_path(path@) == Some(p@),
{
    let v = text::chars(path);
    let last = text::last_of(path, '/');
    let tail = text::chars(last.as_str());
    proof {
        text::lemma_last_piece(path@, '/');
    }
    if v.len() > tail.len() && v.len() - tail.len() > 1 {
        let cut = v.len() - tail.len() - 1;
        assert(v@.subrange(0, cut as int) == v@.take(cut as int));
        Some(text::slice(&v, 0, cut))
    } else {
        None
    }
}

/// What to do once the proxy has answered on a candidate module path.
#[derive(Debug)]
pub enum Walk {
    /// The candidate is a module.
    Found,
    /// It is none; ask for this path next.
    Next(String),
    /// It is none, and there is no path above it.
    NoModule,
    /// The status says neither.
    Unexpected,
}

/// A status that reports success.
pub open spec fn is_success(status: u16) -> bool {
    200 <= status <= 299
}

/// A status that says that there is no such module.
pub open spec fn is_missing(status: u16) -> bool {
    status == 404 || status == 410
}

/// Decide what the proxy's status for a candidate means.
///
/// The Go module proxy has no package-to-module lookup, so the path is walked
/// up, and each prefix tried in turn, until the proxy knows one. This mirrors
/// how `go install` resolves modules itself.
pub fn walk_up(candidate: &str, status: u16) -> (r: Walk)
    ensures
        match r {
            Walk::Found => is_success(status),
            Walk::Next(p) => is_missing(status) && parent_path(candidate@) == Some(p@),
            Walk::NoModule => is_missing(status) && parent_path(candidate@) is None,
            Walk::Unexpected => !is_success(status) && !is_missing(status),
        },
{
    if 200 <= status && status <= 299 {
        Walk::Found
    } else if status == 404 || status == 410 {
        match parent_of(candidate) {
            Some(p) => Walk::Next(p),
            None => Walk::NoModule,
        }
    } else {
        Walk::Unexpected
    }
}

/// The module that walking up from a candidate ends at, for a proxy that
/// answers with the given statuses; `None` where it ends without one.
pub open spec fn module_above(candidate: Seq<char>, status: spec_fn(Seq<char>) -> u16) -> Option<
    Seq<char>,
>
    decreases candidate.len(),
    via module_above_decreases
{
    if is_success(status(candidate)) {
        Some(candidate)
    } else if is_missing(status(candidate)) && parent_path(candidate) is Some {
        module_above(parent_path(candidate)->0, status)
    } else {
        None
    }
}

#[via_fn]
proof fn module_above_decreases(candidate: Seq<char>, status: spec_fn(Seq<char>) -> u16) {
    text::lemma_last_piece(candidate, '/');
}

/// Whether `above` is reached from `path` by going up, in any number of steps.
pub open spec fn is_above(above: Seq<char>, path: Seq<char>) -> bool
    decreases path.len(),
    via is_above_decreases
{
    above == path || (parent_path(path) is Some && is_above(above, parent_path(path)->0))
}

#[via_fn]
proof fn is_above_decreases(above: Seq<char>, path: Seq<char>) {
    text::lemma_last_piece(path, '/');
}

/// The walk finds the longest prefix that the proxy knows: the module is a
/// path above the package, the proxy knows it, and it knows no longer one.
pub proof fn law_walk_finds_the_longest_module(
    package: Seq<char>,
    status: spec_fn(Seq<char>) -> u16,
)
    requires
        module_above(package, status) is Some,
    ensures
        is_above(module_above(package, status)->0, package),
        is_success(status(module_above(package, status)->0)),
        forall|other: Seq<char>| #[trigger]
            is_above(other, package) && other.len() > (module_above(package, status)->0).len()
                ==> is_missing(status(other)),
{
    lemma_module_above_is_above(package, status);
    assert forall|other: Seq<char>| #[trigger]
        is_above(other, package) && other.len() > (module_above(
            package,
            status,
        )->0).len() implies is_missing(status(other)) by {
        lemma_longer_is_missing(package, status, other);
    }
}

proof fn lemma_longer_is_missing(
    package: Seq<char>,
    status: spec_fn(Seq<char>) -> u16,
    other: Seq<char>,
)
    requires
        module_above(package, status) is Some,
        is_above(other, package),
        other.len() > (module_above(package, status)->0).len(),
    ensures
        is_missing(status(other)),
    decreases package.len(),
{
    text::lemma_last_piece(package, '/');
    if other != package {
        let up = parent_path(package)->0;
        lemma_above_is_shorter(other, up);
        if !is_success(status(package)) {
            lemma_longer_is_missing(up, status, other);
        }
    }
}

/// The path above a path above is above.
pub proof fn lemma_parent_is_above(above: Seq<char>, path: Seq<char>)
    requires
        is_above(above, path),
    ensures
        parent_path(above) is Some ==> is_above(parent_path(above)->0, path),
    decreases path.len(),
{
    text::lemma_last_piece(path, '/');
    if above == path {
        if parent_path(above) is Some {
            assert(is_above(parent_path(above)->0, parent_path(above)->0));
        }
    } else {
        lemma_parent_is_above(above, parent_path(path)->0);
    }
}

proof fn lemma_above_is_shorter(above: Seq<char>, path: Seq<char>)
    requires
        is_above(above, path),
    ensures
        above.len() <= path.len(),
    decreases path.len(),
{
    text::lemma_last_piece(path, '/');
    if above != path {
        lemma_above_is_shorter(above, parent_path(path)->0);
    }
}

proof fn lemma_module_above_is_above(package: Seq<char>, status: spec_fn(Seq<char>) -> u16)
    requires
        module_above(package, status) is Some,
    ensures
        is_above(module_above(package, status)->0, package),
        is_success(status(module_above(package, status)->0)),
    decreases package.len(),
{
    text::lemma_last_piece(package, '/');
    if !is_success(status(package)) {
        lemma_module_above_is_above(parent_path(package)->0, status);
    }
}

/// The hash in the first line, from `i` on, that opens with `prefix`.
pub open spec fn hash_from(all: Seq<Seq<char>>, prefix: Seq<char>, i: int) -> Option<Seq<char>>
    decreases all.len() - i,
{
    if i < 0 || i >= all.len() {
        None
    } else if begins(all[i], prefix) {
        Some(trimmed(all[i].skip(prefix.len() as int)))
    } else {
        hash_from(all, prefix, i + 1)
    }
}

/// The hash of a module's zip in an answer of the checksum database.
pub open spec fn zip_hash(body: Seq<char>, module: Seq<char>, version: Seq<char>) -> Option<
    Seq<char>,
> {
    hash_from(lines(body), module + " "@ + version + " "@, 0)
}

/// The answer of the checksum database holds no hash of the module's zip.
#[derive(Debug)]
pub struct NoHash {
    pub module: String,
    pub version: String,
}

/// Parse the sum.golang.org `lookup` response body. Format:
///   <signed-tree-id>
///   <module> <version> h1:<hash>
///   <module> <version>/go.mod h1:<hash>
///
///   <signature>
pub fn parse_sumdb_lookup(body: &str, module: &str, version: &str) -> (r: Result<String, NoHash>)
    ensures
        match r {
            Ok(hash) => zip_hash(body@, module@, version@) == Some(hash@),
            Err(e) => zip_hash(body@, module@, version@) is None && e.module@ == module@
                && e.version@ == version@,
        },
{
    let prefix = module.to_owned().concat(" ").concat(version).concat(" ");
    let all = text::split_lines(body);
    let mut i: usize = 0;
    while i < all.len()
        invariant
            i <= all@.len(),
            texts(all@) == lines(body@),
            prefix@ == module@ + " "@ + version@ + " "@,
            zip_hash(body@, module@, version@) == hash_from(lines(body@), prefix@, i as int),
        decreases all@.len() - i,
    {
        assert(all@[i as int]@ == lines(body@)[i as int]);
        if let Some(rest) = text::strip_prefix(all[i].as_str(), prefix.as_str()) {
            return Ok(text::trim(rest.as_str()));
        }
        i = i + 1;
    }
    Err(NoHash { module: module.to_owned(), version: version.to_owned() })
}

impl NoHash {
    /// The message for the user.
    pub fn message(&self) -> (r: String)
        ensures
            r@ == "could not find h1 hash for "@ + self.module@ + "@"@ + self.version@
                + " in sumdb response"@,
    {
        "could not find h1 hash for ".to_owned().concat(self.module.as_str()).concat("@").concat(
            self.version.as_str(),
        ).concat(" in sumdb response")
    }
}

} // verus!
