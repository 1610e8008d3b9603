//! Laws of the module proxy: the spelling of paths, the addresses, the walk up
//! a package path, and the answers of the checksum database.

use vstd::prelude::*;

use crate::laws::text::{free_of, law_last_piece};
use crate::proxy::{
    encoded, hash_from, is_missing, is_success, latest_at, list_at, module_above, parent_path,
    sum_at, zip_hash,
};
use crate::text::{begins, lemma_last_piece, lines, trimmed};

verus! {

/// The path above is what stands in front of the last slash, where that is
/// anything.
pub proof fn law_parent(p: Seq<char>, q: Seq<char>)
    requires
        free_of(q, '/'),
    ensures
        p.len() > 0 ==> parent_path(p + "/"@ + q) == Some(p),
        parent_path("/"@ + q) is None,
        parent_path(q) is None,
{
    reveal_strlit("/");
    law_last_piece(p, '/', q);
    assert(p.push('/') + q == p + "/"@ + q);
    assert((p + "/"@ + q).take(p.len() as int) == p);
    let none = Seq::<char>::empty();
    law_last_piece(none, '/', q);
    assert(none.push('/') + q == "/"@ + q);
}

/// Whether walking up from a package may come to a path: the package itself, or
/// what stands in front of any of its slashes, where that is anything.
pub open spec fn on_the_way(p: Seq<char>, package: Seq<char>) -> bool {
    p == package || (0 < p.len() < package.len() && package.take(p.len() as int) == p
        && package[p.len() as int] == '/')
}

/// Whether a path is the longest on the way that the proxy knows as a module:
/// it reports success for it, and that there is no module for every longer one.
pub open spec fn longest_known(
    m: Seq<char>,
    package: Seq<char>,
    status: spec_fn(Seq<char>) -> u16,
) -> bool {
    &&& on_the_way(m, package)
    &&& 200 <= status(m) <= 299
    &&& forall|c: Seq<char>| #[trigger]
        on_the_way(c, package) && c.len() > m.len() ==> status(c) == 404 || status(c) == 410
}

proof fn lemma_parent(path: Seq<char>)
    ensures
        parent_path(path) matches Some(up) ==> {
            &&& 0 < up.len() < path.len()
            &&& path.take(up.len() as int) == up
            &&& path[up.len() as int] == '/'
            &&& forall|i: int| up.len() < i < path.len() ==> path[i] != '/'
        },
        parent_path(path) is None ==> forall|i: int| 0 < i < path.len() ==> path[i] != '/',
{
    lemma_last_piece(path, '/');
    let last = last_of(path);
    let cut = path.len() - last.len() - 1;
    assert forall|i: int| cut < i < path.len() implies path[i] != '/' by {
        assert(last[i - cut - 1] == path[i]);
        if path[i] == '/' {
            assert(last.contains('/'));
        }
    }
}

spec fn last_of(path: Seq<char>) -> Seq<char> {
    crate::text::last_piece(path, '/')
}

proof fn lemma_on_the_way(c: Seq<char>, package: Seq<char>)
    ensures
        on_the_way(c, package) <==> c == package || (parent_path(package) is Some && on_the_way(
            c,
            parent_path(package)->0,
        )),
{
    lemma_parent(package);
    if parent_path(package) is Some {
        let up = parent_path(package)->0;
        if on_the_way(c, package) && c != package && c != up {
            if c.len() > up.len() {
                assert(package[c.len() as int] != '/');
            } else if c.len() == up.len() {
                assert(c == up);
            } else {
                assert(up.take(c.len() as int) == package.take(c.len() as int));
                assert(up[c.len() as int] == package[c.len() as int]);
            }
        }
        if on_the_way(c, up) {
            if c != up {
                assert(package.take(c.len() as int) == up.take(c.len() as int));
                assert(up[c.len() as int] == package[c.len() as int]);
            }
        }
    } else if on_the_way(c, package) && c != package {
        assert(package[c.len() as int] != '/');
    }
}

/// The walk up a package path finds the longest prefix, at a slash, that the
/// proxy knows as a module, and only that.
pub proof fn law_longest_module(
    package: Seq<char>,
    status: spec_fn(Seq<char>) -> u16,
    m: Seq<char>,
)
    ensures
        module_above(package, status) == Some(m) <==> longest_known(m, package, status),
    decreases package.len(),
{
    lemma_parent(package);
    law_status(status(package));
    law_status(status(m));
    lemma_on_the_way(m, package);
    assert(on_the_way(package, package));
    if is_success(status(package)) {
        if longest_known(m, package, status) {
            assert(m.len() == package.len());
            assert(m == package);
        }
    } else if is_missing(status(package)) && parent_path(package) is Some {
        let up = parent_path(package)->0;
        law_longest_module(up, status, m);
        if longest_known(m, up, status) {
            assert forall|c: Seq<char>| #[trigger]
                on_the_way(c, package) && c.len() > m.len() implies status(c) == 404 || status(c)
                == 410 by {
                lemma_on_the_way(c, package);
            }
            assert(on_the_way(m, package));
            assert(longest_known(m, package, status));
        }
        if longest_known(m, package, status) {
            assert forall|c: Seq<char>| #[trigger]
                on_the_way(c, up) && c.len() > m.len() implies status(c) == 404 || status(c)
                == 410 by {
                lemma_on_the_way(c, package);
                assert(on_the_way(c, package));
            }
            assert(longest_known(m, up, status));
        }
    }
}

/// Success is a status of the 200s, and 404 and 410 say that there is no such
/// module.
pub proof fn law_status(status: u16)
    ensures
        is_success(status) <==> 200 <= status <= 299,
        is_missing(status) <==> status == 404 || status == 410,
{
}

/// The spelling of a path is that of its parts, one behind the other.
pub proof fn law_encoding_goes_by_parts(a: Seq<char>, b: Seq<char>)
    ensures
        encoded(a + b) == encoded(a) + encoded(b),
    decreases a.len(),
{
    if a.len() == 0 {
        assert(a + b == b);
        assert(encoded(a) + encoded(b) == encoded(b));
    } else {
        law_encoding_goes_by_parts(a.drop_first(), b);
        assert((a + b).drop_first() == a.drop_first() + b);
        assert(encoded(a + b) == encoded(a) + encoded(b));
    }
}

/// An upper-case letter is spelled as `!` and the letter in lower case; any
/// other character is spelled as it is.
pub proof fn law_encoding_of_a_character(c: char)
    ensures
        'A' <= c <= 'Z' ==> encoded(seq![c]) == seq![
            '!',
            "abcdefghijklmnopqrstuvwxyz"@[c as int - 'A' as int],
        ],
        !('A' <= c <= 'Z') ==> encoded(seq![c]) == seq![c],
{
    reveal_strlit("abcdefghijklmnopqrstuvwxyz");
    assert(seq![c].drop_first() == Seq::<char>::empty());
    assert(encoded(Seq::<char>::empty()) == Seq::<char>::empty());
    if 'A' <= c <= 'Z' {
        lemma_lower(c as u8);
        assert(encoded(seq![c]) == seq![
            '!',
            "abcdefghijklmnopqrstuvwxyz"@[c as int - 'A' as int],
        ]);
    } else {
        assert(encoded(seq![c]) == seq![c]);
    }
}

proof fn lemma_lower(c: u8)
    requires
        65 <= c <= 90,
    ensures
        "abcdefghijklmnopqrstuvwxyz"@[c - 65] == (c + 32) as char,
{
    reveal_strlit("abcdefghijklmnopqrstuvwxyz");
}

/// The addresses that a module and a version are asked about at.
pub proof fn law_addresses(module: Seq<char>, version: Seq<char>)
    ensures
        latest_at(module) == "https://proxy.golang.org/"@ + encoded(module) + "/@latest"@,
        list_at(module) == "https://proxy.golang.org/"@ + encoded(module) + "/@v/list"@,
        sum_at(module, version) == "https://sum.golang.org/lookup/"@ + encoded(module) + "@"@
            + version,
{
    reveal_strlit("https://proxy.golang.org/");
    reveal_strlit("https://proxy.golang.org");
    reveal_strlit("/");
    assert("https://proxy.golang.org"@ + "/"@ == "https://proxy.golang.org/"@);
}

/// The hash of a module's zip stands in the first line that opens with module,
/// version and a space behind each, without the whitespace around it; an
/// answer without such a line has none.
pub proof fn law_zip_hash(
    body: Seq<char>,
    module: Seq<char>,
    version: Seq<char>,
    i: int,
    rest: Seq<char>,
)
    requires
        0 <= i <= lines(body).len(),
        forall|j: int|
            0 <= j < i ==> !begins(#[trigger] lines(body)[j], module + " "@ + version + " "@),
        i < lines(body).len() ==> lines(body)[i] == module + " "@ + version + " "@ + rest,
    ensures
        i < lines(body).len() ==> zip_hash(body, module, version) == Some(trimmed(rest)),
        i == lines(body).len() ==> zip_hash(body, module, version) is None,
{
    lemma_hash_from(lines(body), module + " "@ + version + " "@, rest, 0, i);
}

proof fn lemma_hash_from(
    all: Seq<Seq<char>>,
    prefix: Seq<char>,
    rest: Seq<char>,
    from: int,
    i: int,
)
    requires
        0 <= from <= i <= all.len(),
        forall|j: int| from <= j < i ==> !begins(#[trigger] all[j], prefix),
        i < all.len() ==> all[i] == prefix + rest,
    ensures
        i < all.len() ==> hash_from(all, prefix, from) == Some(trimmed(rest)),
        i == all.len() ==> hash_from(all, prefix, from) is None,
    decreases i - from,
{
    if from < i {
        assert(!begins(all[from], prefix));
        lemma_hash_from(all, prefix, rest, from + 1, i);
    } else if i < all.len() {
        assert(all[i].take(prefix.len() as int) == prefix);
        assert(all[i].skip(prefix.len() as int) == rest);
    }
}

} // verus!
