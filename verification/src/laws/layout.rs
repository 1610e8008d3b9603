//! Laws of paths: how they are put together, and where everything is kept.

use vstd::prelude::*;

use crate::paths::{joined, Paths};
use crate::store::{marker, sha_dir};
use crate::text::{byte_prefix, lemma_ascii_byte_prefix, splits_at};
use crate::tool::tool_home;

verus! {

/// Whether a text can stand as one more component of a path.
pub open spec fn relative(piece: Seq<char>) -> bool {
    !(piece.len() > 0 && piece[0] == '/')
}

/// Whether a path is not empty and does not end in a separator.
pub open spec fn plain(base: Seq<char>) -> bool {
    base.len() > 0 && base[base.len() - 1] != '/'
}

/// One separator stands between a path and what is put behind it; an absolute
/// path stands alone.
pub proof fn law_join(base: Seq<char>, piece: Seq<char>)
    ensures
        !relative(piece) ==> joined(base, piece) == piece,
        relative(piece) && plain(base) ==> joined(base, piece) == base + "/"@ + piece,
        relative(piece) && !plain(base) ==> joined(base, piece) == base + piece,
{
    reveal_strlit("/");
    if relative(piece) && plain(base) {
        assert(base.push('/') + piece == base + "/"@ + piece);
    }
}

/// Where the store, the versions, their programs, the global version and the
/// tools are.
pub proof fn law_layout(
    paths: Paths,
    version: Seq<char>,
    program: Seq<char>,
    name: Seq<char>,
)
    requires
        plain(paths.data@),
        plain(paths.config@),
        plain(version),
        relative(version),
        relative(program),
        plain(name),
        relative(name),
    ensures
        paths.store_dir() == paths.data@ + "/store"@,
        paths.versions_dir() == paths.data@ + "/versions"@,
        paths.dir_of(version) == paths.data@ + "/versions/"@ + version,
        paths.program_of(version, program) == paths.data@ + "/versions/"@ + version + "/bin/"@
            + program,
        paths.global_file() == paths.config@ + "/global"@,
        tool_home(paths, name, version) == paths.data@ + "/tools/"@ + name + "/"@ + version,
{
    reveal_strlit("/");
    reveal_strlit("store");
    reveal_strlit("/store");
    reveal_strlit("versions");
    reveal_strlit("/versions");
    reveal_strlit("/versions/");
    reveal_strlit("bin");
    reveal_strlit("/bin/");
    reveal_strlit("global");
    reveal_strlit("/global");
    reveal_strlit("tools");
    reveal_strlit("/tools/");
    assert(paths.store_dir() == paths.data@ + "/store"@);
    assert(paths.versions_dir() == paths.data@ + "/versions"@);
    assert(paths.dir_of(version) == paths.data@ + "/versions/"@ + version);
    let bin = joined(paths.dir_of(version), "bin"@);
    assert(paths.dir_of(version).last() == version.last());
    assert(bin == paths.data@ + "/versions/"@ + version + "/"@ + "bin"@);
    assert(bin.last() == 'n');
    assert(paths.program_of(version, program) == paths.data@ + "/versions/"@ + version + "/bin/"@
        + program);
    assert(paths.global_file() == paths.config@ + "/global"@);
    let tools = joined(paths.data@, "tools"@);
    assert(tools == paths.data@ + "/tools"@) by {
        reveal_strlit("/tools");
    }
    assert(tools.last() == 's');
    let home = joined(tools, name);
    assert(home == paths.data@ + "/tools/"@ + name);
    assert(home.last() == name.last());
    assert(tool_home(paths, name, version) == paths.data@ + "/tools/"@ + name + "/"@ + version);
}

/// Every place is its name put behind the directory that it belongs to,
/// whatever the texts are.
pub proof fn law_places(paths: Paths, version: Seq<char>, piece: Seq<char>)
    ensures
        paths.store_dir() == joined(paths.data@, "store"@),
        paths.versions_dir() == joined(paths.data@, "versions"@),
        paths.dir_of(version) == joined(joined(paths.data@, "versions"@), version),
        paths.program_of(version, piece) == joined(joined(paths.dir_of(version), "bin"@), piece),
        paths.global_file() == joined(paths.config@, "global"@),
        tool_home(paths, piece, version) == joined(
            joined(joined(paths.data@, "tools"@), piece),
            version,
        ),
{
}

/// An archive is kept under the first 16 characters of its digest, and marked
/// there.
pub proof fn law_archive_place(paths: Paths, sha256: Seq<char>)
    requires
        plain(paths.data@),
        vstd::utf8::is_ascii_chars(sha256),
        sha256.len() >= 16,
        sha256[0] != '/',
        sha256[15] != '/',
    ensures
        sha_dir(paths, sha256) == paths.data@ + "/store/"@ + sha256.take(16),
        marker(paths, sha256) == paths.data@ + "/store/"@ + sha256.take(16) + "/.gv-installed"@,
{
    lemma_ascii_byte_prefix(sha256, 16);
    reveal_strlit("store");
    reveal_strlit("/store/");
    reveal_strlit(".gv-installed");
    reveal_strlit("/.gv-installed");
    let name = sha256.take(16);
    assert(name[0] == sha256[0]);
    assert(paths.store_dir().last() == 'e');
    assert(sha_dir(paths, sha256) == paths.data@ + "/store/"@ + name);
    assert(sha_dir(paths, sha256).last() == sha256[15]);
    assert(marker(paths, sha256) == paths.data@ + "/store/"@ + name + "/.gv-installed"@);
}

/// The first bytes of a text, where they hold whole characters, are those of
/// the text that they make.
pub proof fn law_byte_prefix(s: Seq<char>, n: int)
    requires
        splits_at(s, n),
    ensures
        vstd::utf8::encode_utf8(byte_prefix(s, n)) == vstd::utf8::encode_utf8(s).take(n),
{
    let bytes = vstd::utf8::encode_utf8(s);
    vstd::utf8::encode_utf8_valid_utf8(s);
    vstd::utf8::valid_utf8_split(bytes, n);
    vstd::utf8::decode_utf8_encode_utf8(bytes.subrange(0, n));
    assert(bytes.subrange(0, n) == bytes.take(n));
}

} // verus!
