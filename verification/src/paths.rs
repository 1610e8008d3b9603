//! Where `gv` keeps its files.
//!
//! Paths are texts with `/` between their components.

use vstd::prelude::*;
use vstd::string::*;

use crate::text;

verus! {

/// The path of `piece` seen from `base`: an absolute piece stands alone, any
/// other is put behind `base` with one separator between them.
pub open spec fn joined(base: Seq<char>, piece: Seq<char>) -> Seq<char> {
    if piece.len() > 0 && piece[0] == '/' {
        piece
    } else if base.len() == 0 || base.last() == '/' {
        base + piece
    } else {
        base.push('/') + piece
    }
}

/// Put `piece` behind `base`.
pub fn join(base: &str, piece: &str) -> (r: String)
    ensures
        r@ == joined(base@, piece@),
{
    let b = text::chars(base);
    let p = text::chars(piece);
    if p.len() > 0 && p[0] == '/' {
        return piece.to_owned();
    }
    let mut r = base.to_owned();
    if b.len() > 0 && b[b.len() - 1] != '/' {
        r.push('/');
    }
    r.append(piece);
    r
}

/// The directories that `gv` works in.
#[derive(Debug, Clone)]
pub struct Paths {
    /// Toolchains and tools, as in `~/.local/share/gv`.
    pub data: String,
    /// Settings, as in `~/.config/gv`.
    pub config: String,
    /// Downloads in progress, as in `~/.cache/gv`.
    pub cache: String,
}

/// The directories of `gv` in a home directory.
pub fn discover(home: &str) -> (r: Paths)
    ensures
        r.data@ == joined(home@, ".local/share/gv"@),
        r.config@ == joined(home@, ".config/gv"@),
        r.cache@ == joined(home@, ".cache/gv"@),
{
    Paths {
        data: join(home, ".local/share/gv"),
        config: join(home, ".config/gv"),
        cache: join(home, ".cache/gv"),
    }
}

impl Paths {
    /// Where unpacked archives are.
    pub open spec fn store_dir(self) -> Seq<char> {
        joined(self.data@, "store"@)
    }

    /// Where the links from versions to unpacked archives are.
    pub open spec fn versions_dir(self) -> Seq<char> {
        joined(self.data@, "versions"@)
    }

    /// The link of one version.
    pub open spec fn dir_of(self, version: Seq<char>) -> Seq<char> {
        joined(self.versions_dir(), version)
    }

    /// A program of one version.
    pub open spec fn program_of(self, version: Seq<char>, program: Seq<char>) -> Seq<char> {
        joined(joined(self.dir_of(version), "bin"@), program)
    }

    /// The file with the global version.
    pub open spec fn global_file(self) -> Seq<char> {
        joined(self.config@, "global"@)
    }

    /// Where unpacked archives are.
    pub fn store(&self) -> (r: String)
        ensures
            r@ == self.store_dir(),
    {
        join(self.data.as_str(), "store")
    }

    /// Where the links from versions to unpacked archives are.
    pub fn versions(&self) -> (r: String)
        ensures
            r@ == self.versions_dir(),
    {
        join(self.data.as_str(), "versions")
    }

    /// The link of one version.
    pub fn version_dir(&self, version: &str) -> (r: String)
        ensures
            r@ == self.dir_of(version@),
    {
        join(self.versions().as_str(), version)
    }

    /// A program of one version.
    pub fn program(&self, version: &str, program: &str) -> (r: String)
        ensures
            r@ == self.program_of(version@, program@),
    {
        join(join(self.version_dir(version).as_str(), "bin").as_str(), program)
    }

    /// The file with the global version.
    pub fn global_version_file(&self) -> (r: String)
        ensures
            r@ == self.global_file(),
    {
        join(self.config.as_str(), "global")
    }
}

/// A piece ends the path that it is put behind, and a relative one keeps the
/// base in front.
pub proof fn law_join_keeps_the_piece(base: Seq<char>, piece: Seq<char>)
    ensures
        text::ends(joined(base, piece), piece),
        !(piece.len() > 0 && piece[0] == '/') ==> text::begins(joined(base, piece), base),
{
    let r = joined(base, piece);
    assert(r.skip(r.len() - piece.len()) == piece);
    if !(piece.len() > 0 && piece[0] == '/') {
        assert(r.take(base.len() as int) == base);
    }
}

} // verus!
