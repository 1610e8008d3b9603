//! Content-addressed store. Each archive is unpacked into
//! `<store>/<sha256-prefix>/` and `<versions>/<version>` is a symlink to it.

use vstd::prelude::*;
use vstd::string::*;

use crate::paths;
use crate::paths::{joined, Paths};
use crate::text;
use crate::text::{byte_prefix, splits_at};

verus! {

/// The store under the directories of `gv`.
pub struct Store<'a> {
    pub paths: &'a Paths,
}

/// A link to be made.
#[derive(Debug)]
pub struct LinkPlan {
    /// What the link points to.
    pub target: String,
    /// Where the link stands.
    pub link: String,
    /// Whether something stands there already and has to go first.
    pub replace: bool,
}

/// A file to be written.
#[derive(Debug)]
pub struct MarkPlan {
    /// The directory that the file needs.
    pub dir: String,
    pub file: String,
    pub content: String,
}

/// The directory of the archive with a hash: the first 16 bytes of the hash
/// name it, which keeps paths short and is collision-safe in practice.
pub open spec fn sha_dir(paths: Paths, sha256: Seq<char>) -> Seq<char> {
    joined(paths.store_dir(), byte_prefix(sha256, 16))
}

/// The file that says that an archive has been unpacked completely.
pub open spec fn marker(paths: Paths, sha256: Seq<char>) -> Seq<char> {
    joined(sha_dir(paths, sha256), ".gv-installed"@)
}

impl<'a> Store<'a> {
    /// The store under these directories.
    pub fn new(paths: &'a Paths) -> (r: Store<'a>)
        ensures
            *r.paths == *paths,
    {
        Store { paths }
    }

    /// The directory of the archive with this hash.
    pub fn dir_for_sha(&self, sha256: &str) -> (r: String)
        requires
            splits_at(sha256@, 16),
        ensures
            r@ == sha_dir(*self.paths, sha256@),
    {
        paths::join(self.paths.store().as_str(), text::take_bytes(sha256, 16).as_str())
    }

    /// Where the link of a version stands.
    pub fn version_link(&self, version: &str) -> (r: String)
        ensures
            r@ == self.paths.dir_of(version@),
    {
        self.paths.version_dir(version)
    }

    /// How to link a version to the archive with this hash, given whether
    /// anything stands where the link goes.
    pub fn link_version(&self, version: &str, sha256: &str, occupied: bool) -> (r: LinkPlan)
        requires
            splits_at(sha256@, 16),
        ensures
            r.target@ == sha_dir(*self.paths, sha256@),
            r.link@ == self.paths.dir_of(version@),
            r.replace == occupied,
    {
        LinkPlan {
            target: self.dir_for_sha(sha256),
            link: self.version_link(version),
            replace: occupied,
        }
    }

    /// The file whose presence says that the archive with this hash is
    /// installed.
    pub fn installed_marker(&self, sha256: &str) -> (r: String)
        requires
            splits_at(sha256@, 16),
        ensures
            r@ == marker(*self.paths, sha256@),
    {
        paths::join(self.dir_for_sha(sha256).as_str(), ".gv-installed")
    }

    /// How to record that the archive with this hash is installed.
    pub fn mark_installed(&self, sha256: &str) -> (r: MarkPlan)
        requires
            splits_at(sha256@, 16),
        ensures
            r.dir@ == sha_dir(*self.paths, sha256@),
            r.file@ == marker(*self.paths, sha256@),
            r.content@ == sha256@,
    {
        MarkPlan {
            dir: self.dir_for_sha(sha256),
            file: self.installed_marker(sha256),
            content: sha256.to_owned(),
        }
    }
}

/// The store is content-addressed: archives whose hashes share their first 16
/// characters share a directory, and others do not.
pub proof fn law_store_is_content_addressed(paths: Paths, a: Seq<char>, b: Seq<char>)
    requires
        vstd::utf8::is_ascii_chars(a),
        vstd::utf8::is_ascii_chars(b),
        a.len() >= 16,
        b.len() >= 16,
        a[0] != '/',
        b[0] != '/',
    ensures
        sha_dir(paths, a) == sha_dir(paths, b) <==> a.take(16) == b.take(16),
{
    text::lemma_ascii_byte_prefix(a, 16);
    text::lemma_ascii_byte_prefix(b, 16);
    assert(a.take(16)[0] == a[0]);
    assert(b.take(16)[0] == b[0]);
    paths::law_join_keeps_the_piece(paths.store_dir(), a.take(16));
    paths::law_join_keeps_the_piece(paths.store_dir(), b.take(16));
}

} // verus!
