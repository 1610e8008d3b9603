//! The official Go release index, and the choice of a release and an archive
//! from it.

use vstd::prelude::*;
use vstd::string::*;

use crate::manifest::canonical;
use crate::platform::{arch_label, os_label, Platform};
use crate::text;
use crate::text::{begins, trimmed};

verus! {

/// Where the release index is.
pub const INDEX_URL: &'static str = "https://go.dev/dl/?mode=json&include=all";

/// Where the archives are.
pub const DL_BASE: &'static str = "https://go.dev/dl/";

/// A Go release.
#[derive(Debug, Clone)]
pub struct Release {
    /// The version, as in `go1.25.0`.
    pub version: String,
    pub stable: bool,
    pub files: Vec<ReleaseFile>,
}

/// A file of a release.
#[derive(Debug, Clone)]
pub struct ReleaseFile {
    pub filename: String,
    pub os: String,
    pub arch: String,
    pub version: String,
    pub sha256: String,
    pub size: u64,
    /// `archive`, `installer` or `source`.
    pub kind: String,
}

/// Why no archive or release could be chosen.
#[derive(Debug)]
pub enum ReleaseError {
    /// The index has no release of this version.
    VersionNotFound { version: String },
    /// The release of this version has no archive for the platform.
    NoArchive { os: String, arch: String, version: String },
    /// The index has no stable release.
    NoStable,
}

/// The canonical form of a version: `go` in front of what stands behind any
/// `go` in the trimmed input.
pub open spec fn normalized(input: Seq<char>) -> Seq<char> {
    let t = trimmed(input);
    "go"@ + (if begins(t, "go"@) {
        t.skip(2)
    } else {
        t
    })
}

/// Accept "1.25.0", "go1.25.0", "1.25" and return the canonical `go1.25.0`
/// form. The `go` prefix is added when missing and left in place when present.
/// Partial versions are not padded.
pub fn normalize_version(input: &str) -> (r: String)
    ensures
        r@ == normalized(input@),
{
    let t = text::trim(input);
    let s = match text::strip_prefix(t.as_str(), "go") {
        Some(rest) => {
            proof {
                reveal_strlit("go");
            }
            rest
        },
        None => t,
    };
    "go".to_owned().concat(s.as_str())
}

/// Both ways of bringing a version into canonical form agree.
pub proof fn law_normalized_is_canonical(input: Seq<char>)
    ensures
        normalized(input) == canonical(input),
{
    reveal_strlit("go");
    let t = trimmed(input);
    if begins(t, "go"@) {
        assert(t == t.take(2) + t.skip(2));
    }
}

/// Whether a file is the archive for a platform.
pub open spec fn is_archive_for(file: ReleaseFile, platform: Platform) -> bool {
    &&& file.kind@ == "archive"@
    &&& file.os@ == os_label(platform.os)
    &&& file.arch@ == arch_label(platform.arch)
}

/// Whether `i` is the first release of the version.
pub open spec fn is_first_release(releases: Seq<Release>, version: Seq<char>, i: int) -> bool {
    &&& 0 <= i < releases.len()
    &&& releases[i].version@ == version
    &&& forall|j: int| 0 <= j < i ==> (#[trigger] releases[j]).version@ != version
}

/// Whether `i` is the first archive for the platform.
pub open spec fn is_first_archive(files: Seq<ReleaseFile>, platform: Platform, i: int) -> bool {
    &&& 0 <= i < files.len()
    &&& is_archive_for(files[i], platform)
    &&& forall|j: int| 0 <= j < i ==> !is_archive_for(#[trigger] files[j], platform)
}

/// Whether `i` is the first stable release.
pub open spec fn is_first_stable(releases: Seq<Release>, i: int) -> bool {
    &&& 0 <= i < releases.len()
    &&& releases[i].stable
    &&& forall|j: int| 0 <= j < i ==> !(#[trigger] releases[j]).stable
}

/// Whether an error says why no archive can be chosen: no release of the
/// version, or no archive for the platform in the first one.
pub open spec fn cannot_select(
    releases: Seq<Release>,
    version: Seq<char>,
    platform: Platform,
    e: ReleaseError,
) -> bool {
    match e {
        ReleaseError::VersionNotFound { version: v } => {
            &&& v@ == normalized(version)
            &&& forall|j: int|
                0 <= j < releases.len() ==> (#[trigger] releases[j]).version@ != normalized(version)
        },
        ReleaseError::NoArchive { os, arch, version: v } => {
            &&& os@ == os_label(platform.os)
            &&& arch@ == arch_label(platform.arch)
            &&& v@ == normalized(version)
            &&& exists|i: int|
                {
                    &&& is_first_release(releases, normalized(version), i)
                    &&& forall|k: int|
                        0 <= k < releases[i].files@.len() ==> !is_archive_for(
                            #[trigger] releases[i].files@[k],
                            platform,
                        )
                }
        },
        ReleaseError::NoStable => false,
    }
}

/// Pick the archive file matching the host platform for a given version.
pub fn select_archive<'a>(
    releases: &'a [Release],
    version: &str,
    platform: Platform,
) -> (r: Result<(&'a Release, &'a ReleaseFile), ReleaseError>)
    ensures
        match r {
            Ok((release, file)) => exists|i: int, k: int|
                #![trigger releases@[i].files@[k]]
                {
                    &&& is_first_release(releases@, normalized(version@), i)
                    &&& is_first_archive(releases@[i].files@, platform, k)
                    &&& *release == releases@[i]
                    &&& *file == releases@[i].files@[k]
                },
            Err(e) => cannot_select(releases@, version@, platform, e),
        },
        r matches Ok((release, file)) ==> {
            &&& release.version@ == normalized(version@)
            &&& file.kind@ == "archive"@
            &&& file.os@ == os_label(platform.os)
            &&& file.arch@ == arch_label(platform.arch)
        },
{
    let wanted = normalize_version(version);
    let mut i: usize = 0;
    while i < releases.len() && !text::same(releases[i].version.as_str(), wanted.as_str())
        invariant
            i <= releases@.len(),
            wanted@ == normalized(version@),
            forall|j: int| 0 <= j < i ==> (#[trigger] releases@[j]).version@ != wanted@,
        decreases releases@.len() - i,
    {
        i = i + 1;
    }
    if i >= releases.len() {
        return Err(ReleaseError::VersionNotFound { version: wanted });
    }
    let release = &releases[i];
    assert(is_first_release(releases@, normalized(version@), i as int));
    let os = platform.os.label();
    let arch = platform.arch.label();
    let mut k: usize = 0;
    while k < release.files.len()
        invariant
            k <= release.files@.len(),
            os@ == os_label(platform.os),
            arch@ == arch_label(platform.arch),
            i < releases@.len(),
            *release == releases@[i as int],
            is_first_release(releases@, normalized(version@), i as int),
            forall|j: int|
                0 <= j < k ==> !is_archive_for(#[trigger] release.files@[j], platform),
        decreases release.files@.len() - k,
    {
        let file = &release.files[k];
        if text::same(file.kind.as_str(), "archive") && text::same(file.os.as_str(), os)
            && text::same(file.arch.as_str(), arch) {
            assert(is_first_archive(releases@[i as int].files@, platform, k as int));
            return Ok((release, file));
        }
        k = k + 1;
    }
    Err(ReleaseError::NoArchive { os: os.to_owned(), arch: arch.to_owned(), version: wanted })
}

/// Latest stable version from the index, which lists the newest first.
pub fn latest_stable(releases: &[Release]) -> (r: Option<&Release>)
    ensures
        match r {
            Some(release) => exists|i: int|
                is_first_stable(releases@, i) && *release == releases@[i],
            None => forall|j: int| 0 <= j < releases@.len() ==> !(#[trigger] releases@[j]).stable,
        },
{
    let mut i: usize = 0;
    while i < releases.len()
        invariant
            i <= releases@.len(),
            forall|j: int| 0 <= j < i ==> !(#[trigger] releases@[j]).stable,
        decreases releases@.len() - i,
    {
        if releases[i].stable {
            assert(is_first_stable(releases@, i as int));
            return Some(&releases[i]);
        }
        i = i + 1;
    }
    None
}

/// The version to install for a version argument: the latest stable one for
/// `latest`, else the argument in canonical form.
pub fn version_to_install(releases: &[Release], version: &str) -> (r: Result<
    String,
    ReleaseError,
>)
    ensures
        version@ != "latest"@ ==> (r matches Ok(v) && v@ == normalized(version@)),
        version@ == "latest"@ ==> match r {
            Ok(v) => exists|i: int|
                is_first_stable(releases@, i) && v@ == releases@[i].version@,
            Err(ReleaseError::NoStable) => forall|j: int|
                0 <= j < releases@.len() ==> !(#[trigger] releases@[j]).stable,
            Err(_) => false,
        },
{
    if text::same(version, "latest") {
        match latest_stable(releases) {
            Some(release) => Ok(release.version.clone()),
            None => Err(ReleaseError::NoStable),
        }
    } else {
        Ok(normalize_version(version))
    }
}

/// Where an archive is downloaded from.
pub fn archive_url(filename: &str) -> (r: String)
    ensures
        r@ == "https://go.dev/dl/"@ + filename@,
{
    DL_BASE.to_owned().concat(filename)
}

impl ReleaseError {
    /// The message for the user.
    pub fn message(&self) -> (r: String)
        ensures
            r@ == match *self {
                ReleaseError::VersionNotFound { version } => "version "@ + version@
                    + " not found in release index"@,
                ReleaseError::NoArchive { os, arch, version } => "no archive for "@ + os@ + "/"@
                    + arch@ + " in "@ + version@,
                ReleaseError::NoStable => "no stable Go release found"@,
            },
    {
        match self {
            ReleaseError::VersionNotFound { version } => {
                "version ".to_owned().concat(version.as_str()).concat(" not found in release index")
            },
            ReleaseError::NoArchive { os, arch, version } => {
                "no archive for ".to_owned().concat(os.as_str()).concat("/").concat(arch.as_str()).concat(" in ").concat(version.as_str())
            },
            ReleaseError::NoStable => "no stable Go release found".to_owned(),
        }
    }
}

} // verus!
