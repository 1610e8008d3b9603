//! Laws of installing a release: what is planned, what follows from what, and
//! what is reported.

use vstd::prelude::*;

use crate::digest::{hex_text, sha256};
use crate::install::{
    belongs, follows, format_of, is_plan, ArchiveFormat, InstallEvent, InstallOutcome, InstallPlan,
    InstallStep,
};
use crate::laws::text::law_ends;
use crate::paths::{joined, Paths};
use crate::release::{Release, ReleaseFile};
use crate::text::byte_prefix;

verus! {

/// An archive is a zip archive exactly where its name ends in `.zip`.
pub proof fn law_format(stem: Seq<char>, name: Seq<char>)
    ensures
        format_of(stem + ".zip"@) == ArchiveFormat::Zip,
        name.len() < 4 || name.skip(name.len() - 4) != ".zip"@ ==> format_of(name)
            == ArchiveFormat::TarGz,
{
    reveal_strlit(".zip");
    law_ends(stem, ".zip"@);
}

/// Everything that an installation needs comes from the release and its file:
/// the version, the digest, where the archive is downloaded from and to, where
/// it is unpacked and marked, and where the version is linked.
pub proof fn law_plan(plan: InstallPlan, paths: Paths, release: Release, file: ReleaseFile)
    requires
        is_plan(plan, paths, release, file),
    ensures
        plan.version@ == release.version@,
        plan.sha256@ == file.sha256@,
        plan.filename@ == file.filename@,
        plan.url@ == "https://go.dev/dl/"@ + file.filename@,
        plan.tmp_path@ == joined(paths.cache@, file.filename@),
        plan.format == format_of(file.filename@),
        plan.dest@ == joined(joined(paths.data@, "store"@), byte_prefix(file.sha256@, 16)),
        plan.marker@ == joined(plan.dest@, ".gv-installed"@),
        plan.link@ == joined(joined(paths.data@, "versions"@), release.version@),
{
}

/// A download goes on to be unpacked exactly where its digest is the expected
/// one. Else the installation ends there: the download is to be removed, and
/// both digests are told.
pub proof fn law_download(plan: InstallPlan, data: Vec<u8>, r: InstallOutcome)
    requires
        follows(plan, InstallStep::Fetch, InstallEvent::Bytes(data), r),
    ensures
        hex_text(sha256(data@)) == plan.sha256@ ==> r == InstallOutcome::Next(InstallStep::Unpack),
        hex_text(sha256(data@)) != plan.sha256@ ==> (r matches InstallOutcome::Mismatch {
            remove,
            error,
        } && remove@ == plan.tmp_path@ && error.expected@ == plan.sha256@ && error.got@ == hex_text(
            sha256(data@),
        )),
{
}

/// The order of an installation: an archive that is in the store is linked, and
/// that is all; any other is downloaded, unpacked, moved up, marked and linked,
/// and the download is removed. A report has the version, the digest and the
/// directory of the plan.
pub proof fn law_installation_order(
    plan: InstallPlan,
    step: InstallStep,
    event: InstallEvent,
    r: InstallOutcome,
)
    requires
        follows(plan, step, event, r),
    ensures
        step is CheckStore && event == InstallEvent::Exists(true) ==> r == InstallOutcome::Next(
            InstallStep::LinkPresent,
        ),
        step is CheckStore && event == InstallEvent::Exists(false) ==> r == InstallOutcome::Next(
            InstallStep::Fetch,
        ),
        step is Unpack ==> r == InstallOutcome::Next(InstallStep::Promote),
        step is Promote ==> r == InstallOutcome::Next(InstallStep::Mark),
        step is Mark ==> r == InstallOutcome::Next(InstallStep::LinkFresh),
        step is LinkFresh ==> r == InstallOutcome::Next(InstallStep::Clean),
        r is Installed <==> step is LinkPresent || step is Clean,
        r matches InstallOutcome::Installed(report) ==> {
            &&& report.version@ == plan.version@
            &&& report.sha256@ == plan.sha256@
            &&& report.install_dir@ == plan.dest@
            &&& report.already_present == (step is LinkPresent)
        },
        r is Mismatch ==> step is Fetch,
{
}

/// Which events a step can have: whether the archive is there, the bytes of a
/// download, or that the work is done.
pub proof fn law_events(step: InstallStep, event: InstallEvent)
    ensures
        step is CheckStore ==> (belongs(step, event) <==> event is Exists),
        step is Fetch ==> (belongs(step, event) <==> event is Bytes),
        !(step is CheckStore) && !(step is Fetch) ==> (belongs(step, event) <==> event is Done),
{
}

} // verus!
