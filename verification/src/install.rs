//! Download, verify and unpack a Go release into the content-addressed store.
//!
//! The installation is written as steps: the library says what to do next,
//! the caller does it and hands back what came of it.

use vstd::prelude::*;
use vstd::string::*;

use crate::digest;
use crate::digest::{sha256_text, ShaMismatch};
use crate::paths;
use crate::paths::{joined, Paths};
use crate::platform::Platform;
use crate::release;
use crate::release::{
    cannot_select, is_first_archive, is_first_release, normalized, Release, ReleaseError,
    ReleaseFile,
};
use crate::store::{marker, sha_dir, Store};
use crate::text;
use crate::text::{ends, splits_at};

verus! {

/// What an installation came to.
#[derive(Debug, Clone)]
pub struct InstallReport {
    /// The version, as in `go1.25.0`.
    pub version: String,
    pub sha256: String,
    pub install_dir: String,
    pub already_present: bool,
}

/// What has to be known to install one file of a release.
#[derive(Debug, Clone)]
pub struct InstallPlan {
    pub version: String,
    pub sha256: String,
    /// The name of the archive.
    pub filename: String,
    /// The file whose presence says that the archive is in the store.
    pub marker: String,
    /// Where the archive is downloaded from, and to.
    pub url: String,
    pub tmp_path: String,
    /// How the archive is packed.
    pub format: ArchiveFormat,
    /// Where the archive is unpacked.
    pub dest: String,
    /// The link from the version to there.
    pub link: String,
}

/// How an archive is packed.
#[derive(Debug, Clone, Copy, PartialEq, Eq, Structural)]
pub enum ArchiveFormat {
    Zip,
    TarGz,
}

/// How an archive of this name is packed.
pub open spec fn format_of(name: Seq<char>) -> ArchiveFormat {
    if ends(name, ".zip"@) {
        ArchiveFormat::Zip
    } else {
        ArchiveFormat::TarGz
    }
}

/// Dispatch on the archive extension. Go ships .tar.gz for unix and .zip for
/// windows.
pub fn extract_archive(name: &str) -> (r: ArchiveFormat)
    ensures
        r == format_of(name@),
{
    if text::ends_with(name, ".zip") {
        ArchiveFormat::Zip
    } else {
        ArchiveFormat::TarGz
    }
}

/// What to do with an entry of a zip archive. Paths are relative to where the
/// archive is unpacked.
#[derive(Debug)]
pub enum ZipAction {
    /// Its name would lead out of the directory: leave it.
    Skip,
    /// Make this directory.
    MakeDir(String),
    /// Write this file, and give it this mode where the host has modes.
    WriteFile { path: String, mode: Option<u32> },
}

/// Decide what to do with an entry of a zip archive, given its name where the
/// name stays inside the archive's directory, whether it is a directory, and
/// its mode.
pub fn extract_zip(inside: Option<String>, is_dir: bool, mode: Option<u32>) -> (r: ZipAction)
    ensures
        match inside {
            None => r is Skip,
            Some(p) => if is_dir {
                r matches ZipAction::MakeDir(path) && path@ == p@
            } else {
                r matches ZipAction::WriteFile { path, mode: m } && path@ == p@ && m == mode
            },
        },
{
    match inside {
        None => ZipAction::Skip,
        Some(path) => {
            if is_dir {
                ZipAction::MakeDir(path)
            } else {
                ZipAction::WriteFile { path, mode }
            }
        },
    }
}

/// Whether a plan is the one to install a file of a release.
pub open spec fn is_plan(
    plan: InstallPlan,
    paths: Paths,
    release: Release,
    file: ReleaseFile,
) -> bool {
    &&& plan.version@ == release.version@
    &&& plan.sha256@ == file.sha256@
    &&& plan.filename@ == file.filename@
    &&& plan.marker@ == marker(paths, file.sha256@)
    &&& plan.url@ == "https://go.dev/dl/"@ + file.filename@
    &&& plan.tmp_path@ == joined(paths.cache@, file.filename@)
    &&& plan.format == format_of(file.filename@)
    &&& plan.dest@ == sha_dir(paths, file.sha256@)
    &&& plan.link@ == paths.dir_of(release.version@)
}

/// Installs releases for a platform under the directories of `gv`.
pub struct Installer<'a> {
    pub paths: &'a Paths,
    pub platform: Platform,
}

impl<'a> Installer<'a> {
    /// Plan the installation of a version: choose its archive from the index.
    pub fn install(&self, releases: &[Release], version: &str) -> (r: Result<
        InstallPlan,
        ReleaseError,
    >)
        requires
            forall|i: int, k: int|
                #![trigger releases@[i].files@[k]]
                is_first_release(releases@, normalized(version@), i) && is_first_archive(
                    releases@[i].files@,
                    self.platform,
                    k,
                ) ==> splits_at(releases@[i].files@[k].sha256@, 16),
        ensures
            match r {
                Ok(plan) => exists|i: int, k: int|
                    #![trigger releases@[i].files@[k]]
                    {
                        &&& is_first_release(releases@, normalized(version@), i)
                        &&& is_first_archive(releases@[i].files@, self.platform, k)
                        &&& is_plan(plan, *self.paths, releases@[i], releases@[i].files@[k])
                    },
                Err(e) => cannot_select(releases@, version@, self.platform, e),
            },
    {
        match release::select_archive(releases, version, self.platform) {
            Ok((release, file)) => Ok(self.install_file(release, file)),
            Err(e) => Err(e),
        }
    }

    /// Plan the installation of one file of a release.
    pub fn install_file(&self, release: &Release, file: &ReleaseFile) -> (r: InstallPlan)
        requires
            splits_at(file.sha256@, 16),
        ensures
            is_plan(r, *self.paths, *release, *file),
    {
        let store = Store::new(self.paths);
        InstallPlan {
            version: release.version.clone(),
            sha256: file.sha256.clone(),
            filename: file.filename.clone(),
            marker: store.installed_marker(file.sha256.as_str()),
            url: release::archive_url(file.filename.as_str()),
            tmp_path: paths::join(self.paths.cache.as_str(), file.filename.as_str()),
            format: extract_archive(file.filename.as_str()),
            dest: store.dir_for_sha(file.sha256.as_str()),
            link: store.version_link(release.version.as_str()),
        }
    }
}

/// What to do next to install a release.
#[derive(Debug, Clone, Copy, PartialEq, Eq, Structural)]
pub enum InstallStep {
    /// See whether the archive is in the store.
    CheckStore,
    /// Link the version to the archive in the store.
    LinkPresent,
    /// Download the archive.
    Fetch,
    /// Unpack it into an empty directory.
    Unpack,
    /// Move what is in the top-level `go/` directory up.
    Promote,
    /// Record that the archive is in the store.
    Mark,
    /// Link the version to it.
    LinkFresh,
    /// Remove the download.
    Clean,
}

/// What to do first to install a release.
pub fn first_step() -> (r: InstallStep)
    ensures
        r is CheckStore,
{
    InstallStep::CheckStore
}

/// What came of it.
#[derive(Debug)]
pub enum InstallEvent {
    /// The file is there, or not.
    Exists(bool),
    /// The bytes that were downloaded.
    Bytes(Vec<u8>),
    Done,
}

/// What follows from an event.
#[derive(Debug)]
pub enum InstallOutcome {
    Next(InstallStep),
    Installed(InstallReport),
    /// The download is not what it should be: the file to remove, and the
    /// digests.
    Mismatch { remove: String, error: ShaMismatch },
}

/// Whether an event is one that the step can have.
pub open spec fn belongs(step: InstallStep, event: InstallEvent) -> bool {
    match step {
        InstallStep::CheckStore => event is Exists,
        InstallStep::Fetch => event is Bytes,
        _ => event is Done,
    }
}

/// Whether a report is the one on an installation.
pub open spec fn reports(r: InstallReport, plan: InstallPlan, already_present: bool) -> bool {
    &&& r.version@ == plan.version@
    &&& r.sha256@ == plan.sha256@
    &&& r.install_dir@ == plan.dest@
    &&& r.already_present == already_present
}

/// Whether an outcome is the one that follows from an event.
pub open spec fn follows(
    plan: InstallPlan,
    step: InstallStep,
    event: InstallEvent,
    r: InstallOutcome,
) -> bool {
    match (step, event) {
        (InstallStep::CheckStore, InstallEvent::Exists(there)) => if there {
            r == InstallOutcome::Next(InstallStep::LinkPresent)
        } else {
            r == InstallOutcome::Next(InstallStep::Fetch)
        },
        (InstallStep::LinkPresent, InstallEvent::Done) => {
            r matches InstallOutcome::Installed(report) && reports(report, plan, true)
        },
        (InstallStep::Fetch, InstallEvent::Bytes(data)) => if sha256_text(data@) == plan.sha256@ {
            r == InstallOutcome::Next(InstallStep::Unpack)
        } else {
            r matches InstallOutcome::Mismatch { remove, error } && remove@ == plan.tmp_path@
                && error.expected@ == plan.sha256@ && error.got@ == sha256_text(data@)
        },
        (InstallStep::Unpack, InstallEvent::Done) => r == InstallOutcome::Next(
            InstallStep::Promote,
        ),
        (InstallStep::Promote, InstallEvent::Done) => r == InstallOutcome::Next(InstallStep::Mark),
        (InstallStep::Mark, InstallEvent::Done) => r == InstallOutcome::Next(
            InstallStep::LinkFresh,
        ),
        (InstallStep::LinkFresh, InstallEvent::Done) => r == InstallOutcome::Next(
            InstallStep::Clean,
        ),
        (InstallStep::Clean, InstallEvent::Done) => {
            r matches InstallOutcome::Installed(report) && reports(report, plan, false)
        },
        _ => false,
    }
}

/// The report on an installation.
fn report(plan: &InstallPlan, already_present: bool) -> (r: InstallReport)
    ensures
        reports(r, *plan, already_present),
{
    InstallReport {
        version: plan.version.clone(),
        sha256: plan.sha256.clone(),
        install_dir: plan.dest.clone(),
        already_present,
    }
}

/// Decide what follows from an event while a release is installed.
pub fn advance(plan: &InstallPlan, step: InstallStep, event: &InstallEvent) -> (r:
    InstallOutcome)
    requires
        belongs(step, *event),
    ensures
        follows(*plan, step, *event, r),
{
    match step {
        InstallStep::CheckStore => match event {
            InstallEvent::Exists(true) => InstallOutcome::Next(InstallStep::LinkPresent),
            _ => InstallOutcome::Next(InstallStep::Fetch),
        },
        InstallStep::LinkPresent => InstallOutcome::Installed(report(plan, true)),
        InstallStep::Fetch => match event {
            InstallEvent::Bytes(data) => match digest::check_sha(
                data.as_slice(),
                plan.sha256.as_str(),
            ) {
                Ok(()) => InstallOutcome::Next(InstallStep::Unpack),
                Err(error) => InstallOutcome::Mismatch { remove: plan.tmp_path.clone(), error },
            },
            // Only bytes belong to a download.
            _ => InstallOutcome::Next(InstallStep::Fetch),
        },
        InstallStep::Unpack => InstallOutcome::Next(InstallStep::Promote),
        InstallStep::Promote => InstallOutcome::Next(InstallStep::Mark),
        InstallStep::Mark => InstallOutcome::Next(InstallStep::LinkFresh),
        InstallStep::LinkFresh => InstallOutcome::Next(InstallStep::Clean),
        InstallStep::Clean => InstallOutcome::Installed(report(plan, false)),
    }
}

/// Whether the steps are those of one installation with the given events.
pub open spec fn is_installation(
    plan: InstallPlan,
    steps: Seq<InstallStep>,
    events: Seq<InstallEvent>,
) -> bool {
    &&& steps.len() > 0
    &&& steps.len() <= events.len()
    &&& steps[0] is CheckStore
    &&& forall|i: int|
        0 <= i < steps.len() - 1 ==> belongs(#[trigger] steps[i], events[i]) && follows(
            plan,
            steps[i],
            events[i],
            InstallOutcome::Next(steps[i + 1]),
        )
}

/// Whether an event brought the bytes of the archive: bytes with the digest
/// that the release index gives.
pub open spec fn brought_archive(plan: InstallPlan, event: InstallEvent) -> bool {
    event matches InstallEvent::Bytes(data) && sha256_text(data@) == plan.sha256@
}

proof fn lemma_install_steps(
    plan: InstallPlan,
    steps: Seq<InstallStep>,
    events: Seq<InstallEvent>,
    i: int,
)
    requires
        is_installation(plan, steps, events),
        0 <= i < steps.len(),
    ensures
        i == 0 ==> steps[i] is CheckStore,
        i == 1 ==> steps[i] is LinkPresent || steps[i] is Fetch,
        i > 0 && steps[i] is LinkPresent ==> i == 1 && events[0] == InstallEvent::Exists(true),
        i > 0 && !(steps[i] is LinkPresent) ==> events[0] == InstallEvent::Exists(false)
            && steps[1] is Fetch,
        i == 2 ==> steps[i] is Unpack,
        i == 3 ==> steps[i] is Promote,
        i == 4 ==> steps[i] is Mark,
        i == 5 ==> steps[i] is LinkFresh,
        i == 6 ==> steps[i] is Clean,
        i <= 6,
        i >= 2 ==> brought_archive(plan, events[1]),
    decreases i,
{
    if i > 0 {
        lemma_install_steps(plan, steps, events, i - 1);
        assert(belongs(steps[i - 1], events[i - 1]));
    }
}

/// Nothing is unpacked, recorded or linked afresh unless a download brought
/// bytes with the digest of the release index.
pub proof fn law_only_verified_archives_are_installed(
    plan: InstallPlan,
    steps: Seq<InstallStep>,
    events: Seq<InstallEvent>,
    i: int,
)
    requires
        is_installation(plan, steps, events),
        0 <= i < steps.len(),
        !(steps[i] is CheckStore),
        !(steps[i] is LinkPresent),
        !(steps[i] is Fetch),
    ensures
        1 < i && steps[1] is Fetch && brought_archive(plan, events[1]),
{
    lemma_install_steps(plan, steps, events, i);
}

/// An archive that is in the store is not downloaded again, and one that is
/// not is: the first event alone decides.
pub proof fn law_present_archive_is_not_fetched(
    plan: InstallPlan,
    steps: Seq<InstallStep>,
    events: Seq<InstallEvent>,
    i: int,
)
    requires
        is_installation(plan, steps, events),
        0 < i < steps.len(),
    ensures
        events[0] == InstallEvent::Exists(true) ==> steps[i] is LinkPresent,
        events[0] == InstallEvent::Exists(false) ==> !(steps[i] is LinkPresent),
{
    lemma_install_steps(plan, steps, events, i);
}

/// Every installation that ends reports the version, the digest and the
/// directory of its plan, whether the archive was there or not.
pub proof fn law_report_matches_the_plan(
    plan: InstallPlan,
    steps: Seq<InstallStep>,
    events: Seq<InstallEvent>,
    report: InstallReport,
)
    requires
        is_installation(plan, steps, events),
        belongs(steps.last(), events[steps.len() - 1]),
        follows(plan, steps.last(), events[steps.len() - 1], InstallOutcome::Installed(report)),
    ensures
        reports(report, plan, events[0] == InstallEvent::Exists(true)),
{
    lemma_install_steps(plan, steps, events, steps.len() - 1);
}

/// One digest is one copy: plans to install files with the same digest under
/// the same directories look for the same marker and unpack into the same
/// place, whatever the releases are.
pub proof fn law_same_digest_is_one_copy(
    paths: Paths,
    a: InstallPlan,
    a_release: Release,
    a_file: ReleaseFile,
    b: InstallPlan,
    b_release: Release,
    b_file: ReleaseFile,
)
    requires
        is_plan(a, paths, a_release, a_file),
        is_plan(b, paths, b_release, b_file),
        a_file.sha256@ == b_file.sha256@,
    ensures
        a.marker@ == b.marker@,
        a.dest@ == b.dest@,
{
}

} // verus!
