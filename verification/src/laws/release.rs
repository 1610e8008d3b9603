//! Laws of what `gv` knows: the tools of its registry, the hosts that it runs
//! on, and the choice of a release and an archive.

use vstd::prelude::*;

use crate::platform::{arch_label, host_arch, host_os, os_label, Arch, Os, Platform};
use crate::project::{is_root, Marks};
use crate::registry::{entries, known_package, law_every_entry_is_found, package_from};
use crate::release::{
    cannot_select, is_archive_for, is_first_archive, is_first_release, is_first_stable, normalized,
    Release, ReleaseError, ReleaseFile,
};

verus! {

/// The tools that the registry knows, and no others.
pub proof fn law_registry(name: Seq<char>)
    ensures
        known_package("gopls"@) == Some("golang.org/x/tools/gopls"@),
        known_package("goimports"@) == Some("golang.org/x/tools/cmd/goimports"@),
        known_package("staticcheck"@) == Some("honnef.co/go/tools/cmd/staticcheck"@),
        known_package("golangci-lint"@) == Some("github.com/golangci/golangci-lint/cmd/golangci-lint"@),
        known_package("dlv"@) == Some("github.com/go-delve/delve/cmd/dlv"@),
        known_package("mockgen"@) == Some("go.uber.org/mock/mockgen"@),
        known_package("sqlc"@) == Some("github.com/sqlc-dev/sqlc/cmd/sqlc"@),
        known_package("buf"@) == Some("github.com/bufbuild/buf/cmd/buf"@),
        known_package("air"@) == Some("github.com/air-verse/air"@),
        known_package("protoc-gen-go"@) == Some("google.golang.org/protobuf/cmd/protoc-gen-go"@),
        known_package("protoc-gen-go-grpc"@) == Some("google.golang.org/grpc/cmd/protoc-gen-go-grpc"@),
        known_package("wire"@) == Some("github.com/google/wire/cmd/wire"@),
        known_package("swag"@) == Some("github.com/swaggo/swag/cmd/swag"@),
        known_package("migrate"@) == Some("github.com/golang-migrate/migrate/v4/cmd/migrate"@),
        known_package("goreleaser"@) == Some("github.com/goreleaser/goreleaser/v2"@),
        name != "gopls"@ && name != "goimports"@ && name != "staticcheck"@ && name != "golangci-lint"@ && name != "dlv"@ && name != "mockgen"@ && name != "sqlc"@ && name != "buf"@ && name != "air"@ && name != "protoc-gen-go"@ && name != "protoc-gen-go-grpc"@ && name != "wire"@ && name != "swag"@ && name != "migrate"@ && name != "goreleaser"@ ==> known_package(name) is None,
{
    law_every_entry_is_found(0);
    law_every_entry_is_found(1);
    law_every_entry_is_found(2);
    law_every_entry_is_found(3);
    law_every_entry_is_found(4);
    law_every_entry_is_found(5);
    law_every_entry_is_found(6);
    law_every_entry_is_found(7);
    law_every_entry_is_found(8);
    law_every_entry_is_found(9);
    law_every_entry_is_found(10);
    law_every_entry_is_found(11);
    law_every_entry_is_found(12);
    law_every_entry_is_found(13);
    law_every_entry_is_found(14);
    if name != "gopls"@ && name != "goimports"@ && name != "staticcheck"@ && name != "golangci-lint"@ && name != "dlv"@ && name != "mockgen"@ && name != "sqlc"@ && name != "buf"@ && name != "air"@ && name != "protoc-gen-go"@ && name != "protoc-gen-go-grpc"@ && name != "wire"@ && name != "swag"@ && name != "migrate"@ && name != "goreleaser"@ {
        lemma_unknown(entries(), name, 0);
    }
}

proof fn lemma_unknown(all: Seq<(Seq<char>, Seq<char>)>, name: Seq<char>, from: int)
    requires
        0 <= from,
        forall|j: int| from <= j < all.len() ==> (#[trigger] all[j]).0 != name,
    ensures
        package_from(all, name, from) is None,
    decreases all.len() - from,
{
    if from < all.len() {
        assert(all[from].0 != name);
        lemma_unknown(all, name, from + 1);
    }
}

/// The names of hosts, as Rust has them and as the release index has them.
pub proof fn law_hosts(name: Seq<char>)
    ensures
        host_os(name) == Some(Os::Darwin) <==> name == "macos"@,
        host_os(name) == Some(Os::Linux) <==> name == "linux"@,
        host_os(name) is None <==> name != "macos"@ && name != "linux"@,
        host_arch(name) == Some(Arch::Amd64) <==> name == "x86_64"@,
        host_arch(name) == Some(Arch::Arm64) <==> name == "aarch64"@,
        host_arch(name) is None <==> name != "x86_64"@ && name != "aarch64"@,
        os_label(Os::Darwin) == "darwin"@,
        os_label(Os::Linux) == "linux"@,
        os_label(Os::Windows) == "windows"@,
        arch_label(Arch::Amd64) == "amd64"@,
        arch_label(Arch::Arm64) == "arm64"@,
{
    reveal_strlit("macos");
    reveal_strlit("linux");
    reveal_strlit("x86_64");
    reveal_strlit("aarch64");
    assert("macos"@[0] != "linux"@[0]);
    assert("x86_64"@[0] != "aarch64"@[0]);
}

/// The archive for a platform is a file of the kind `archive` with the names of
/// its operating system and its architecture.
pub proof fn law_archive(file: ReleaseFile, platform: Platform)
    ensures
        is_archive_for(file, platform) <==> file.kind@ == "archive"@ && file.os@ == os_label(
            platform.os,
        ) && file.arch@ == arch_label(platform.arch),
{
}

/// The release, the archive and the stable release that are chosen are the
/// first of their kind.
pub proof fn law_first(
    releases: Seq<Release>,
    files: Seq<ReleaseFile>,
    version: Seq<char>,
    platform: Platform,
    i: int,
    j: int,
)
    ensures
        is_first_release(releases, version, i) ==> 0 <= i < releases.len() && releases[i].version@
            == version && (0 <= j < i ==> releases[j].version@ != version),
        is_first_archive(files, platform, i) ==> 0 <= i < files.len() && is_archive_for(
            files[i],
            platform,
        ) && (0 <= j < i ==> !is_archive_for(files[j], platform)),
        is_first_stable(releases, i) ==> 0 <= i < releases.len() && releases[i].stable && (0 <= j
            < i ==> !releases[j].stable),
{
}

/// No archive is chosen only where no release has the version, or the first one
/// that has it has no archive for the platform; the error names the version in
/// its canonical form, and the platform.
pub proof fn law_no_choice(
    releases: Seq<Release>,
    version: Seq<char>,
    platform: Platform,
    e: ReleaseError,
    i: int,
    k: int,
)
    requires
        cannot_select(releases, version, platform, e),
        0 <= i < releases.len(),
        releases[i].version@ == normalized(version),
        forall|j: int| 0 <= j < i ==> (#[trigger] releases[j]).version@ != normalized(version),
    ensures
        e matches ReleaseError::NoArchive { os, arch, version: v } && os@ == os_label(platform.os)
            && arch@ == arch_label(platform.arch) && v@ == normalized(version),
        0 <= k < releases[i].files@.len() ==> !is_archive_for(releases[i].files@[k], platform),
{
    if e is NoArchive {
        let n = choose|n: int|
            {
                &&& is_first_release(releases, normalized(version), n)
                &&& forall|f: int|
                    0 <= f < releases[n].files@.len() ==> !is_archive_for(
                        #[trigger] releases[n].files@[f],
                        platform,
                    )
            };
        if n < i {
            assert(releases[n].version@ != normalized(version));
        } else if i < n {
            assert(releases[i].version@ != normalized(version));
        }
        assert(n == i);
    }
}

/// Without a release of the version, the error names it in its canonical form.
pub proof fn law_no_release(
    releases: Seq<Release>,
    version: Seq<char>,
    platform: Platform,
    e: ReleaseError,
)
    requires
        cannot_select(releases, version, platform, e),
        forall|j: int|
            0 <= j < releases.len() ==> (#[trigger] releases[j]).version@ != normalized(version),
    ensures
        e matches ReleaseError::VersionNotFound { version: v } && v@ == normalized(version),
{
}

/// A directory is a project's root where it has a `gv.toml` or a `go.mod`.
pub proof fn law_root(m: Marks)
    ensures
        is_root(m) <==> m.gv_toml || m.go_mod,
{
}

} // verus!
