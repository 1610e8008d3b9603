//! The host platform, for matching Go release artifacts.

use vstd::prelude::*;
use vstd::string::*;

use crate::text;

verus! {

/// An operating system that Go is released for.
#[derive(Debug, Clone, Copy, PartialEq, Eq, Structural)]
pub enum Os {
    Darwin,
    Linux,
    Windows,
}

/// A processor architecture that Go is released for.
#[derive(Debug, Clone, Copy, PartialEq, Eq, Structural)]
pub enum Arch {
    Amd64,
    Arm64,
}

/// Why a host cannot be served.
#[derive(Debug)]
pub enum PlatformError {
    UnsupportedOs(String),
    UnsupportedArch(String),
}

/// An operating system on an architecture.
#[derive(Debug, Clone, Copy)]
pub struct Platform {
    pub os: Os,
    pub arch: Arch,
}

/// The name of an operating system in the Go release index.
pub open spec fn os_label(os: Os) -> Seq<char> {
    match os {
        Os::Darwin => "darwin"@,
        Os::Linux => "linux"@,
        Os::Windows => "windows"@,
    }
}

/// The name of an architecture in the Go release index.
pub open spec fn arch_label(arch: Arch) -> Seq<char> {
    match arch {
        Arch::Amd64 => "amd64"@,
        Arch::Arm64 => "arm64"@,
    }
}

/// The operating system behind a host name such as `macos`, where `gv` runs
/// on it.
pub open spec fn host_os(name: Seq<char>) -> Option<Os> {
    if name == "macos"@ {
        Some(Os::Darwin)
    } else if name == "linux"@ {
        Some(Os::Linux)
    } else {
        None
    }
}

/// The architecture behind a host name such as `x86_64`, where `gv` runs on
/// it.
pub open spec fn host_arch(name: Seq<char>) -> Option<Arch> {
    if name == "x86_64"@ {
        Some(Arch::Amd64)
    } else if name == "aarch64"@ {
        Some(Arch::Arm64)
    } else {
        None
    }
}

impl Os {
    /// The name in the Go release index.
    pub fn label(self) -> (r: &'static str)
        ensures
            r@ == os_label(self),
    {
        match self {
            Os::Darwin => "darwin",
            Os::Linux => "linux",
            Os::Windows => "windows",
        }
    }
}

impl Arch {
    /// The name in the Go release index.
    pub fn label(self) -> (r: &'static str)
        ensures
            r@ == arch_label(self),
    {
        match self {
            Arch::Amd64 => "amd64",
            Arch::Arm64 => "arm64",
        }
    }
}

impl Platform {
    /// The platform of a host, from the names that Rust has for its operating
    /// system and its architecture.
    pub fn detect(os: &str, arch: &str) -> (r: Result<Platform, PlatformError>)
        ensures
            match r {
                Ok(p) => host_os(os@) == Some(p.os) && host_arch(arch@) == Some(p.arch),
                Err(PlatformError::UnsupportedOs(name)) => host_os(os@) is None && name@ == os@,
                Err(PlatformError::UnsupportedArch(name)) => host_os(os@) is Some && host_arch(arch@)
                    is None && name@ == arch@,
            },
    {
        proof {
            reveal_strlit("macos");
            reveal_strlit("linux");
            reveal_strlit("x86_64");
            reveal_strlit("aarch64");
            assert("macos"@[0] != "linux"@[0]);
            assert("x86_64"@[0] != "aarch64"@[0]);
        }
        let host = if text::same(os, "macos") {
            Os::Darwin
        } else if text::same(os, "linux") {
            Os::Linux
        } else {
            return Err(PlatformError::UnsupportedOs(os.to_owned()));
        };
        let cpu = if text::same(arch, "x86_64") {
            Arch::Amd64
        } else if text::same(arch, "aarch64") {
            Arch::Arm64
        } else {
            return Err(PlatformError::UnsupportedArch(arch.to_owned()));
        };
        Ok(Platform { os: host, arch: cpu })
    }

    /// Component used in Go release filenames, e.g. `darwin-arm64`.
    pub fn release_suffix(&self) -> (r: &'static str)
        ensures
            r@ == os_label(self.os) + "-"@ + arch_label(self.arch),
    {
        proof {
            reveal_strlit("darwin-arm64");
            reveal_strlit("darwin-amd64");
            reveal_strlit("linux-arm64");
            reveal_strlit("linux-amd64");
            reveal_strlit("windows-arm64");
            reveal_strlit("windows-amd64");
            reveal_strlit("darwin");
            reveal_strlit("linux");
            reveal_strlit("windows");
            reveal_strlit("amd64");
            reveal_strlit("arm64");
            reveal_strlit("-");
        }
        match (self.os, self.arch) {
            (Os::Darwin, Arch::Arm64) => "darwin-arm64",
            (Os::Darwin, Arch::Amd64) => "darwin-amd64",
            (Os::Linux, Arch::Arm64) => "linux-arm64",
            (Os::Linux, Arch::Amd64) => "linux-amd64",
            (Os::Windows, Arch::Arm64) => "windows-arm64",
            (Os::Windows, Arch::Amd64) => "windows-amd64",
        }
    }
}

impl PlatformError {
    /// The message for the user.
    pub fn message(&self) -> (r: String)
        ensures
            r@ == match *self {
                PlatformError::UnsupportedOs(name) => "unsupported OS: "@ + name@,
                PlatformError::UnsupportedArch(name) => "unsupported arch: "@ + name@,
            },
    {
        match self {
            PlatformError::UnsupportedOs(name) => {
                "unsupported OS: ".to_owned().concat(name.as_str())
            },
            PlatformError::UnsupportedArch(name) => {
                "unsupported arch: ".to_owned().concat(name.as_str())
            },
        }
    }
}

} // verus!
