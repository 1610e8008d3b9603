use gv::cli::{
    cmd_run, cmd_use_global, cmd_which, doctor_head, doctor_installed, doctor_resolved, exit_code,
    install_lines, installing_line, list_local, list_remote, toolchain_env, RunError, RunPlan, WhichError,
};
use gv::install::{
    advance, extract_archive, extract_zip, first_step, ArchiveFormat, InstallEvent, InstallOutcome, InstallPlan,
    InstallReport, InstallStep, Installer, ZipAction,
};
use gv::lock::{pinned_tool, LockedTool};
use gv::manifest::ToolchainSource;
use gv::paths::{discover, join, Paths};
use gv::platform::{Arch, Os, Platform, PlatformError};
use gv::proxy::{
    encode_path, latest_url, list_url, parent_of, parse_sumdb_lookup, sum_url, walk_up, Walk,
};
use gv::registry::{all, lookup};
use gv::release::{
    archive_url, latest_stable, select_archive, version_to_install, Release, ReleaseError, ReleaseFile,
    INDEX_URL,
};
use gv::resolve::Resolved;
use gv::shim::{choose_program, plan_shim, suffixed, Choice, ShimError};
use gv::store::Store;
use gv::text;

const SHA: &str = "b94d27b9934d3e08a52e52d7da7dabfac484efe37a5380ee9088f7ace2efcde9";

fn dirs() -> Paths {
    Paths { data: "/d".to_string(), config: "/c".to_string(), cache: "/k".to_string() }
}

fn file(os: &str, arch: &str, kind: &str, filename: &str) -> ReleaseFile {
    ReleaseFile {
        filename: filename.to_string(),
        os: os.to_string(),
        arch: arch.to_string(),
        version: String::new(),
        sha256: SHA.to_string(),
        size: 1,
        kind: kind.to_string(),
    }
}

fn release(version: &str, stable: bool, files: Vec<ReleaseFile>) -> Release {
    Release { version: version.to_string(), stable, files }
}

fn index() -> Vec<Release> {
    vec![
        release("go1.26rc1", false, vec![]),
        release(
            "go1.25.0",
            true,
            vec![
                file("linux", "amd64", "installer", "wrong-kind"),
                file("linux", "arm64", "archive", "go1.25.0.linux-arm64.tar.gz"),
                file("linux", "amd64", "archive", "go1.25.0.linux-amd64.tar.gz"),
                file("linux", "amd64", "archive", "second"),
                file("windows", "amd64", "archive", "go1.25.0.windows-amd64.zip"),
            ],
        ),
        release("go1.24.0", true, vec![]),
    ]
}

const LINUX: Platform = Platform { os: Os::Linux, arch: Arch::Amd64 };

#[test]
fn case_encoding() {
    assert_eq!(encode_path("github.com/Foo/Bar"), "github.com/!foo/!bar");
    assert_eq!(encode_path("golang.org/x/tools/gopls"), "golang.org/x/tools/gopls");
    assert_eq!(encode_path("github.com/Microsoft/go-winio"), "github.com/!microsoft/go-winio");
}

#[test]
fn encoding_edges() {
    assert_eq!(encode_path(""), "");
    assert_eq!(encode_path("AZ@[Ä"), "!a!z@[Ä");
    assert_eq!(encode_path("!a"), encode_path("A"));
    assert!(!encode_path("QWErty").chars().any(|c| c.is_ascii_uppercase()));
}

#[test]
fn addresses() {
    assert_eq!(latest_url("a/B"), "https://proxy.golang.org/a/!b/@latest");
    assert_eq!(list_url("a/B"), "https://proxy.golang.org/a/!b/@v/list");
    assert_eq!(sum_url("a/B", "v1.0.0"), "https://sum.golang.org/lookup/a/!b@v1.0.0");
    assert_eq!(archive_url("x.zip"), "https://go.dev/dl/x.zip");
    assert_eq!(INDEX_URL, "https://go.dev/dl/?mode=json&include=all");
}

#[test]
fn walking_up() {
    assert_eq!(parent_of("a/b/c").as_deref(), Some("a/b"));
    assert_eq!(parent_of("a"), None);
    assert_eq!(parent_of("/a"), None);
    assert_eq!(parent_of("a/").as_deref(), Some("a"));
    assert_eq!(parent_of(""), None);
    assert!(matches!(walk_up("a/b", 204), Walk::Found));
    assert!(matches!(walk_up("a/b", 404), Walk::Next(p) if p == "a"));
    assert!(matches!(walk_up("a", 410), Walk::NoModule));
    assert!(matches!(walk_up("a/b", 403), Walk::Unexpected));
    assert!(matches!(walk_up("a/b", 300), Walk::Unexpected));
    assert!(matches!(walk_up("a/b", 199), Walk::Unexpected));
}

#[test]
fn sumdb_answers() {
    let body = "7\nm v1.0.0/go.mod h1:mod=\nm v1.0.0 h1:zip= \r\nm v1.0.0 h1:later=\n";
    assert_eq!(parse_sumdb_lookup(body, "m", "v1.0.0").unwrap(), "h1:zip=");
    let e = parse_sumdb_lookup(body, "m", "v1.0").unwrap_err();
    assert_eq!((e.module.as_str(), e.version.as_str()), ("m", "v1.0"));
    assert!(parse_sumdb_lookup(" m v1.0.0 h1:x", "m", "v1.0.0").is_err());
}

#[test]
fn registry_entries_are_found_under_their_names() {
    let entries = all();
    assert_eq!(entries.len(), 15);
    for e in &entries {
        assert_eq!(lookup(e.name).unwrap().package, e.package);
    }
    assert_eq!(lookup("dlv").unwrap().package, "github.com/go-delve/delve/cmd/dlv");
    assert!(lookup("nosuch").is_none());
    assert!(lookup("").is_none());
}

#[test]
fn platforms() {
    let p = Platform::detect("macos", "aarch64").unwrap();
    assert_eq!((p.os, p.arch), (Os::Darwin, Arch::Arm64));
    assert_eq!(p.release_suffix(), "darwin-arm64");
    assert_eq!(Platform::detect("linux", "x86_64").unwrap().release_suffix(), "linux-amd64");
    assert_eq!(Platform { os: Os::Windows, arch: Arch::Amd64 }.release_suffix(), "windows-amd64");
    let e = Platform::detect("windows", "x86_64").unwrap_err();
    assert!(matches!(&e, PlatformError::UnsupportedOs(_)));
    assert_eq!(e.message(), "unsupported OS: windows");
    let e = Platform::detect("linux", "riscv64").unwrap_err();
    assert!(matches!(&e, PlatformError::UnsupportedArch(_)));
    assert_eq!(e.message(), "unsupported arch: riscv64");
}

#[test]
fn archives_are_selected() {
    let releases = index();
    let (r, f) = select_archive(&releases, "1.25.0", LINUX).unwrap();
    assert_eq!(r.version, "go1.25.0");
    assert_eq!(f.filename, "go1.25.0.linux-amd64.tar.gz");
    let windows = Platform { os: Os::Windows, arch: Arch::Amd64 };
    let (_, f) = select_archive(&releases, "go1.25.0", windows).unwrap();
    assert_eq!(f.filename, "go1.25.0.windows-amd64.zip");
}

#[test]
fn archives_that_are_not_there() {
    let releases = index();
    let e = select_archive(&releases, " 1.25 ", LINUX).unwrap_err();
    assert!(matches!(&e, ReleaseError::VersionNotFound { .. }));
    assert_eq!(e.message(), "version go1.25 not found in release index");
    let e = select_archive(&releases, "1.24.0", LINUX).unwrap_err();
    assert!(matches!(&e, ReleaseError::NoArchive { .. }));
    assert_eq!(e.message(), "no archive for linux/amd64 in go1.24.0");
}

#[test]
fn latest_is_the_first_stable_release() {
    let releases = index();
    assert_eq!(latest_stable(&releases).unwrap().version, "go1.25.0");
    assert_eq!(version_to_install(&releases, "latest").unwrap(), "go1.25.0");
    assert_eq!(version_to_install(&releases, "1.24.0").unwrap(), "go1.24.0");
    let none = vec![release("go1.26rc1", false, vec![])];
    assert!(latest_stable(&none).is_none());
    let e = version_to_install(&none, "latest").unwrap_err();
    assert!(matches!(&e, ReleaseError::NoStable));
    assert_eq!(e.message(), "no stable Go release found");
}

#[test]
fn joined_paths() {
    assert_eq!(join("/a", "b"), "/a/b");
    assert_eq!(join("/a/", "b"), "/a/b");
    assert_eq!(join("", "b"), "b");
    assert_eq!(join("/a", "/b"), "/b");
    assert_eq!(join("/a", ""), "/a/");
}

#[test]
fn layout() {
    let p = dirs();
    assert_eq!(p.store(), "/d/store");
    let home = discover("/home/u");
    assert_eq!(home.data, "/home/u/.local/share/gv");
    assert_eq!(home.config, "/home/u/.config/gv");
    assert_eq!(home.cache, "/home/u/.cache/gv");
    assert_eq!(p.versions(), "/d/versions");
    assert_eq!(p.version_dir("go1.25.0"), "/d/versions/go1.25.0");
    assert_eq!(p.program("go1.25.0", "gofmt"), "/d/versions/go1.25.0/bin/gofmt");
    assert_eq!(p.global_version_file(), "/c/global");
}

#[test]
fn store_is_keyed_by_digest() {
    let p = dirs();
    let store = Store::new(&p);
    assert_eq!(store.dir_for_sha(SHA), "/d/store/b94d27b9934d3e08");
    let twin = format!("{}{}", &SHA[..16], "0".repeat(48));
    assert_eq!(store.dir_for_sha(&twin), store.dir_for_sha(SHA));
    let other = format!("0{}", &SHA[1..]);
    assert_ne!(store.dir_for_sha(&other), store.dir_for_sha(SHA));
    assert_eq!(store.installed_marker(SHA), "/d/store/b94d27b9934d3e08/.gv-installed");
    let link = store.link_version("go1.25.0", SHA, true);
    assert_eq!(link.target, "/d/store/b94d27b9934d3e08");
    assert_eq!(link.link, "/d/versions/go1.25.0");
    assert!(link.replace);
    let mark = store.mark_installed(SHA);
    assert_eq!(mark.dir, "/d/store/b94d27b9934d3e08");
    assert_eq!(mark.file, "/d/store/b94d27b9934d3e08/.gv-installed");
    assert_eq!(mark.content, SHA);
}

fn plan() -> InstallPlan {
    let p = dirs();
    let installer = Installer { paths: &p, platform: LINUX };
    installer.install(&index(), "1.25.0").unwrap()
}

#[test]
fn installation_is_planned() {
    let plan = plan();
    assert_eq!(plan.version, "go1.25.0");
    assert_eq!(plan.sha256, SHA);
    assert_eq!(plan.filename, "go1.25.0.linux-amd64.tar.gz");
    assert_eq!(plan.marker, "/d/store/b94d27b9934d3e08/.gv-installed");
    assert_eq!(plan.url, "https://go.dev/dl/go1.25.0.linux-amd64.tar.gz");
    assert_eq!(plan.tmp_path, "/k/go1.25.0.linux-amd64.tar.gz");
    assert_eq!(plan.format, ArchiveFormat::TarGz);
    assert_eq!(plan.dest, "/d/store/b94d27b9934d3e08");
    assert_eq!(plan.link, "/d/versions/go1.25.0");
    let p = dirs();
    let installer = Installer { paths: &p, platform: LINUX };
    assert!(matches!(installer.install(&index(), "9.9"), Err(ReleaseError::VersionNotFound { .. })));
}

#[test]
fn fresh_installation_runs_through() {
    let plan = plan();
    let mut step = first_step();
    assert_eq!(step, InstallStep::CheckStore);
    for (event, want) in [
        (InstallEvent::Exists(false), InstallStep::Fetch),
        (InstallEvent::Bytes(b"hello world".to_vec()), InstallStep::Unpack),
        (InstallEvent::Done, InstallStep::Promote),
        (InstallEvent::Done, InstallStep::Mark),
        (InstallEvent::Done, InstallStep::LinkFresh),
        (InstallEvent::Done, InstallStep::Clean),
    ] {
        match advance(&plan, step, &event) {
            InstallOutcome::Next(next) => assert_eq!(next, want),
            other => panic!("{other:?}"),
        }
        step = want;
    }
    let InstallOutcome::Installed(report) = advance(&plan, step, &InstallEvent::Done) else { panic!() };
    assert_eq!(report.version, "go1.25.0");
    assert_eq!(report.sha256, SHA);
    assert_eq!(report.install_dir, "/d/store/b94d27b9934d3e08");
    assert!(!report.already_present);
}

#[test]
fn present_archive_is_only_linked() {
    let plan = plan();
    let first = advance(&plan, InstallStep::CheckStore, &InstallEvent::Exists(true));
    assert!(matches!(first, InstallOutcome::Next(InstallStep::LinkPresent)));
    let InstallOutcome::Installed(report) = advance(&plan, InstallStep::LinkPresent, &InstallEvent::Done) else {
        panic!()
    };
    assert!(report.already_present);
}

#[test]
fn wrong_bytes_are_not_installed() {
    let plan = plan();
    let InstallOutcome::Mismatch { remove, error: e } =
        advance(&plan, InstallStep::Fetch, &InstallEvent::Bytes(vec![1, 2]))
    else {
        panic!()
    };
    assert_eq!(remove, "/k/go1.25.0.linux-amd64.tar.gz");
    assert_eq!(e.expected, SHA);
    assert_ne!(e.got, SHA);
}

#[test]
fn archive_formats() {
    assert_eq!(extract_archive("go1.25.0.windows-amd64.zip"), ArchiveFormat::Zip);
    assert_eq!(extract_archive("go1.25.0.linux-amd64.tar.gz"), ArchiveFormat::TarGz);
    assert_eq!(extract_archive(".zip"), ArchiveFormat::Zip);
    assert_eq!(extract_archive("zip"), ArchiveFormat::TarGz);
    assert_eq!(extract_archive(""), ArchiveFormat::TarGz);
}

#[test]
fn zip_entries() {
    assert!(matches!(extract_zip(None, false, Some(0o755)), ZipAction::Skip));
    assert!(matches!(extract_zip(Some("go".to_string()), true, None),
        ZipAction::MakeDir(p) if p == "go"));
    assert!(matches!(extract_zip(Some("go/a".to_string()), false, Some(0o644)),
        ZipAction::WriteFile { path, mode: Some(0o644) } if path == "go/a"));
}

#[test]
fn install_messages() {
    assert_eq!(installing_line("go1.25.0", LINUX), "→ installing go1.25.0 for linux-amd64");
    let mut report = InstallReport {
        version: "go1.25.0".to_string(),
        sha256: SHA.to_string(),
        install_dir: "/d/store/x".to_string(),
        already_present: false,
    };
    assert_eq!(
        install_lines(&report, "/l"),
        vec!["✓ installed go1.25.0 (b94d27b9934d)", "  → /d/store/x", "  → linked: /l"]
    );
    report.already_present = true;
    assert_eq!(install_lines(&report, "/l")[0], "✓ go1.25.0 already in store (b94d27b9934d)");
}

#[test]
fn lists() {
    assert_eq!(list_remote(&index()), vec!["  -     go1.26rc1", "stable  go1.25.0", "stable  go1.24.0"]);
    assert_eq!(list_local(vec!["go1".to_string()]), vec!["go1"]);
    assert_eq!(list_local(vec![]), vec!["(no toolchains installed; try `gv install latest`)"]);
}

#[test]
fn runs_are_pinned_to_the_toolchain() {
    let env = vec![
        ("GOROOT".to_string(), "/d/versions/go1.25.0".to_string()),
        ("GOTOOLCHAIN".to_string(), "local".to_string()),
    ];
    let r = run(&["go", "test", "./..."], None, false, true);
    assert_eq!(r.exe, "/d/versions/go1.25.0/bin/go");
    assert_eq!(r.args, vec!["test", "./..."]);
    assert_eq!(r.path_prefix, "/d/versions/go1.25.0/bin:");
    assert_eq!(r.env, env);
    let r = run(&["make"], None, false, false);
    assert_eq!(r.exe, "make");
    assert_eq!(r.args, Vec::<String>::new());
    assert_eq!(toolchain_env(&dirs(), "go1.25.0"), env);
}

fn go125() -> Option<Resolved> {
    Some(Resolved { version: "go1.25.0".to_string(), source: ToolchainSource::Global, origin: None })
}

fn strings(v: &[&str]) -> Vec<String> {
    v.iter().map(|s| s.to_string()).collect()
}

fn run(argv: &[&str], pinned: Option<&LockedTool>, there: bool, in_toolchain: bool) -> RunPlan {
    cmd_run(&dirs(), &strings(argv), &go125(), "/w", pinned, there, in_toolchain).unwrap()
}

fn locked(name: &str, version: &str) -> LockedTool {
    LockedTool {
        name: name.to_string(),
        package: String::new(),
        version: version.to_string(),
        bin: name.to_string(),
        module_hash: String::new(),
        built_with: String::new(),
        binary_sha256: String::new(),
    }
}

#[test]
fn pinned_tools_run_first() {
    let records = vec![locked("dlv", "v1.0.0"), locked("gopls", "v0.18.1"), locked("gopls", "v0.1.0")];
    let tools = strings(&["buf", "gopls"]);
    let gopls = pinned_tool(&tools, &records, "gopls").unwrap();
    assert_eq!(gopls.version, "v0.18.1");
    assert!(pinned_tool(&tools, &records, "dlv").is_none());
    assert!(pinned_tool(&tools, &records, "buf").is_none());
    let r = run(&["gopls", "version"], Some(gopls), true, true);
    assert_eq!(r.exe, "/d/tools/gopls/v0.18.1/gopls");
    assert_eq!(r.args, vec!["version"]);
    assert_eq!(run(&["gopls"], Some(gopls), false, true).exe, "/d/versions/go1.25.0/bin/gopls");
    assert_eq!(run(&["gopls"], Some(gopls), false, false).exe, "gopls");
}

#[test]
fn runs_that_cannot_be() {
    let e = cmd_run(&dirs(), &[], &None, "/w", None, false, false).unwrap_err();
    assert!(matches!(e, RunError::Usage));
    assert_eq!(e.message(), "usage: gv run <cmd> [args...]");
    let e = cmd_run(&dirs(), &strings(&["go"]), &None, "/w", None, false, false).unwrap_err();
    assert!(matches!(&e, RunError::NoVersion { cwd } if cwd == "/w"));
    assert_eq!(e.message(), "no Go version resolved in /w");
}

#[test]
fn which_and_use_global() {
    let p = dirs();
    assert_eq!(cmd_which(&p, "go", &go125(), "/w", true).unwrap(), "/d/versions/go1.25.0/bin/go");
    let e = cmd_which(&p, "gopls", &go125(), "/w", false).unwrap_err();
    assert!(matches!(e, WhichError::NotFound { .. }));
    assert_eq!(
        e.message(),
        "gopls not found in /d/versions/go1.25.0 (is the toolchain installed?)"
    );
    let e = cmd_which(&p, "go", &None, "/w", false).unwrap_err();
    assert!(matches!(e, WhichError::NoVersion { .. }));
    assert_eq!(e.message(), "no Go version resolved in /w");
    let plan = cmd_use_global(&p, " 1.25.0");
    assert_eq!((plan.file.as_str(), plan.content.as_str()), ("/c/global", "go1.25.0"));
    assert_eq!(plan.line, "✓ global → go1.25.0");
}

#[test]
fn exit_codes() {
    assert_eq!(exit_code(Some(0)), 0);
    assert_eq!(exit_code(Some(255)), 255);
    assert_eq!(exit_code(Some(256)), 0);
    assert_eq!(exit_code(Some(-1)), 255);
    assert_eq!(exit_code(Some(i32::MIN)), 0);
    assert_eq!(exit_code(None), 1);
}

#[test]
fn doctor() {
    assert_eq!(
        doctor_head(LINUX, &dirs()),
        vec![
            "gv doctor",
            "  platform   : linux-amd64",
            "  data dir   : /d",
            "  config dir : /c",
            "  cache dir  : /k",
        ]
    );
    let many: Vec<String> = (0..12).map(|i| format!("go1.{i}")).collect();
    let lines = doctor_installed(&many);
    assert_eq!(lines.len(), 9);
    assert_eq!(lines[0], "  installed  : 12 version(s)");
    assert_eq!(lines[1], "    - go1.0");
    assert_eq!(lines[8], "    - go1.7");
    assert_eq!(doctor_installed(&vec![]), vec!["  installed  : 0 version(s)"]);
    let r = Resolved { version: "go1".to_string(), source: ToolchainSource::GoMod, origin: None };
    assert_eq!(doctor_resolved(&Some(r)), "  resolved   : go1 (from GoMod)");
    assert_eq!(doctor_resolved(&None), "  resolved   : (none)");
}

#[test]
fn shim_choices() {
    assert_eq!(suffixed("go", ".exe"), "go.exe");
    assert_eq!(suffixed("go.exe", ".exe"), "go.exe");
    assert_eq!(suffixed("go", ""), "go");
    assert_eq!(choose_program(true, false), Choice::Plain);
    assert_eq!(choose_program(false, true), Choice::Suffixed);
    assert_eq!(choose_program(false, false), Choice::Missing);
}

#[test]
fn shim_plans() {
    let p = dirs();
    let plan = plan_shim(&p, &go125(), "go", ".exe", true, true).unwrap();
    assert_eq!(plan.program, "/d/versions/go1.25.0/bin/go");
    assert_eq!(plan.env, toolchain_env(&p, "go1.25.0"));
    let plan = plan_shim(&p, &go125(), "go", ".exe", false, true).unwrap();
    assert_eq!(plan.program, "/d/versions/go1.25.0/bin/go.exe");
    let e = plan_shim(&p, &go125(), "go", ".exe", false, false).unwrap_err();
    assert_eq!(
        e.message(),
        "go not found at /d/versions/go1.25.0/bin/go — run `gv install go1.25.0`"
    );
    let e = plan_shim(&p, &None, "go", "", true, true).unwrap_err();
    assert!(matches!(e, ShimError::NoVersion));
    assert_eq!(e.message(), "no Go version resolved");
}

#[test]
fn text_operations() {
    assert_eq!(text::trim("\u{85} a b\u{2028}\t"), "a b");
    assert_eq!(text::trim("\u{200b}a"), "\u{200b}a");
    assert_eq!(text::split_lines("a\r\nb\n\nc\r"), vec!["a", "b", "", "c\r"]);
    assert_eq!(text::split_lines("\r\n"), vec![""]);
    assert_eq!(text::split_lines(""), Vec::<String>::new());
    assert_eq!(text::split("a..b", '.'), vec!["a", "", "b"]);
    assert_eq!(text::split("", '.'), vec![""]);
    assert_eq!(text::cut_before("a//b//c", "//"), "a");
    assert_eq!(text::cut_before("a/b", "//"), "a/b");
    assert_eq!(text::last_of("a/b", '/'), "b");
    assert_eq!(text::last_of("a/", '/'), "");
    assert_eq!(text::parse_or_zero("+12"), 12);
    assert_eq!(text::parse_or_zero("-1"), 0);
    assert_eq!(text::number_text(0), "0");
    assert_eq!(text::number_text(1200), "1200");
}

#[test]
fn text_operations_agree_with_std() {
    for n in 0..=0x10ffffu32 {
        if let Some(c) = char::from_u32(n) {
            assert_eq!(text::white(c), c.is_whitespace(), "{n:x}");
            assert_eq!(text::digit(c), c.is_ascii_digit(), "{n:x}");
        }
    }
    for s in [
        "", " ", "\n", "\r", "\r\n", "a", " a ", "a\n", "a\nb", "a\r\nb\r\n", "\n\n", "a.b.c", ".", "..", "go1.25.0",
        "v1", "+", "+7", "-7", "007", "18446744073709551615", "18446744073709551616", "1 ", "\"q\"", "\"\"", "h\u{e9}.\u{3000}",
    ] {
        assert_eq!(text::trim(s), s.trim(), "{s:?}");
        assert_eq!(text::trim_start(s), s.trim_start(), "{s:?}");
        assert_eq!(text::split_lines(s), s.lines().collect::<Vec<_>>(), "{s:?}");
        assert_eq!(text::split(s, '.'), s.split('.').collect::<Vec<_>>(), "{s:?}");
        assert_eq!(text::last_of(s, '.'), s.rsplit('.').next().unwrap(), "{s:?}");
        assert_eq!(text::strip_both(s, '"'), s.trim_start_matches('"').trim_end_matches('"'), "{s:?}");
        assert_eq!(text::parse_or_zero(s), s.parse::<u64>().unwrap_or(0), "{s:?}");
        assert_eq!(text::starts_with(s, "go"), s.starts_with("go"), "{s:?}");
        assert_eq!(text::ends_with(s, "c"), s.ends_with("c"), "{s:?}");
        assert_eq!(text::strip_prefix(s, "go").as_deref(), s.strip_prefix("go"), "{s:?}");
        assert_eq!(text::has_char(s, '.'), s.contains('.'), "{s:?}");
    }
    assert_eq!(text::take_bytes("h\u{e9}llo", 3), "h\u{e9}");
}

#[test]
fn one_digest_is_one_copy() {
    let p = dirs();
    let installer = Installer { paths: &p, platform: LINUX };
    let a = file("linux", "amd64", "archive", "a.tar.gz");
    let b = file("linux", "amd64", "archive", "b.zip");
    let one = installer.install_file(&release("go1.1", true, vec![]), &a);
    let two = installer.install_file(&release("go1.2", true, vec![]), &b);
    assert_eq!(one.marker, two.marker);
    assert_eq!(one.dest, two.dest);
    assert_ne!(one.link, two.link);
    assert_eq!(one.marker, Store::new(&p).mark_installed(SHA).file);
}
