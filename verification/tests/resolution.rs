use gv::cli::{cmd_current, why};
use gv::manifest::{
    find_project_toolchain, normalize, read_go_mod_toolchain, Level, ToolchainHit, ToolchainSource,
};
use gv::project::{find_root, Marks, Project, ToolSpec, LOCK_FILE, PROJECT_FILE};
use gv::release::normalize_version;
use gv::resolve::{
    compare_versions, list_installed, parse_components, pick_latest_installed, resolve, Context, Resolved,
};
use gv::search::{FileState, Listing, Request, Search};
use gv::workspace::{find_workspace_root, normalize_toolchain, parse, parse_use_target, WORKSPACE_FILE};

fn text(s: &str) -> FileState {
    FileState::Text(s.to_string())
}

fn level(dir: &str, go_work: FileState, go_mod: FileState, go_version: FileState) -> Level {
    Level { dir: dir.to_string(), go_work, go_mod, go_version }
}

fn empty(dir: &str) -> Level {
    level(dir, FileState::Absent, FileState::Absent, FileState::Absent)
}

fn hit(s: Search<ToolchainHit>) -> ToolchainHit {
    match s {
        Search::Found(h) => h,
        _ => panic!("no pin"),
    }
}

fn found(s: Search<Resolved>) -> Resolved {
    match s {
        Search::Found(r) => r,
        _ => panic!("not resolved"),
    }
}

fn names(v: &[&str]) -> Vec<String> {
    v.iter().map(|s| s.to_string()).collect()
}

fn context(levels: Vec<Level>) -> Context {
    Context {
        env: None,
        levels,
        global_file: "/c/global".to_string(),
        global: FileState::Absent,
        installed: Listing::Names(vec![]),
    }
}

#[test]
fn parse_block_form() {
    let src = r#"
go 1.21

toolchain go1.25.0

use (
    ./service-a
    ./service-b
    ../shared/lib
)
"#;
    let parsed = parse(src, "/repo");
    assert_eq!(parsed.toolchain.as_deref(), Some("go1.25.0"));
    assert_eq!(
        parsed.members,
        vec!["/repo/./service-a", "/repo/./service-b", "/repo/../shared/lib"]
    );
}

#[test]
fn parse_inline_use() {
    let src = "use ./single\ntoolchain 1.25.0";
    let parsed = parse(src, "/r");
    assert_eq!(parsed.toolchain.as_deref(), Some("go1.25.0"));
    assert_eq!(parsed.members, vec!["/r/./single"]);
}

#[test]
fn workspace_comments_quotes_and_ends() {
    let src = "use (\r\n  \"./a b\" // first\r\n // nothing\r\n ./b\r\n)\r\n./outside\r\nuse \"/abs\"\n";
    let parsed = parse(src, "/r/");
    assert_eq!(parsed.members, vec!["/r/./a b", "/r/./b", "/abs"]);
    assert_eq!(parsed.toolchain, None);
}

#[test]
fn workspace_last_toolchain_line_stands() {
    let parsed = parse("toolchain go1.1\ntoolchain 1.2 // newer\n", "");
    assert_eq!(parsed.toolchain.as_deref(), Some("go1.2"));
}

#[test]
fn workspace_use_needs_a_space() {
    assert_eq!(parse("use(\n./a\n)", "/r").members, Vec::<String>::new());
    assert_eq!(parse("use (\nuse ./x\n./a", "/r").members, vec!["/r/./x", "/r/./a"]);
}

#[test]
fn use_targets() {
    assert_eq!(parse_use_target("  ./a ").as_deref(), Some("./a"));
    assert_eq!(parse_use_target("\"\"\" ./a \"").as_deref(), Some("./a"));
    assert_eq!(parse_use_target("\"\""), None);
    assert_eq!(parse_use_target("   "), None);
}

#[test]
fn file_names() {
    assert_eq!(WORKSPACE_FILE, "go.work");
    assert_eq!(PROJECT_FILE, "gv.toml");
    assert_eq!(LOCK_FILE, "gv.lock");
}

#[test]
fn canonical_names_agree_and_stay() {
    for (raw, want) in [
        ("1.25.0", "go1.25.0"),
        ("go1.25.0", "go1.25.0"),
        (" \t1.25\n", "go1.25"),
        ("", "go"),
        ("gogo", "gogo"),
        ("\u{a0}go1\u{3000}", "go1"),
    ] {
        assert_eq!(normalize(raw), want);
        assert_eq!(normalize_toolchain(raw), want);
        assert_eq!(normalize_version(raw), want);
        assert_eq!(normalize(want), want);
    }
}

#[test]
fn go_mod_toolchain_lines() {
    assert_eq!(
        read_go_mod_toolchain("module m\n\ngo 1.21\n\n\ttoolchain go1.25.0\n").as_deref(),
        Some("go1.25.0")
    );
    assert_eq!(read_go_mod_toolchain("toolchain 1.24\ntoolchain 1.25").as_deref(), Some("go1.24"));
    assert_eq!(read_go_mod_toolchain("module m\ngo 1.21\n"), None);
    assert_eq!(read_go_mod_toolchain("toolchain"), None);
    assert_eq!(read_go_mod_toolchain("toolchaingo1.2"), None);
}

#[test]
fn go_work_wins_over_nearer_pins() {
    let levels = vec![
        level("/r/a", FileState::Absent, text("toolchain go1.1"), text("1.2")),
        level("/r", text("toolchain go1.25.0"), FileState::Unread, FileState::Unread),
    ];
    let h = hit(find_project_toolchain(&levels));
    assert_eq!(h.version, "go1.25.0");
    assert_eq!(h.source, ToolchainSource::GoWork);
    assert_eq!(h.origin, "/r/go.work");
}

#[test]
fn nearest_go_work_without_toolchain_ends_the_workspace_search() {
    let levels = vec![
        level("/r/a", text("use ./x"), FileState::Absent, text(" 1.22 \n")),
        level("/r", text("toolchain go1.25.0"), FileState::Absent, FileState::Absent),
    ];
    let h = hit(find_project_toolchain(&levels));
    assert_eq!(h.version, "go1.22");
    assert_eq!(h.source, ToolchainSource::GoVersionFile);
    assert_eq!(h.origin, "/r/a/.go-version");
}

#[test]
fn go_mod_wins_over_go_version_beside_it() {
    let levels = vec![
        empty("/r/a"),
        level("/r", FileState::Absent, text("toolchain go1.24.1"), text("1.2")),
        level("/", FileState::Absent, text("toolchain go1.3"), FileState::Absent),
    ];
    let h = hit(find_project_toolchain(&levels));
    assert_eq!((h.version.as_str(), h.origin.as_str()), ("go1.24.1", "/r/go.mod"));
    assert_eq!(h.source, ToolchainSource::GoMod);
}

#[test]
fn go_mod_wins_over_nearer_go_version() {
    let levels = vec![
        level("/r/a", FileState::Absent, FileState::Absent, text("1.24.0")),
        level("/r", FileState::Absent, text("module m\ntoolchain go1.25.0"), FileState::Absent),
    ];
    let h = hit(find_project_toolchain(&levels));
    assert_eq!((h.version.as_str(), h.origin.as_str()), ("go1.25.0", "/r/go.mod"));
    assert_eq!(h.source, ToolchainSource::GoMod);
}

#[test]
fn go_version_decides_without_any_toolchain_line() {
    let levels = vec![
        level("/r/a", FileState::Absent, text("module m"), FileState::Absent),
        level("/r", FileState::Absent, FileState::Absent, text("1.24.0\n")),
        level("/", FileState::Absent, text("module n"), text("1.1")),
    ];
    let h = hit(find_project_toolchain(&levels));
    assert_eq!((h.version.as_str(), h.origin.as_str()), ("go1.24.0", "/r/.go-version"));
    assert_eq!(h.source, ToolchainSource::GoVersionFile);
}

#[test]
fn blank_go_version_is_passed_over() {
    let levels = vec![
        level("/r/a", FileState::Absent, FileState::Absent, text(" \n")),
        level("/", FileState::Absent, FileState::Absent, text("1.9")),
    ];
    let h = hit(find_project_toolchain(&levels));
    assert_eq!((h.version.as_str(), h.origin.as_str()), ("go1.9", "/.go-version"));
    assert!(matches!(find_project_toolchain(&vec![empty("/")]), Search::NotFound));
}

#[test]
fn search_asks_in_order_and_stops_early() {
    let unread = || level("/r", FileState::Unread, FileState::Unread, FileState::Unread);
    let mut levels = vec![unread(), unread()];
    assert!(matches!(find_project_toolchain(&levels), Search::Read(Request::GoWork(0))));
    levels[0].go_work = FileState::Absent;
    assert!(matches!(find_project_toolchain(&levels), Search::Read(Request::GoWork(1))));
    levels[1].go_work = FileState::Absent;
    assert!(matches!(find_project_toolchain(&levels), Search::Read(Request::GoMod(0))));
    levels[0].go_mod = text("module m");
    assert!(matches!(find_project_toolchain(&levels), Search::Read(Request::GoMod(1))));
    levels[1].go_mod = FileState::Absent;
    assert!(matches!(find_project_toolchain(&levels), Search::Read(Request::GoVersion(0))));
    levels[0].go_version = text("1.20");
    assert_eq!(hit(find_project_toolchain(&levels)).version, "go1.20");
}

#[test]
fn search_fails_only_where_it_comes_to_an_unreadable_file() {
    let levels = vec![
        level("/r/a", FileState::Absent, FileState::Failed, text("1.2")),
        empty("/r"),
    ];
    assert!(matches!(find_project_toolchain(&levels), Search::Failed(Request::GoMod(0))));
    let levels = vec![
        level("/r/a", FileState::Absent, FileState::Absent, text("1.2")),
        level("/r", FileState::Absent, FileState::Absent, FileState::Failed),
    ];
    assert_eq!(hit(find_project_toolchain(&levels)).version, "go1.2");
}

#[test]
fn env_wins() {
    let mut c = context(vec![level("/r", text("toolchain go1.1"), FileState::Absent, FileState::Absent)]);
    c.env = Some(" 1.25.0 ".to_string());
    let r = found(resolve(&c));
    assert_eq!(r.version, "go1.25.0");
    assert_eq!(r.source, ToolchainSource::EnvVar);
    assert_eq!(r.origin, None);
    c.env = Some("  ".to_string());
    assert_eq!(found(resolve(&c)).source, ToolchainSource::GoWork);
}

#[test]
fn global_then_latest_installed() {
    let mut c = context(vec![empty("/")]);
    c.global = text("1.23\n");
    c.installed = Listing::Names(names(&["go1.9", "go1.10", "tmp", "go1.2.3"]));
    let r = found(resolve(&c));
    assert_eq!((r.version.as_str(), r.origin.as_deref()), ("go1.23", Some("/c/global")));
    assert_eq!(r.source, ToolchainSource::Global);
    c.global = text("\n");
    let r = found(resolve(&c));
    assert_eq!(r.version, "go1.10");
    assert_eq!(r.source, ToolchainSource::LatestInstalled);
    c.installed = Listing::Names(names(&["tmp"]));
    assert!(matches!(resolve(&c), Search::NotFound));
}

#[test]
fn resolution_reads_late() {
    let mut c = context(vec![empty("/")]);
    c.global = FileState::Unread;
    c.installed = Listing::Unread;
    assert!(matches!(resolve(&c), Search::Read(Request::Global)));
    c.global = FileState::Absent;
    assert!(matches!(resolve(&c), Search::Read(Request::Installed)));
    c.installed = Listing::Failed;
    assert!(matches!(resolve(&c), Search::Failed(Request::Installed)));
    c.global = FileState::Failed;
    assert!(matches!(resolve(&c), Search::Failed(Request::Global)));
    c.levels[0].go_version = FileState::Failed;
    assert!(matches!(resolve(&c), Search::Failed(Request::GoVersion(0))));
}

#[test]
fn components_of_versions() {
    assert_eq!(parse_components("go1.25.3"), (1, 25, 3));
    assert_eq!(parse_components("1.25"), (1, 25, 0));
    assert_eq!(parse_components("go1.25rc1.7"), (1, 0, 7));
    assert_eq!(parse_components(""), (0, 0, 0));
    assert_eq!(parse_components("go+1.-2.007.9"), (1, 0, 7));
    assert_eq!(parse_components("18446744073709551615.18446744073709551616"), (u64::MAX, 0, 0));
    assert_eq!(parse_components("+.1"), (0, 1, 0));
}

#[test]
fn versions_compare_by_number() {
    assert!(compare_versions("go1.9", "go1.10").is_lt());
    assert!(compare_versions("go2", "go1.99.99").is_gt());
    assert!(compare_versions("go1.25", "go1.25.0").is_eq());
    assert!(compare_versions("go1.25.1", "go1.25.2").is_lt());
}

#[test]
fn installed_are_newest_first_and_stable() {
    let all = names(&["go1.9", "bin", "go1.25", "go1.10.3", "go1.25.0", "go1.9"]);
    assert_eq!(
        list_installed(&all),
        names(&["go1.25", "go1.25.0", "go1.10.3", "go1.9", "go1.9"])
    );
    assert_eq!(list_installed(&vec![]), Vec::<String>::new());
    assert_eq!(pick_latest_installed(&all).as_deref(), Some("go1.25"));
    assert_eq!(pick_latest_installed(&names(&["x"])), None);
}

#[test]
fn roots_are_the_nearest() {
    let none = Marks { gv_toml: false, go_mod: false, go_work: false };
    let gv = Marks { gv_toml: true, ..none };
    let module = Marks { go_mod: true, ..none };
    let work = Marks { go_work: true, ..none };
    assert_eq!(find_root(&vec![none, work, module, gv]), Some(2));
    assert_eq!(find_root(&vec![gv]), Some(0));
    assert_eq!(find_root(&vec![none, work]), None);
    assert_eq!(find_workspace_root(&vec![none, module, work, work]), Some(2));
    assert_eq!(find_workspace_root(&vec![none]), None);
}

#[test]
fn specs_and_default_project() {
    let short = ToolSpec::Short("latest".to_string());
    assert_eq!(short.version(), "latest");
    assert_eq!(short.package_override(), None);
    assert_eq!(short.bin_override(), None);
    let long = ToolSpec::Long {
        package: Some("p".to_string()),
        version: "v1".to_string(),
        bin: Some("b".to_string()),
    };
    assert_eq!(long.version(), "v1");
    assert_eq!(long.package_override(), Some("p"));
    assert_eq!(long.bin_override(), Some("b"));
    let project = Project::default();
    assert!(project.go.is_none());
    assert!(project.tools.is_empty());
}

#[test]
fn current_says_version_and_reason() {
    let with = |source, origin: Option<&str>| Resolved {
        version: "go1.25.0".to_string(),
        source,
        origin: origin.map(|s| s.to_string()),
    };
    let r = with(ToolchainSource::GoMod, Some("/r/go.mod"));
    let out = cmd_current(&Some(r));
    assert_eq!(out.lines, names(&["go1.25.0", "  source: go.mod toolchain (/r/go.mod)"]));
    assert_eq!(out.code, 0);
    let out = cmd_current(&None);
    assert_eq!(out.lines, names(&["(no version resolved; run `gv install <version>`)"]));
    assert_eq!(out.code, 2);
    assert_eq!(why(&with(ToolchainSource::EnvVar, None)), "GV_VERSION");
    assert_eq!(why(&with(ToolchainSource::GoWork, Some("/w"))), "go.work toolchain (/w)");
    assert_eq!(why(&with(ToolchainSource::GoVersionFile, Some("/v"))), ".go-version (/v)");
    assert_eq!(why(&with(ToolchainSource::Global, Some("/g"))), "global");
    assert_eq!(why(&with(ToolchainSource::LatestInstalled, None)), "latest installed");
}

#[test]
fn global_version_is_read_back() {
    for version in ["1.25.0", "go1.25.0", " 1.25 ", "", "go", "rc 1"] {
        let mut c = context(vec![empty("/")]);
        let written = normalize_version(version);
        c.global = text(&written);
        let r = found(resolve(&c));
        assert_eq!(r.version, written);
        assert_eq!(r.source, ToolchainSource::Global);
    }
}
