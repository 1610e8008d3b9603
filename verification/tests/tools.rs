use gv::constraint::{
    consider, is_constraint, is_pseudo_version, normalize_req, parse_go_version, pick_max_satisfying,
    without_pseudo, SemVer,
};
use gv::digest::{check_sha, sha256_hex};
use gv::lock::LockedTool;
use gv::paths::Paths;
use gv::project::ToolSpec;
use gv::proxy::VersionInfo;
use gv::tool::{
    advance, default_binary_name, first_build_step, first_step, install, is_major_marker, plan_build, start, tool_bin_path,
    tool_dir, BuildError, BuildEvent, BuildOutcome, BuildStep, ResolvedTool, ToolError, ToolOutcome,
    ToolQuery, ToolReply, ToolStep,
};

fn strings(v: &[&str]) -> Vec<String> {
    v.iter().map(|s| s.to_string()).collect()
}

fn dirs() -> Paths {
    Paths {
        data: "/home/u/.local/share/gv".to_string(),
        config: "/home/u/.config/gv".to_string(),
        cache: "/home/u/.cache/gv".to_string(),
    }
}

fn gopls() -> ResolvedTool {
    ResolvedTool {
        name: "gopls".to_string(),
        package: "golang.org/x/tools/gopls".to_string(),
        version: "v0.18.1".to_string(),
        bin: "gopls".to_string(),
        module_hash: "h1:abc=".to_string(),
    }
}

#[test]
fn constraint_detection() {
    assert!(is_constraint("^v0.18"));
    assert!(is_constraint("~v1.2"));
    assert!(is_constraint(">=v1.0,<v2.0"));
    assert!(is_constraint("*"));
    assert!(!is_constraint("v0.18.1"));
    assert!(!is_constraint("0.18.1"));
    assert!(!is_constraint("latest"));
}

#[test]
fn pick_max_caret() {
    let available = vec![
        "v0.18.0".to_string(),
        "v0.18.1".to_string(),
        "v0.18.2".to_string(),
        "v0.19.0".to_string(),
        "v1.0.0".to_string(),
    ];
    assert_eq!(pick_max_satisfying(&available, "^v0.18").as_deref(), Some("v0.18.2"));
}

#[test]
fn pick_max_tilde() {
    let available = vec!["v1.2.3".to_string(), "v1.2.7".to_string(), "v1.3.0".to_string()];
    assert_eq!(pick_max_satisfying(&available, "~v1.2").as_deref(), Some("v1.2.7"));
}

#[test]
fn pick_max_skips_prerelease() {
    let available = vec!["v0.18.1".to_string(), "v0.19.0-rc1".to_string()];
    assert_eq!(pick_max_satisfying(&available, "^v0.18").as_deref(), Some("v0.18.1"));
}

#[test]
fn binary_name_default() {
    for exe in ["", ".exe"] {
        assert_eq!(default_binary_name("golang.org/x/tools/gopls", exe), format!("gopls{exe}"));
        assert_eq!(default_binary_name("github.com/foo/bar/cmd/x", exe), format!("x{exe}"));
        assert_eq!(default_binary_name("github.com/foo/bar/v2", exe), format!("bar{exe}"));
        assert_eq!(
            default_binary_name("github.com/goreleaser/goreleaser/v2", exe),
            format!("goreleaser{exe}")
        );
    }
}

#[test]
fn constraint_looks_past_leading_whitespace() {
    assert!(is_constraint("  =1.0"));
    assert!(is_constraint("<2"));
    assert!(is_constraint("1.2.*"));
    assert!(!is_constraint(""));
    assert!(!is_constraint("   "));
}

#[test]
fn req_loses_one_v_of_each_comparator() {
    assert_eq!(normalize_req("^v0.18"), "^0.18");
    assert_eq!(normalize_req(">=v1.0,<v2.0"), ">=1.0,<2.0");
    assert_eq!(normalize_req(">= v1.0"), ">= 1.0");
    assert_eq!(normalize_req("v1.0,<v2.0"), "1.0,<2.0");
    assert_eq!(normalize_req("v1.0, v2"), "1.0, 2");
    assert_eq!(normalize_req("v1.0"), "1.0");
    assert_eq!(normalize_req("vv1"), "v1");
    assert_eq!(normalize_req("v"), "");
    assert_eq!(normalize_req(">vv1"), ">v1");
    assert_eq!(normalize_req("^v"), "^");
    assert_eq!(normalize_req(""), "");
}

#[test]
fn req_without_v_stays() {
    assert_eq!(normalize_req(">=1.0, <2.0"), ">=1.0, <2.0");
}

#[test]
fn go_versions_parse_with_and_without_v() {
    let v = parse_go_version("v1.20.3-rc.1+meta").unwrap();
    assert_eq!((v.major, v.minor, v.patch), (1, 20, 3));
    assert_eq!(v.pre, "rc.1");
    assert_eq!(v.build, "meta");
    assert_eq!(parse_go_version("0.18.1").unwrap().minor, 18);
    assert!(parse_go_version("v1.2").is_none());
    assert!(parse_go_version("vv1.2.3").is_none());
}

#[test]
fn pseudo_versions_are_no_versions() {
    assert!(parse_go_version("v0.0.0-20191109021931-daa7c04131f5").is_none());
    assert!(parse_go_version("v1.2.4-0.20191109021931-daa7c04131f5").is_none());
    assert!(parse_go_version("v1.2.3-pre.0.20191109021931-daa7c04131f5+incompatible").is_none());
    assert!(parse_go_version("v1.2.3-rc1").is_some());
    assert!(parse_go_version("v1.2.3-20191109021931").is_some());
    assert!(parse_go_version("v3.0.0-20191109021931-daa7c04131f5").is_none());
    let nightly = parse_go_version("v1.2.3-nightly.20230101120000-abcdef123456").unwrap();
    assert_eq!(nightly.pre, "nightly.20230101120000-abcdef123456");
    assert!(parse_go_version("v1.2.3-20191109021931-daa7c04131f5").is_some());
    let revision = "20191109021931-daa7c04131f5";
    assert!(is_pseudo_version(0, 0, revision));
    assert!(!is_pseudo_version(1, 0, revision));
    assert!(!is_pseudo_version(0, 1, revision));
    assert!(is_pseudo_version(2, 4, &format!("0.{revision}")));
    assert!(is_pseudo_version(2, 3, &format!("rc.1.0.{revision}")));
    assert!(!is_pseudo_version(0, 0, &format!("1{revision}")));
    assert!(!is_pseudo_version(0, 0, &format!(".{revision}")));
    assert!(!is_pseudo_version(2, 4, &format!("1.{revision}")));
    assert!(!is_pseudo_version(2, 4, &format!("10.{revision}")));
    assert!(!is_pseudo_version(2, 4, &format!("0-{revision}")));
    assert!(!is_pseudo_version(0, 0, "2019110902193x-daa7c04131f5"));
    assert!(!is_pseudo_version(0, 0, "20191109021931.daa7c04131f5"));
    assert!(!is_pseudo_version(0, 0, "20191109021931-daa7c04131fg"));
    assert!(!is_pseudo_version(0, 0, "20191109021931-daa7c04131f"));
    assert!(!is_pseudo_version(0, 0, ""));
    assert!(without_pseudo(version("0.20191109021931-daa7c04131f5")).is_none());
    assert_eq!(without_pseudo(version("rc1")).unwrap().pre, "rc1");
    assert!(without_pseudo(None).is_none());
}

#[test]
fn pick_max_takes_pre_releases_that_the_constraint_names() {
    let available = strings(&["v0.19.0-rc1"]);
    assert_eq!(pick_max_satisfying(&available, ">=v0.19.0-rc1").as_deref(), Some("v0.19.0-rc1"));
    assert_eq!(pick_max_satisfying(&available, ">=v0.18"), None);
    assert_eq!(pick_max_satisfying(&available, "*"), None);
    let available = strings(&["v0.19.0-rc2", "v0.19.0-rc1", "v0.19.1-rc1"]);
    assert_eq!(pick_max_satisfying(&available, "^v0.19.0-rc1").as_deref(), Some("v0.19.0-rc2"));
    let available = strings(&["v0.19.0-rc2", "v0.19.0"]);
    assert_eq!(pick_max_satisfying(&available, "^v0.19.0-rc1").as_deref(), Some("v0.19.0"));
    let pseudo = strings(&["v0.19.0-0.20191109021931-daa7c04131f5"]);
    assert_eq!(pick_max_satisfying(&pseudo, ">=v0.19.0-0"), None);
    let nightly = strings(&["v1.2.3-nightly.20230101120000-abcdef123456"]);
    assert_eq!(pick_max_satisfying(&nightly, ">=v1.2.3-nightly"), Some(nightly[0].clone()));
}

#[test]
fn pick_max_strips_the_v_of_the_first_comparator() {
    let available = strings(&["v1.0.0", "v1.5.0", "v2.0.0"]);
    assert_eq!(pick_max_satisfying(&available, "v1.0,<v2.0").as_deref(), Some("v1.5.0"));
}

#[test]
fn pick_max_without_candidates() {
    let available = strings(&["v1.0.0", "not-a-version", ""]);
    assert_eq!(pick_max_satisfying(&available, "^v2"), None);
    assert_eq!(pick_max_satisfying(&available, "@nonsense"), None);
    assert_eq!(pick_max_satisfying(&Vec::new(), "^v1"), None);
}

#[test]
fn pick_max_is_not_textual_and_ignores_position() {
    let available = strings(&["v1.10.0", "v1.9.0", "v1.2.0"]);
    assert_eq!(pick_max_satisfying(&available, "^v1.2").as_deref(), Some("v1.10.0"));
    let available = strings(&["v1.2.0", "v1.10.0", "v1.9.0"]);
    assert_eq!(pick_max_satisfying(&available, ">=v1.0,<v1.10").as_deref(), Some("v1.9.0"));
}

#[test]
fn pick_max_orders_build_metadata_and_keeps_the_first_of_equals() {
    let available = strings(&["v2.0.0", "v2.0.0+incompatible"]);
    assert_eq!(pick_max_satisfying(&available, "^v2").as_deref(), Some("v2.0.0+incompatible"));
    let available = strings(&["v2.0.0+incompatible", "v2.0.0"]);
    assert_eq!(pick_max_satisfying(&available, "^v2").as_deref(), Some("v2.0.0+incompatible"));
    let available = strings(&["2.0.0", "v2.0.0"]);
    assert_eq!(pick_max_satisfying(&available, "^v2").as_deref(), Some("2.0.0"));
}

fn version(pre: &str) -> Option<SemVer> {
    Some(SemVer { major: 1, minor: 2, patch: 3, pre: pre.to_string(), build: String::new() })
}

#[test]
fn consider_takes_only_better_candidates() {
    assert_eq!(consider(None, 4, &version(""), true, false), Some(4));
    assert_eq!(consider(None, 4, &version("rc1"), true, false), Some(4));
    assert_eq!(consider(None, 4, &version("rc1"), false, false), None);
    assert_eq!(consider(None, 4, &version(""), false, false), None);
    assert_eq!(consider(None, 4, &None, true, false), None);
    assert_eq!(consider(Some(1), 4, &version(""), true, true), Some(1));
    assert_eq!(consider(Some(1), 4, &version(""), true, false), Some(4));
    assert_eq!(consider(Some(1), 4, &version("rc1"), true, true), Some(1));
}

#[test]
fn major_markers() {
    assert!(is_major_marker("v2"));
    assert!(is_major_marker("v10"));
    assert!(!is_major_marker("v"));
    assert!(!is_major_marker("2"));
    assert!(!is_major_marker("v2a"));
    assert!(!is_major_marker(""));
}

#[test]
fn binary_name_edges() {
    assert_eq!(default_binary_name("tool", ""), "tool");
    assert_eq!(default_binary_name("/v2", ""), "");
    assert_eq!(default_binary_name("v2", ".exe"), "v2.exe");
    assert_eq!(default_binary_name("v2/v3", ""), "v2");
    assert_eq!(default_binary_name("a/v1/v2", ""), "v1");
    assert_eq!(default_binary_name("a/", ".exe"), ".exe");
}

#[test]
fn digest_of_known_bytes() {
    assert_eq!(
        sha256_hex(b"hello world"),
        "b94d27b9934d3e08a52e52d7da7dabfac484efe37a5380ee9088f7ace2efcde9"
    );
    assert_eq!(
        sha256_hex(b""),
        "e3b0c44298fc1c149afbf4c8996fb92427ae41e4649b934ca495991b7852b855"
    );
}

#[test]
fn digest_is_checked() {
    let good = "b94d27b9934d3e08a52e52d7da7dabfac484efe37a5380ee9088f7ace2efcde9";
    assert!(check_sha(b"hello world", good).is_ok());
    let e = check_sha(b"hello", good).unwrap_err();
    assert_eq!(e.expected, good);
    assert_eq!(e.got, "2cf24dba5fb0a30e26e83b2ac5b9e29e1b161e5c1fa7425e73043362938b9824");
    assert_eq!(
        e.message("https://x/y"),
        format!("sha256 mismatch for https://x/y: expected {}, got {}", e.expected, e.got)
    );
    assert!(check_sha(b"hello world", &good.to_uppercase()).is_err());
}

#[test]
fn tool_paths() {
    assert_eq!(tool_dir(&dirs(), "gopls", "v0.18.1"), "/home/u/.local/share/gv/tools/gopls/v0.18.1");
    let locked = LockedTool {
        name: "gopls".to_string(),
        package: String::new(),
        version: "v0.18.1".to_string(),
        bin: "gopls".to_string(),
        module_hash: String::new(),
        built_with: String::new(),
        binary_sha256: String::new(),
    };
    assert_eq!(
        tool_bin_path(&dirs(), &locked),
        "/home/u/.local/share/gv/tools/gopls/v0.18.1/gopls"
    );
}

fn query(wanted: &str) -> ToolQuery {
    start("gopls", &ToolSpec::Short(wanted.to_string())).unwrap()
}

fn info(version: &str) -> ToolReply {
    ToolReply::Latest(VersionInfo { version: version.to_string(), time: None })
}

#[test]
fn start_takes_the_registry_unless_a_package_is_set() {
    let q = query(" latest ");
    assert_eq!(q.package, "golang.org/x/tools/gopls");
    assert_eq!(q.wanted, "latest");
    assert!(q.bin.is_none());
    let spec = ToolSpec::Long {
        package: Some("example.com/fork/gopls".to_string()),
        version: "v1.0.0".to_string(),
        bin: Some("mine".to_string()),
    };
    let q = start("gopls", &spec).unwrap();
    assert_eq!(q.package, "example.com/fork/gopls");
    assert_eq!(q.bin.as_deref(), Some("mine"));
}

#[test]
fn start_refuses_unknown_tools() {
    let e = start("nosuch", &ToolSpec::Short("latest".to_string())).unwrap_err();
    assert!(matches!(&e, ToolError::UnknownTool { name } if name == "nosuch"));
    assert_eq!(
        e.message(""),
        "unknown tool 'nosuch': either pick from the built-in registry or set package = \"...\" in gv.toml"
    );
}

#[test]
fn resolution_of_the_latest_version() {
    let q = query("latest");
    let step = first_step(&q);
    assert!(matches!(&step, ToolStep::FindModule { candidate } if candidate == "golang.org/x/tools/gopls"));
    let ToolOutcome::Next(step) = advance(&q, "", step, &info("v0.18.1")) else { panic!() };
    assert!(matches!(&step, ToolStep::FetchHash { module, version }
        if module == "golang.org/x/tools/gopls" && version == "v0.18.1"));
    let body = "12345\ngolang.org/x/tools/gopls v0.18.1 h1:zip=\ngolang.org/x/tools/gopls v0.18.1/go.mod h1:mod=\n\nsig";
    let ToolOutcome::Resolved(t) = advance(&q, ".exe", step, &ToolReply::Sum(body.to_string())) else {
        panic!()
    };
    assert_eq!(t.name, "gopls");
    assert_eq!(t.version, "v0.18.1");
    assert_eq!(t.bin, "gopls.exe");
    assert_eq!(t.module_hash, "h1:zip=");
}

#[test]
fn resolution_walks_up_to_the_module() {
    let spec = ToolSpec::Short("v1.64.5".to_string());
    let q = start("golangci-lint", &spec).unwrap();
    let mut step = first_step(&q);
    for above in [
        "github.com/golangci/golangci-lint/cmd",
        "github.com/golangci/golangci-lint",
    ] {
        let ToolOutcome::Next(next) = advance(&q, "", step, &ToolReply::Status(404)) else { panic!() };
        assert!(matches!(&next, ToolStep::FindModule { candidate } if candidate == above));
        step = next;
    }
    let ToolOutcome::Next(step) = advance(&q, "", step, &info("v9.9.9")) else { panic!() };
    assert!(matches!(&step, ToolStep::FetchHash { module, version }
        if module == "github.com/golangci/golangci-lint" && version == "v1.64.5"));
}

#[test]
fn resolution_of_a_constraint() {
    let q = query("^v0.17");
    let ToolOutcome::Next(step) = advance(&q, "", first_step(&q), &info("v0.18.1")) else { panic!() };
    assert!(matches!(&step, ToolStep::ListVersions { module } if module == "golang.org/x/tools/gopls"));
    let versions = strings(&["v0.17.0", "v0.17.1", "v0.18.1"]);
    let ToolOutcome::Next(step) = advance(&q, "", step, &ToolReply::Versions(versions)) else { panic!() };
    assert!(matches!(&step, ToolStep::FetchHash { version, .. } if version == "v0.17.1"));
}

#[test]
fn resolution_failures() {
    let q = query("*");
    let ToolOutcome::Failed(e) = advance(&q, "", first_step(&q), &ToolReply::Status(500)) else {
        panic!()
    };
    assert!(matches!(&e, ToolError::UnexpectedStatus { status: 500, .. }));
    assert_eq!(
        e.message("500 Internal Server Error"),
        "unexpected status 500 Internal Server Error for https://proxy.golang.org/golang.org/x/tools/gopls/@latest"
    );

    let last = ToolStep::FindModule { candidate: "golang.org".to_string() };
    let ToolOutcome::Failed(e) = advance(&q, "", last, &ToolReply::Status(410)) else { panic!() };
    assert_eq!(e.message(""), "could not resolve any module path containing golang.org/x/tools/gopls");

    let q = query("^v9");
    let list = ToolStep::ListVersions { module: "m".to_string() };
    let ToolOutcome::Failed(e) = advance(&q, "", list, &ToolReply::Versions(strings(&["v1.0.0"]))) else {
        panic!()
    };
    assert_eq!(e.message(""), "no version of m satisfies '^v9'");

    let fetch = ToolStep::FetchHash { module: "m".to_string(), version: "v1.0.0".to_string() };
    let ToolOutcome::Failed(e) = advance(&q, "", fetch, &ToolReply::Sum("nothing".to_string())) else {
        panic!()
    };
    assert_eq!(e.message(""), "could not find h1 hash for m@v1.0.0 in sumdb response");
}

#[test]
fn build_plan_is_pinned_to_the_toolchain() {
    let plan = plan_build(&dirs(), "go1.25.0", &gopls(), "77");
    assert_eq!(plan.go_bin, "/home/u/.local/share/gv/versions/go1.25.0/bin/go");
    assert_eq!(plan.dest_bin, "/home/u/.local/share/gv/tools/gopls/v0.18.1/gopls");
    assert_eq!(plan.tmp_gobin, "/home/u/.cache/gv/gobin-gopls-77.tmp");
    assert_eq!(plan.tmp_bin, "/home/u/.cache/gv/tool-gopls-77.tmp");
    assert_eq!(plan.produced, "/home/u/.cache/gv/gobin-gopls-77.tmp/gopls");
    assert_eq!(plan.target, "golang.org/x/tools/gopls@v0.18.1");
    assert_eq!(plan.args, vec!["install", "golang.org/x/tools/gopls@v0.18.1"]);
    assert_eq!(
        plan.env,
        vec![
            ("GOROOT".to_string(), "/home/u/.local/share/gv/versions/go1.25.0".to_string()),
            ("GOTOOLCHAIN".to_string(), "local".to_string()),
            ("GOBIN".to_string(), "/home/u/.cache/gv/gobin-gopls-77.tmp".to_string()),
            ("GOFLAGS".to_string(), "-mod=mod".to_string()),
        ]
    );
}

fn next(outcome: BuildOutcome) -> BuildStep {
    match outcome {
        BuildOutcome::Next(step) => step,
        other => panic!("{other:?}"),
    }
}

#[test]
fn build_runs_through() {
    let tool = gopls();
    let plan = plan_build(&dirs(), "go1.25.0", &tool, "1");
    let step = first_build_step();
    assert!(matches!(step, BuildStep::CheckGo));
    let step = next(install(&plan, &tool, &step, &BuildEvent::Exists(true)));
    let step = next(install(&plan, &tool, &step, &BuildEvent::Exists(false)));
    assert!(matches!(step, BuildStep::Prepare));
    let step = next(install(&plan, &tool, &step, &BuildEvent::Done));
    assert!(matches!(step, BuildStep::Build));
    let step = next(install(&plan, &tool, &step, &BuildEvent::Exit(true)));
    let step = next(install(&plan, &tool, &step, &BuildEvent::Exists(true)));
    assert!(matches!(&step, BuildStep::Move { from } if *from == plan.produced));
    let step = next(install(&plan, &tool, &step, &BuildEvent::Done));
    let end = install(&plan, &tool, &step, &BuildEvent::Bytes(b"hello world".to_vec()));
    let BuildOutcome::Locked(locked) = end else { panic!() };
    assert_eq!(locked.built_with, "go1.25.0");
    assert_eq!(locked.module_hash, "h1:abc=");
    assert_eq!(
        locked.binary_sha256,
        "b94d27b9934d3e08a52e52d7da7dabfac484efe37a5380ee9088f7ace2efcde9"
    );
}

#[test]
fn build_is_skipped_where_the_binary_is_there() {
    let tool = gopls();
    let plan = plan_build(&dirs(), "go1.25.0", &tool, "1");
    let step = next(install(&plan, &tool, &BuildStep::CheckDest, &BuildEvent::Exists(true)));
    assert!(matches!(step, BuildStep::ReadBinary));
}

#[test]
fn build_failures() {
    let tool = gopls();
    let plan = plan_build(&dirs(), "go1.25.0", &tool, "1");
    let BuildOutcome::Failed(e) = install(&plan, &tool, &BuildStep::CheckGo, &BuildEvent::Exists(false)) else {
        panic!()
    };
    assert!(matches!(e, BuildError::ToolchainMissing { .. }));
    assert_eq!(
        e.message(""),
        "Go toolchain go1.25.0 is not installed (looked at /home/u/.local/share/gv/versions/go1.25.0/bin/go)"
    );
    let BuildOutcome::Failed(e) = install(&plan, &tool, &BuildStep::Build, &BuildEvent::Exit(false)) else {
        panic!()
    };
    assert_eq!(e.message("Some(1)"), "go install golang.org/x/tools/gopls@v0.18.1 failed (exit Some(1))");

    let step = next(install(&plan, &tool, &BuildStep::CheckProduced, &BuildEvent::Exists(false)));
    assert!(matches!(step, BuildStep::ListProduced));
    let one = BuildEvent::Files(strings(&["/tmp/other"]));
    assert!(matches!(next(install(&plan, &tool, &step, &one)),
        BuildStep::Move { from } if from == "/tmp/other"));
    for files in [strings(&[]), strings(&["a", "b"])] {
        let BuildOutcome::Failed(e) = install(&plan, &tool, &step, &BuildEvent::Files(files)) else {
            panic!()
        };
        assert_eq!(
            e.message(""),
            "go install produced no binary named gopls in /home/u/.cache/gv/gobin-gopls-1.tmp"
        );
    }
}

#[test]
fn locked_tool_is_where_it_was_put() {
    let tool = gopls();
    let plan = plan_build(&dirs(), "go1.25.0", &tool, "1");
    let end = install(&plan, &tool, &BuildStep::ReadBinary, &BuildEvent::Bytes(vec![]));
    let BuildOutcome::Locked(locked) = end else { panic!() };
    assert_eq!(tool_bin_path(&dirs(), &locked), plan.dest_bin);
}

#[test]
fn resolution_finds_the_longest_known_module() {
    let spec = ToolSpec::Long {
        package: Some("example.com/a/b/c".to_string()),
        version: "*".to_string(),
        bin: None,
    };
    let q = start("t", &spec).unwrap();
    let mut step = first_step(&q);
    let mut asked = vec![];
    let (module, version) = loop {
        let reply = match &step {
            ToolStep::FindModule { candidate } => {
                asked.push(candidate.clone());
                match candidate.as_str() {
                    "example.com/a" | "example.com/a/b" => info("v2.0.0"),
                    _ => ToolReply::Status(410),
                }
            }
            ToolStep::FetchHash { module, version } => break (module.clone(), version.clone()),
            other => panic!("{other:?}"),
        };
        let ToolOutcome::Next(next) = advance(&q, "", step, &reply) else { panic!() };
        step = next;
    };
    assert_eq!(asked, strings(&["example.com/a/b/c", "example.com/a/b"]));
    assert_eq!(module, "example.com/a/b");
    assert_eq!(version, "v2.0.0");
}
