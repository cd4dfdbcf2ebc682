use dotsync::config::{
    platform_of, pull_source, require_empty_effective, resolve_deploy_root, resolve_pull_root,
    verify_structure, Configuration, DeployRules, Platform, PullRules, PullSpec, Structure,
    TargetSpec,
};
use dotsync::errors::{PatternOrigin, SyncError};
use dotsync::exclude::ExcludeMatcher;
use dotsync::planner::{
    plan_deploy, plan_deploy_checked, plan_pull, select_confirmed, PullCandidate, PullItem,
    RenderKind,
};

fn target(path: &str, exclude: Vec<&str>, require_empty: Option<bool>) -> TargetSpec {
    TargetSpec {
        target: path.to_string(),
        exclude: exclude.into_iter().map(|s| s.to_string()).collect(),
        target_require_empty: require_empty,
    }
}

fn sample_config() -> Configuration {
    Configuration {
        deploy: DeployRules {
            windows: target("C:/cfg", vec![], None),
            linux: target("~/.config/app", vec![], Some(true)),
            exclude: vec!["*.bak".to_string()],
            target_require_empty: false,
        },
        pull: PullRules {
            windows: PullSpec { from: None, exclude: vec![] },
            linux: PullSpec { from: Some("/live/app".to_string()), exclude: vec![] },
            exclude: vec![],
        },
    }
}

fn strings(v: Vec<&str>) -> Vec<String> {
    v.into_iter().map(|s| s.to_string()).collect()
}

fn matcher(config: Vec<&str>, target_level: Vec<&str>) -> ExcludeMatcher {
    ExcludeMatcher::compile(&strings(config), &strings(target_level)).unwrap()
}

#[test]
fn excluded_paths_never_deployed() {
    let m = matcher(vec!["*.log"], vec!["cache/**"]);
    let cands = strings(vec!["a.log", "b.txt", "cache/x/y", "c.log"]);
    let plan = plan_deploy(&cands, &m);
    assert_eq!(plan, strings(vec!["b.txt"]));
}

#[test]
fn protected_path_never_deployed() {
    let m = matcher(vec![], vec![]);
    let cands = strings(vec!["dotconfig.toml", "b.txt", "sub/dotconfig.toml"]);
    let plan = plan_deploy(&cands, &m);
    // only the top-level metadata file is the protected path
    assert_eq!(plan, strings(vec!["b.txt", "sub/dotconfig.toml"]));
}

#[test]
fn require_empty_blocks_nonempty_target() {
    let m = matcher(vec![], vec![]);
    let cands = strings(vec!["a.txt"]);
    let r = plan_deploy_checked(true, false, &cands, &m);
    assert_eq!(r, Err(SyncError::NonEmptyTarget));
    let r = plan_deploy_checked(true, true, &cands, &m).unwrap();
    assert_eq!(r, strings(vec!["a.txt"]));
    let r = plan_deploy_checked(false, false, &cands, &m).unwrap();
    assert_eq!(r, strings(vec!["a.txt"]));
}

#[test]
fn target_override_takes_precedence() {
    assert!(!require_empty_effective(Some(false), true));
    assert!(require_empty_effective(Some(true), false));
    assert!(require_empty_effective(None, true));
    assert!(!require_empty_effective(None, false));
}

#[test]
fn pull_aborts_on_protected_candidate() {
    let m = matcher(vec![], vec![]);
    let cands = vec![
        PullCandidate { rel: "one.txt".to_string(), dest_exists: true, both_text: true },
        PullCandidate { rel: "dotconfig.toml".to_string(), dest_exists: true, both_text: true },
        PullCandidate { rel: "two.txt".to_string(), dest_exists: false, both_text: false },
    ];
    let plan = plan_pull(&cands, &m);
    assert_eq!(plan.collision, Some(1));
    assert_eq!(plan.items.len(), 1);
    assert_eq!(plan.items[0].rel, "one.txt");
}

#[test]
fn pull_proceeds_when_protected_is_excluded() {
    let m = matcher(vec!["dotconfig.toml"], vec![]);
    let cands = vec![
        PullCandidate { rel: "one.txt".to_string(), dest_exists: true, both_text: true },
        PullCandidate { rel: "dotconfig.toml".to_string(), dest_exists: true, both_text: true },
        PullCandidate { rel: "two.txt".to_string(), dest_exists: false, both_text: false },
    ];
    let plan = plan_pull(&cands, &m);
    assert_eq!(plan.collision, None);
    assert_eq!(plan.items.len(), 2);
    assert_eq!(plan.items[0].rel, "one.txt");
    assert_eq!(plan.items[0].kind, RenderKind::LineDiff);
    assert_eq!(plan.items[1].rel, "two.txt");
    assert_eq!(plan.items[1].kind, RenderKind::Addition);
}

#[test]
fn pull_classifies_candidates() {
    let m = matcher(vec![], vec![]);
    let cands = vec![
        PullCandidate { rel: "diff.txt".to_string(), dest_exists: true, both_text: true },
        PullCandidate { rel: "blob.bin".to_string(), dest_exists: true, both_text: false },
        PullCandidate { rel: "fresh.txt".to_string(), dest_exists: false, both_text: false },
    ];
    let plan = plan_pull(&cands, &m);
    assert_eq!(plan.collision, None);
    let kinds: Vec<RenderKind> = plan.items.iter().map(|i| i.kind).collect();
    assert_eq!(kinds, vec![RenderKind::LineDiff, RenderKind::Modified, RenderKind::Addition]);
}

#[test]
fn excluded_paths_never_pulled() {
    let m = matcher(vec!["*.log"], vec![]);
    let cands = vec![
        PullCandidate { rel: "a.log".to_string(), dest_exists: true, both_text: true },
        PullCandidate { rel: "b.txt".to_string(), dest_exists: true, both_text: true },
    ];
    let plan = plan_pull(&cands, &m);
    assert_eq!(plan.items.len(), 1);
    assert_eq!(plan.items[0].rel, "b.txt");
}

#[test]
fn declining_one_gate_keeps_others() {
    let items = vec![
        PullItem { rel: "a".to_string(), kind: RenderKind::LineDiff },
        PullItem { rel: "b".to_string(), kind: RenderKind::Addition },
        PullItem { rel: "c".to_string(), kind: RenderKind::Modified },
    ];
    let picked = select_confirmed(&items, &vec![true, false, true]);
    let names: Vec<&str> = picked.iter().map(|i| i.rel.as_str()).collect();
    assert_eq!(names, vec!["a", "c"]);
    let none = select_confirmed(&items, &vec![false, false, false]);
    assert!(none.is_empty());
}

#[test]
fn malformed_config_glob_is_reported() {
    let r = ExcludeMatcher::compile(&strings(vec!["ok", "["]), &strings(vec![]));
    match r {
        Err(SyncError::GlobSyntax { pattern, origin }) => {
            assert_eq!(pattern, "[");
            assert_eq!(origin, PatternOrigin::Config);
        }
        other => panic!("expected a glob syntax error, got {:?}", other),
    }
}

#[test]
fn malformed_target_glob_is_reported() {
    let r = ExcludeMatcher::compile(&strings(vec!["ok"]), &strings(vec!["a{"]));
    match r {
        Err(SyncError::GlobSyntax { pattern, origin }) => {
            assert_eq!(pattern, "a{");
            assert_eq!(origin, PatternOrigin::Target);
        }
        other => panic!("expected a glob syntax error, got {:?}", other),
    }
}

#[test]
fn exclusion_matches_relative_paths() {
    let m = matcher(vec!["*.tmp"], vec!["sub/**"]);
    assert!(m.is_match("x.tmp"));
    assert!(m.is_match("sub/a/b"));
    assert!(!m.is_match("keep.txt"));
}

#[test]
fn platform_resolution() {
    assert_eq!(platform_of("windows"), Ok(Platform::Windows));
    assert_eq!(platform_of("linux"), Ok(Platform::Linux));
    assert_eq!(
        platform_of("darwin"),
        Err(SyncError::UnsupportedPlatform { os: "darwin".to_string() })
    );
}

#[test]
fn pull_source_prefers_override() {
    let c = sample_config();
    assert_eq!(pull_source(&c.pull.linux, &c.deploy.linux), "/live/app");
    assert_eq!(pull_source(&c.pull.windows, &c.deploy.windows), "C:/cfg");
}

#[test]
fn resolved_roots_keep_plain_paths() {
    let c = sample_config();
    assert_eq!(resolve_deploy_root(&c.deploy.windows), "C:/cfg");
    assert_eq!(resolve_pull_root(&c.pull.linux, &c.deploy.linux), "/live/app");
}

#[test]
fn structure_verification() {
    let s = Structure { configs: vec![("app".to_string(), sample_config())] };
    let ok = verify_structure(Some(s)).unwrap();
    assert_eq!(ok.configs.len(), 1);
    assert_eq!(verify_structure(None).unwrap_err(), SyncError::Configuration);
}

#[test]
fn structure_name_checks() {
    let s = Structure { configs: vec![("app".to_string(), sample_config())] };
    assert!(s.contains_name("app"));
    assert!(!s.contains_name("other"));
    assert!(s.get("app").is_some());
    assert!(s.get("other").is_none());
    assert_eq!(
        s.check_new_name("app"),
        Err(SyncError::DuplicateConfig { name: "app".to_string() })
    );
    assert_eq!(s.check_new_name("other"), Ok(()));
    assert_eq!(s.check_existing_name("app"), Ok(()));
    assert_eq!(
        s.check_existing_name("other"),
        Err(SyncError::UnknownConfig { name: "other".to_string() })
    );
}

#[test]
fn error_messages_are_not_empty() {
    let errors = vec![
        SyncError::Configuration,
        SyncError::UnknownConfig { name: "app".to_string() },
        SyncError::DuplicateConfig { name: "app".to_string() },
        SyncError::GlobSyntax { pattern: "[".to_string(), origin: PatternOrigin::Target },
        SyncError::GlobCompile,
        SyncError::Filesystem,
        SyncError::NonEmptyTarget,
        SyncError::ProtectedOverwrite,
        SyncError::UnsupportedPlatform { os: "darwin".to_string() },
    ];
    for e in errors {
        assert!(!e.message().is_empty());
    }
    let glob_err = SyncError::GlobSyntax {
        pattern: "a{".to_string(),
        origin: PatternOrigin::Config,
    };
    let msg = glob_err.message();
    assert!(msg.contains("a{"));
    assert!(msg.contains("configuration"));
}

#[test]
fn errors_name_their_subject() {
    let unknown = SyncError::UnknownConfig { name: "vim".to_string() };
    assert_eq!(unknown.message(), "Config 'vim' does not exist.");
    let duplicate = SyncError::DuplicateConfig { name: "vim".to_string() };
    assert_eq!(
        duplicate.message(),
        "There already exists a config with the name 'vim'."
    );
    let platform = SyncError::UnsupportedPlatform { os: "darwin".to_string() };
    assert_eq!(platform.message(), "Operating system 'darwin' is not supported.");
}

#[test]
fn oversized_glob_set_is_reported() {
    // the pattern parses, but it needs the regex strategy (the `?`) and
    // its compiled form exceeds globset's size cap; that must come back
    // as an error, not an abort
    let huge = format!("{}?{}", "a".repeat(2_000_000), "b".repeat(2_000_000));
    let r = ExcludeMatcher::compile(&vec![huge], &vec![]);
    assert_eq!(r.err(), Some(SyncError::GlobCompile));
}
