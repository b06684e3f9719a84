use husako::exit_status::{exit_code, FailureKind};
use husako::project::TemplateName;
use husako::workspace::{
    clean_plan, clean_result, config_exists_message, config_text, gitignore_update,
    not_empty_message, template_files, tsconfig_paths, CleanOptions, CleanPlan,
};

fn opts(cache: bool, types: bool) -> CleanOptions {
    CleanOptions { project_root: "/p".to_string(), cache, types }
}

#[test]
fn template_files_per_template() {
    assert_eq!(template_files(TemplateName::Simple), vec!["entry.ts"]);
    assert_eq!(
        template_files(TemplateName::Project),
        vec!["env/dev.ts", "deployments/nginx.ts", "lib/index.ts", "lib/metadata.ts"]
    );
    assert_eq!(
        template_files(TemplateName::MultiEnv),
        vec![
            "base/nginx.ts",
            "base/service.ts",
            "dev/main.ts",
            "staging/main.ts",
            "release/main.ts"
        ]
    );
}

#[test]
fn config_text_replaces_every_placeholder() {
    let t = "[resources]\nkubernetes = { source = \"release\", version = \"%K8S_VERSION%\" }\n# %K8S_VERSION%\n";
    let out = config_text(t, "1.35");
    assert!(out.contains("version = \"1.35\""));
    assert!(!out.contains("%K8S_VERSION%"));
    assert_eq!(out.matches("1.35").count(), 2);
    assert_eq!(config_text("no placeholder", "1.35"), "no placeholder");
}

#[test]
fn init_appends_gitignore_line() {
    let out = gitignore_update("node_modules/\n").unwrap();
    assert_eq!(out, "node_modules/\n.husako/\n");
    assert!(out.contains("node_modules/"));
    assert!(out.contains(".husako/"));
}

#[test]
fn gitignore_without_trailing_newline() {
    assert_eq!(gitignore_update("target").unwrap(), "target\n.husako/\n");
    assert_eq!(gitignore_update("").unwrap(), ".husako/\n");
}

#[test]
fn gitignore_already_ignoring() {
    assert_eq!(gitignore_update(".husako/\n"), None);
    assert_eq!(gitignore_update("a\n  .husako/  \r\nb"), None);
    assert_eq!(gitignore_update("a\n.husako\n").unwrap(), "a\n.husako\n.husako/\n");
    let once = gitignore_update("dist/").unwrap();
    assert_eq!(gitignore_update(&once), None);
}

#[test]
fn clean_cache_only_plan() {
    let p = clean_plan(&opts(true, false), true, true, true);
    assert_eq!(p, CleanPlan { cache: true, types: false, whole_dir: false });
}

#[test]
fn clean_types_only_plan() {
    let p = clean_plan(&opts(false, true), true, true, true);
    assert_eq!(p, CleanPlan { cache: false, types: true, whole_dir: false });
}

#[test]
fn clean_both_plan() {
    let p = clean_plan(&opts(true, true), true, true, true);
    assert_eq!(p, CleanPlan { cache: true, types: true, whole_dir: true });
    let missing_cache = clean_plan(&opts(true, true), false, true, true);
    assert_eq!(missing_cache, CleanPlan { cache: false, types: true, whole_dir: true });
}

#[test]
fn clean_nothing_exists() {
    let p = clean_plan(&opts(true, true), false, false, false);
    assert!(!p.cache);
    assert!(!p.types);
    assert!(!p.whole_dir);
}

#[test]
fn clean_result_reports_removed_parts() {
    let plan = clean_plan(&opts(true, false), true, true, true);
    let r = clean_result(plan, 120, 40);
    assert!(r.cache_removed);
    assert!(!r.types_removed);
    assert_eq!((r.cache_size, r.types_size), (120, 0));
}

#[test]
fn scaffold_and_init_messages() {
    assert_eq!(not_empty_message("my-app"), "directory 'my-app' is not empty");
    assert_eq!(
        config_exists_message(),
        "husako.toml already exists. Use 'husako new <dir>' to create a new project."
    );
}

#[test]
fn tsconfig_paths_without_charts() {
    let p = tsconfig_paths(false, &Vec::new());
    assert_eq!(
        p,
        vec![
            ("husako".to_string(), ".husako/types/husako.d.ts".to_string()),
            ("husako/_base".to_string(), ".husako/types/husako/_base.d.ts".to_string()),
            ("k8s/*".to_string(), ".husako/types/k8s/*".to_string()),
        ]
    );
}

#[test]
fn tsconfig_paths_with_charts_and_plugins() {
    let plugins = vec![
        ("flux".to_string(), ".husako/plugins/flux/index.d.ts".to_string()),
        ("husako".to_string(), "custom.d.ts".to_string()),
    ];
    let p = tsconfig_paths(true, &plugins);
    assert_eq!(p.len(), 5);
    assert_eq!(p[0], ("husako".to_string(), "custom.d.ts".to_string()));
    assert_eq!(p[3], ("helm/*".to_string(), ".husako/types/helm/*".to_string()));
    assert_eq!(p[4], ("flux".to_string(), ".husako/plugins/flux/index.d.ts".to_string()));
}

#[test]
fn exit_codes_per_failure() {
    use_exit_codes();
}

fn use_exit_codes() {
    let cases = [
        (FailureKind::Io, 1),
        (FailureKind::Config, 2),
        (FailureKind::Compile, 3),
        (FailureKind::RuntimeFailure, 4),
        (FailureKind::Dts, 5),
        (FailureKind::OpenApi, 6),
        (FailureKind::Chart, 6),
        (FailureKind::RuntimeOutput, 7),
        (FailureKind::Emit, 7),
        (FailureKind::Validation, 7),
    ];
    for (kind, code) in cases {
        assert_eq!(exit_code(kind), code);
    }
}

// The checks of `clean` and `init`, on the decisions the library makes
// for the directories and files they found.

#[test]
fn clean_cache_only() {
    let plan = clean_plan(&opts(true, false), true, true, true);
    let result = clean_result(plan, 4, 5);
    assert!(result.cache_removed);
    assert!(!result.types_removed);
    // only the cache directory goes; the types stay
    assert!(plan.cache && !plan.types && !plan.whole_dir);
}

#[test]
fn clean_types_only() {
    let plan = clean_plan(&opts(false, true), true, true, true);
    let result = clean_result(plan, 0, 5);
    assert!(!result.cache_removed);
    assert!(result.types_removed);
    assert!(!plan.cache && plan.types && !plan.whole_dir);
}

#[test]
fn clean_both() {
    let plan = clean_plan(&opts(true, true), true, true, true);
    let result = clean_result(plan, 0, 0);
    assert!(result.cache_removed);
    assert!(result.types_removed);
    // the whole .husako/ directory goes, leftover plugins included
    assert!(plan.whole_dir);
}

#[test]
fn init_error_if_config_exists() {
    assert!(config_exists_message().contains("already exists"));
}

#[test]
fn init_appends_gitignore() {
    let content = gitignore_update("node_modules/\n").unwrap();
    assert!(content.contains("node_modules/"));
    assert!(content.contains(".husako/"));
}

#[test]
fn init_skips_gitignore_if_husako_present() {
    let before = ".husako/\n";
    let content = gitignore_update(before).unwrap_or_else(|| before.to_string());
    assert_eq!(content.matches(".husako/").count(), 1);
}

#[test]
fn scaffold_replaces_k8s_version_placeholder() {
    let template = "[resources]\nkubernetes = { source = \"release\", version = \"%K8S_VERSION%\" }\n";
    let config = config_text(template, "1.32");
    assert!(config.contains("version = \"1.32\""));
    assert!(!config.contains("%K8S_VERSION%"));
}

#[test]
fn init_replaces_k8s_version_placeholder() {
    let template = "[resources]\nkubernetes = { source = \"release\", version = \"%K8S_VERSION%\" }\n";
    let config = config_text(template, "1.33");
    assert!(config.contains("version = \"1.33\""));
    assert!(!config.contains("%K8S_VERSION%"));
}

#[test]
fn scaffold_rejects_nonempty_dir() {
    assert!(not_empty_message("/tmp/x/my-app").contains("not empty"));
}

#[test]
fn generate_without_charts_no_helm_path() {
    let paths = tsconfig_paths(false, &Vec::new());
    assert!(paths.iter().all(|(k, _)| k != "helm/*"));
}
