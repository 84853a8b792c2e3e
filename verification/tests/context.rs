use build_eips::config::{FileProbe, WorkspaceConfig};
use build_eips::find_root::{
    explicit_root, find_root, is_root, resolve_input_path, workspace_search_start, RootError,
    RootFacts, WorkspaceCommandContext,
};
use build_eips::links::Canonical;

fn facts(has_git: bool, has_manifest: bool, has_content: bool) -> RootFacts {
    RootFacts { has_git, has_manifest, has_content }
}

#[test]
fn explicit_plain_directory_is_rejected_before_execution_manifest_loading() {
    let error = explicit_root(&Canonical::Found("/tmp/plain".to_owned()), facts(false, false, false))
        .unwrap_err()
        .message();

    assert_eq!(error, "invalid root directory");
    assert!(!error.contains("unable to load active repository Build.toml"));
    assert!(!error.contains("Build.toml"));
}

#[test]
fn explicit_nonexistent_root_reports_canonicalization_error() {
    let error = explicit_root(
        &Canonical::Missing("No such file or directory".to_owned()),
        facts(false, false, false),
    )
    .unwrap_err()
    .message();

    assert_eq!(error, "unable to canonicalize root directory");
}

#[test]
fn explicit_valid_root_is_accepted() {
    assert_eq!(
        explicit_root(&Canonical::Found("/tmp/repo".to_owned()), facts(false, true, true)).unwrap(),
        "/tmp/repo"
    );
}

#[test]
fn implicit_root_keeps_auto_discovery_behavior() {
    let dirs = vec!["/a/b/c".to_owned(), "/a/b".to_owned(), "/a".to_owned(), "/".to_owned()];
    let found = vec![
        facts(false, false, true),
        facts(true, false, true),
        facts(true, true, true),
        facts(false, false, false),
    ];
    assert_eq!(find_root(&dirs, &found).unwrap(), "/a/b");

    let none = vec![facts(false, false, true); 4];
    let error = find_root(&dirs, &none).unwrap_err();
    assert_eq!(error, RootError::NoRoot);
    assert!(!error.message().contains("invalid root directory"));
}

#[test]
fn roots_have_content_and_a_repository_or_a_manifest() {
    for has_git in [false, true] {
        for has_manifest in [false, true] {
            for has_content in [false, true] {
                assert_eq!(
                    is_root(facts(has_git, has_manifest, has_content)).is_ok(),
                    has_content && (has_git || has_manifest)
                );
            }
        }
    }
}

#[test]
fn only_repositories_with_content_are_found() {
    let dirs = vec!["/w/core/content".to_owned(), "/w/core".to_owned(), "/w".to_owned()];
    let manifest_only =
        vec![facts(false, false, false), facts(false, true, true), facts(true, false, true)];
    assert_eq!(find_root(&dirs, &manifest_only).unwrap(), "/w");
    assert!(is_root(manifest_only[1]).is_ok());

    for has_git in [false, true] {
        for has_manifest in [false, true] {
            for has_content in [false, true] {
                let one = vec![facts(has_git, has_manifest, has_content)];
                assert_eq!(
                    find_root(&vec!["/w".to_owned()], &one).is_ok(),
                    has_git && has_content
                );
            }
        }
    }
}

#[test]
fn input_paths_are_seen_from_the_current_directory() {
    assert_eq!(resolve_input_path("/abs", "/cwd"), "/abs");
    assert_eq!(resolve_input_path("rel/x", "/cwd"), "/cwd/rel/x");
    assert_eq!(resolve_input_path("..", "/cwd"), "/cwd/..");
}

#[test]
fn starter_settings_name_no_selection() {
    assert!(WorkspaceConfig::starter().render.only.is_empty());
}

#[test]
fn workspace_search_starts_where_it_is_told_to() {
    let found = Canonical::Found("/workspace/Core".to_owned());
    assert_eq!(workspace_search_start(true, &found).unwrap(), "/workspace/Core");
    assert_eq!(workspace_search_start(false, &found).unwrap(), "/workspace/Core");

    let missing = Canonical::Missing("gone".to_owned());
    let error = workspace_search_start(true, &missing).unwrap_err();
    assert_eq!(error, RootError::NoSearchPath("gone".to_owned()));
    assert_eq!(error.message(), "unable to canonicalize workspace search path");
    let error = workspace_search_start(false, &missing).unwrap_err();
    assert_eq!(error, RootError::NoCurrentDir("gone".to_owned()));
    assert_eq!(error.message(), "unable to get current directory");
}

#[test]
fn workspace_search_finds_the_nearest_config() {
    let probes = vec![FileProbe::Missing, FileProbe::Opened, FileProbe::Opened];
    let context = WorkspaceCommandContext::load("/workspace/Core".to_owned(), &probes);
    assert_eq!(context.search_from, "/workspace/Core");
    assert_eq!(context.config_path.as_deref(), Some("/workspace/.build-eips.toml"));

    let probes = vec![FileProbe::Missing, FileProbe::Missing, FileProbe::Missing];
    let context = WorkspaceCommandContext::load("/workspace/Core".to_owned(), &probes);
    assert_eq!(context.config_path, None);
}
