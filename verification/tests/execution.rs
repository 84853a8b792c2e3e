use build_eips::cli::{
    Args, ChangedFormat, EditorialCommand, EditorialSelector, EditorialSelectorArgs, Operation,
    ServerCliArgs,
};
use build_eips::config::{
    LoadedWorkspaceConfig, Location, RenderSettings, RepositoryUse, ServerBinding, ServerSettings,
    SiteSettings, WorkspaceConfig,
};
use build_eips::execution::{
    apply_sibling_sources, check_active_source, dedupe_only_numbers, format_sibling_ids,
    resolve_checkout, resolve_execution, resolve_execution_settings, resolve_only_selection,
    resolve_server_binding, resolve_theme_path, validate_non_execution_command_flags,
    CheckoutError, ExecutionError, ExecutionFacts, ResolvedExecution, SelectedSource, ThemeProbe,
    CLEAN_SOURCE_MESSAGE,
};
use build_eips::git::SourceMaterialization;
use build_eips::proposal::ProposalNumber;
use build_eips::status::{Delta, StatusEntry, StatusKind};
use build_eips::table::Table;

fn args(operation: Operation) -> Args {
    Args { root: None, build_root: None, remote_siblings: false, clean: false, operation }
}

fn server() -> ServerCliArgs {
    ServerCliArgs { interface: None, port: None }
}

fn numbers(list: &[u32]) -> Vec<ProposalNumber> {
    list.iter().map(|value| ProposalNumber::from_u32(*value).unwrap()).collect()
}

fn selectors(list: &[&str]) -> Vec<ProposalNumber> {
    list.iter().map(|text| ProposalNumber::parse_cli_selector(text).unwrap()).collect()
}

fn build(only: Vec<ProposalNumber>) -> Operation {
    Operation::Build { only, base_url: None }
}

fn serve(only: Vec<ProposalNumber>) -> Operation {
    Operation::Serve { only, base_url: None, server: server() }
}

fn changed() -> Operation {
    Operation::Changed { all: false, format: ChangedFormat::Newline }
}

fn editorial() -> EditorialSelectorArgs {
    EditorialSelectorArgs {
        paths: vec![EditorialSelector::Text("content/0001.md".to_owned())],
        batch: None,
        working_tree: false,
        against_upstream: false,
    }
}

fn workspace(config: WorkspaceConfig) -> LoadedWorkspaceConfig {
    LoadedWorkspaceConfig::new("/workspace/.build-eips.toml".to_owned(), config)
}

fn rendering(only: &[u32]) -> LoadedWorkspaceConfig {
    workspace(WorkspaceConfig {
        render: RenderSettings { only: numbers(only) },
        ..WorkspaceConfig::new()
    })
}

fn only_selection_for(
    operation: Operation,
    workspace_config: Option<&LoadedWorkspaceConfig>,
) -> Option<Vec<u32>> {
    let args = args(operation);
    let settings =
        resolve_execution_settings(&args, None, &Vec::new(), workspace_config.is_some()).unwrap();
    resolve_only_selection(&args, &settings, workspace_config)
        .unwrap()
        .map(|numbers| numbers.into_iter().map(|number| number.get()).collect())
}

fn repository_use(siblings: &[(&str, &str)]) -> RepositoryUse {
    let mut other_repos = Table::new();
    for (id, url) in siblings {
        other_repos.insert(id.to_string(), url.to_string());
    }
    RepositoryUse {
        title: "Core".to_owned(),
        location: Location {
            repository: "file:///workspace/Core/".to_owned(),
            base_url: "https://example.test/Core/".to_owned(),
        },
        other_repos,
    }
}

fn resolved(
    args: &Args,
    siblings: &[(&str, &str)],
    available: &[bool],
    workspace: Option<&LoadedWorkspaceConfig>,
) -> Result<ResolvedExecution, ExecutionError> {
    let sibling_ids: Vec<String> = siblings.iter().map(|sibling| sibling.0.to_owned()).collect();
    resolve_execution(
        args,
        repository_use(siblings),
        ExecutionFacts {
            root_path: "/workspace/Core",
            build_root: args.build_root.clone(),
            sibling_ids: &sibling_ids,
            available: &available.to_vec(),
            workspace,
            theme: &ThemeProbe::Present,
        },
    )
}

fn other_repo(resolved: &ResolvedExecution, id: &str) -> String {
    let others = &resolved.repository_use.other_repos;
    others.entry(others.find(id).unwrap()).1.clone()
}

#[test]
fn server_binding_resolution_uses_cli_config_then_defaults() {
    assert_eq!(
        resolve_server_binding(None, Some(&server())),
        ServerBinding { interface: "127.0.0.1".to_owned(), port: 1111 }
    );

    let workspace_config = workspace(WorkspaceConfig {
        server: ServerSettings { interface: "0.0.0.0".to_owned(), port: 8080 },
        ..WorkspaceConfig::new()
    });

    assert_eq!(
        resolve_server_binding(Some(&workspace_config), Some(&server())),
        ServerBinding { interface: "0.0.0.0".to_owned(), port: 8080 }
    );
    assert_eq!(
        resolve_server_binding(
            Some(&workspace_config),
            Some(&ServerCliArgs { interface: Some("127.0.0.1".to_owned()), port: Some(4000) }),
        ),
        ServerBinding { interface: "127.0.0.1".to_owned(), port: 4000 }
    );
    assert_eq!(
        resolve_server_binding(
            Some(&workspace_config),
            Some(&ServerCliArgs { interface: None, port: Some(4000) }),
        ),
        ServerBinding { interface: "0.0.0.0".to_owned(), port: 4000 }
    );
}

#[test]
fn non_theme_commands_do_not_require_workspace_local_theme() {
    for operation in [
        changed(),
        Operation::Clean,
        Operation::Preview { server: server() },
        Operation::Doctor,
        Operation::Print,
    ] {
        assert!(resolve_theme_path(None, &operation, &ThemeProbe::Missing).unwrap().is_none());
    }
}

#[test]
fn only_selection_dedupes_and_cli_replaces_config() {
    let workspace_config = rendering(&[678, 555, 678]);

    assert_eq!(
        only_selection_for(build(Vec::new()), Some(&workspace_config)).unwrap(),
        vec![555, 678]
    );
    assert_eq!(
        only_selection_for(build(selectors(&["00555", "555", "897"])), Some(&workspace_config))
            .unwrap(),
        vec![555, 897]
    );
    assert_eq!(
        only_selection_for(serve(Vec::new()), Some(&workspace_config)).unwrap(),
        vec![555, 678]
    );
    assert_eq!(
        only_selection_for(serve(selectors(&["00555", "555", "897"])), Some(&workspace_config))
            .unwrap(),
        vec![555, 897]
    );
}

#[test]
fn missing_render_config_and_empty_only_disable_filtering() {
    let missing_render = workspace(WorkspaceConfig::new());
    let empty_only = rendering(&[]);

    assert!(only_selection_for(build(Vec::new()), Some(&missing_render)).is_none());
    assert!(only_selection_for(build(Vec::new()), Some(&empty_only)).is_none());
    assert!(only_selection_for(serve(Vec::new()), Some(&missing_render)).is_none());
    assert!(only_selection_for(serve(Vec::new()), Some(&empty_only)).is_none());
    assert!(only_selection_for(build(Vec::new()), None).is_none());
    assert_eq!(dedupe_only_numbers(&Vec::new()), None);
}

#[test]
fn local_first_theme_commands_without_workspace_config_report_combined_setup_error() {
    for operation in [
        build(Vec::new()),
        serve(Vec::new()),
        Operation::Check,
        Operation::Editorial { command: EditorialCommand::Lint(editorial()) },
        Operation::Editorial { command: EditorialCommand::Check(editorial()) },
    ] {
        let message =
            resolve_execution_settings(&args(operation), None, &vec!["ERCs".to_owned()], false)
                .unwrap_err()
                .message();

        assert!(message.contains(
            "the selected command requires a workspace config with local theme and sibling sources"
        ));
        assert!(message.contains("no `.build-eips.toml` was found"));
        assert!(message.contains("build-eips init <workspace-root>"));
        assert!(message.contains(
            "pass `--remote-siblings` if you intentionally want remote sibling proposal sources"
        ));
        assert!(!message.contains("--remote-theme"));
        assert!(!message.contains("--profile"));
        assert!(!message.contains("--allow-dirty"));
        assert!(!message.contains("--theme <path>"));
        assert!(!message.contains("--sibling-repo <path>"));
    }
}

fn assert_theme_only_missing_workspace_error(operation: &Operation) {
    let message =
        resolve_theme_path(None, operation, &ThemeProbe::Missing).unwrap_err().message();

    assert!(message.contains(
        "the selected command requires a workspace config with a local theme, but no `.build-eips.toml` was found"
    ));
    assert!(message.contains("build-eips init <workspace-root>"));
    assert!(!message.contains("theme and sibling"));
    assert!(!message.contains("--remote-theme"));
}

#[test]
fn zero_sibling_local_first_without_workspace_config_only_requires_theme_resolution() {
    let args = args(build(Vec::new()));
    let settings = resolve_execution_settings(&args, None, &Vec::new(), false).unwrap();

    assert_eq!(settings.sibling, SelectedSource::WorkspaceLocal);
    assert_theme_only_missing_workspace_error(&args.operation);
}

#[test]
fn remote_sibling_override_without_workspace_config_only_requires_theme_resolution() {
    let args = Args { remote_siblings: true, ..args(build(Vec::new())) };
    let settings =
        resolve_execution_settings(&args, None, &vec!["ERCs".to_owned()], false).unwrap();

    assert_eq!(settings.sibling, SelectedSource::Remote);
    assert_theme_only_missing_workspace_error(&args.operation);
}

#[test]
fn missing_workspace_theme_path_reports_clear_error() {
    let workspace_config = workspace(WorkspaceConfig::new());

    let message =
        resolve_theme_path(Some(&workspace_config), &build(Vec::new()), &ThemeProbe::Missing)
            .unwrap_err()
            .message();

    assert!(message.contains("workspace-local theme path `/workspace/theme` does not exist"));
    assert!(message.contains("build-eips init <workspace-root>"));
}

fn dirty_manifest() -> Vec<StatusEntry> {
    vec![StatusEntry {
        kind: StatusKind::Changed,
        head_to_index: None,
        index_to_workdir: Some(Delta {
            old: Some("Build.toml".to_owned()),
            new: Some("Build.toml".to_owned()),
        }),
        path: Some("Build.toml".to_owned()),
    }]
}

fn assert_dirty_manifest_is_rejected(args: &Args) {
    let error = check_active_source(args, &dirty_manifest()).unwrap_err();

    assert_eq!(CLEAN_SOURCE_MESSAGE, "clean active-source mode requires a clean active checkout");
    assert!(error.message().contains("Build.toml"));
    assert!(check_active_source(args, &Vec::new()).is_ok());

    let workspace_config = workspace(WorkspaceConfig::starter());
    match checked_out(args, &dirty_manifest(), Some(&workspace_config)) {
        Err(CheckoutError::Dirty { message, cause }) => {
            assert!(message.contains("clean active-source mode requires a clean active checkout"));
            assert!(cause.message().contains("Build.toml"));
        }
        _ => panic!("a dirty manifest was accepted"),
    }
    assert!(checked_out(args, &Vec::new(), Some(&workspace_config)).is_ok());
    assert!(matches!(
        resolve_checkout(args, &dirty_manifest(), Err("no manifest")),
        Err(CheckoutError::Dirty { .. })
    ));
    assert!(matches!(
        resolve_checkout(args, &Vec::new(), Err("no manifest")),
        Err(CheckoutError::Unread("no manifest"))
    ));
}

fn checked_out(
    args: &Args,
    entries: &Vec<StatusEntry>,
    workspace: Option<&LoadedWorkspaceConfig>,
) -> Result<ResolvedExecution, CheckoutError<String>> {
    let facts = ExecutionFacts {
        root_path: "/workspace/Core",
        build_root: None,
        sibling_ids: &Vec::new(),
        available: &Vec::new(),
        workspace,
        theme: &ThemeProbe::Present,
    };
    resolve_checkout(args, entries, Ok((repository_use(&[]), facts)))
}

#[test]
fn faults_of_a_run_come_behind_changes() {
    let clean = Args { clean: true, ..args(build(Vec::new())) };
    assert!(matches!(
        checked_out(&clean, &dirty_manifest(), None),
        Err(CheckoutError::Dirty { .. })
    ));
    match checked_out(&clean, &Vec::new(), None) {
        Err(CheckoutError::Execution(error)) => {
            assert_eq!(error, ExecutionError::MissingThemeConfig);
        }
        _ => panic!("a run without a theme was accepted"),
    }
    let workspace_config = workspace(WorkspaceConfig::starter());
    let dirty = checked_out(&args(build(Vec::new())), &dirty_manifest(), Some(&workspace_config));
    assert!(matches!(
        dirty,
        Ok(ResolvedExecution { source_materialization: SourceMaterialization::Dirty, .. })
    ));
}

#[test]
fn dirty_build_toml_is_rejected_for_clean_mode() {
    assert_dirty_manifest_is_rejected(&Args { clean: true, ..args(build(Vec::new())) });
}

#[test]
fn dirty_build_toml_is_rejected_for_changed() {
    assert_dirty_manifest_is_rejected(&args(changed()));
}

#[test]
fn dirty_build_toml_is_rejected_for_clean_remote_siblings() {
    assert_dirty_manifest_is_rejected(&Args {
        clean: true,
        remote_siblings: true,
        ..args(build(Vec::new()))
    });
}

#[test]
fn default_builds_accept_a_dirty_checkout() {
    assert!(check_active_source(&args(build(Vec::new())), &dirty_manifest()).is_ok());
}

#[test]
fn execution_commands_discover_workspace_config_from_active_repo_root() {
    let workspace_config = workspace(WorkspaceConfig::starter());
    let resolved = resolved(&args(build(Vec::new())), &[], &[], Some(&workspace_config)).unwrap();

    assert_eq!(resolved.build_path, "/workspace/.local-build/Core");
    assert_eq!(resolved.source_materialization, SourceMaterialization::Dirty);
}

#[test]
fn base_url_precedence_uses_cli_then_workspace_then_active_manifest() {
    let plain = workspace(WorkspaceConfig::new());
    let fallback = resolved(&args(build(Vec::new())), &[], &[], Some(&plain)).unwrap();
    assert!(fallback.base_url_override.is_none());
    assert_eq!(fallback.repository_use.location.base_url, "https://example.test/Core/");

    let with_site = workspace(WorkspaceConfig {
        site: SiteSettings { base_url: Some("http://workspace.test/".to_owned()) },
        ..WorkspaceConfig::new()
    });
    let workspace_override =
        resolved(&args(build(Vec::new())), &[], &[], Some(&with_site)).unwrap();
    assert_eq!(workspace_override.base_url_override.unwrap(), "http://workspace.test/");

    let given = Operation::Build {
        only: Vec::new(),
        base_url: Some("http://cli.test/".to_owned()),
    };
    let cli_override = resolved(&args(given), &[], &[], Some(&with_site)).unwrap();
    assert_eq!(cli_override.base_url_override.unwrap(), "http://cli.test/");
}

#[test]
fn build_root_override_wins_with_workspace_config() {
    let workspace_config = workspace(WorkspaceConfig::starter());
    let args = Args {
        build_root: Some("/tmp/override-build-root".to_owned()),
        ..args(build(Vec::new()))
    };

    let resolved = resolved(&args, &[], &[], Some(&workspace_config)).unwrap();

    assert_eq!(resolved.build_path, "/tmp/override-build-root");
}

#[test]
fn non_workspace_runtime_path_falls_back_to_active_repo_build_dir() {
    let resolved = resolved(&args(changed()), &[], &[], None).unwrap();

    assert_eq!(resolved.build_path, "/workspace/Core/build");
}

#[test]
fn non_theme_runtime_commands_resolve_without_workspace_config() {
    for operation in [changed(), Operation::Clean, Operation::Preview { server: server() }] {
        let resolved = resolved(&args(operation), &[], &[], None).unwrap();

        assert!(resolved.theme_path.is_none());
        assert_eq!(resolved.theme_path(), Err(ExecutionError::NoTheme));
    }
}

const SIBLINGS: [(&str, &str); 2] =
    [("EIPs", "file:///workspace/EIPs/"), ("ERCs", "file:///remotes/ERCs/")];

#[test]
fn workspace_local_sibling_mode_is_all_or_nothing() {
    let workspace_config = workspace(WorkspaceConfig::starter());

    let message =
        resolved(&args(build(Vec::new())), &SIBLINGS, &[true, false], Some(&workspace_config))
            .unwrap_err()
            .message();

    assert!(message.contains("requires all declared sibling repos"));
    assert!(message.contains("ERCs"));
}

#[test]
fn workspace_local_sources_resolve_from_standard_layout() {
    let workspace_config = workspace(WorkspaceConfig::starter());

    let resolved =
        resolved(&args(build(Vec::new())), &SIBLINGS, &[true, true], Some(&workspace_config))
            .unwrap();

    assert_eq!(resolved.theme_path.as_deref(), Some("/workspace/theme"));
    assert_eq!(other_repo(&resolved, "EIPs"), "file:///workspace/EIPs/");
    assert_eq!(other_repo(&resolved, "ERCs"), "file:///workspace/ERCs/");
}

#[test]
fn remote_siblings_keep_their_declared_repositories() {
    let workspace_config = workspace(WorkspaceConfig::starter());
    let args = Args { remote_siblings: true, ..args(build(Vec::new())) };

    let resolved = resolved(&args, &SIBLINGS, &[false, false], Some(&workspace_config)).unwrap();

    assert_eq!(other_repo(&resolved, "ERCs"), "file:///remotes/ERCs/");
}

#[test]
fn siblings_of_a_relative_workspace_have_no_address() {
    let relative = LoadedWorkspaceConfig::new(
        "workspace/.build-eips.toml".to_owned(),
        WorkspaceConfig::new(),
    );
    let mut others = Table::new();
    others.insert("ERCs".to_owned(), "https://example.test/".to_owned());

    assert_eq!(
        apply_sibling_sources(
            others,
            &vec!["ERCs".to_owned()],
            Some(&relative),
            &vec![true],
            SelectedSource::WorkspaceLocal,
        )
        .unwrap_err(),
        ExecutionError::SiblingUrl("workspace/ERCs".to_owned())
    );
}

#[test]
fn siblings_without_a_url_come_before_missing_ones() {
    let relative = LoadedWorkspaceConfig::new(
        "workspace/.build-eips.toml".to_owned(),
        WorkspaceConfig::new(),
    );
    let fault = |available: [bool; 3]| {
        apply_sibling_sources(
            Table::new(),
            &vec!["A".to_owned(), "B".to_owned(), "C".to_owned()],
            Some(&relative),
            &available.to_vec(),
            SelectedSource::WorkspaceLocal,
        )
        .unwrap_err()
    };
    let url = |id: &str| ExecutionError::SiblingUrl(format!("workspace/{id}"));
    assert_eq!(fault([false, true, true]), url("B"));
    assert_eq!(fault([true, false, false]), url("A"));
    assert_eq!(fault([false, false, true]), url("C"));
    assert_eq!(
        fault([false, false, false]),
        ExecutionError::MissingSiblings(vec!["A".to_owned(), "B".to_owned(), "C".to_owned()])
    );
}

#[test]
fn serve_applies_render_only_config_in_phase_two() {
    let workspace_config = rendering(&[555]);
    let resolved = resolved(&args(serve(Vec::new())), &[], &[], Some(&workspace_config)).unwrap();

    assert_eq!(
        resolved.only.unwrap().into_iter().map(|number| number.get()).collect::<Vec<_>>(),
        vec![555]
    );
}

#[test]
fn clean_runs_build_the_last_commit() {
    let workspace_config = workspace(WorkspaceConfig::new());
    for (clean, wanted) in
        [(true, SourceMaterialization::Clean), (false, SourceMaterialization::Dirty)]
    {
        let args = Args { clean, ..args(Operation::Check) };
        let resolved = resolved(&args, &[], &[], Some(&workspace_config)).unwrap();
        assert_eq!(resolved.source_materialization, wanted);
    }
}

#[test]
fn execution_flags_are_rejected_where_nothing_is_executed() {
    let init =
        Operation::Init { path: "..".to_owned(), template: false, platform_dev: false };
    let given = Args { build_root: Some("/tmp/b".to_owned()), ..args(init) };
    assert_eq!(
        validate_non_execution_command_flags(&given),
        Err(ExecutionError::LifecycleFlags)
    );
    let given = Args { remote_siblings: true, ..args(Operation::Print) };
    assert_eq!(validate_non_execution_command_flags(&given), Err(ExecutionError::PrintFlags));
    let given = Args { remote_siblings: true, ..args(Operation::Check) };
    assert!(validate_non_execution_command_flags(&given).is_ok());
    assert!(validate_non_execution_command_flags(&args(Operation::Doctor)).is_ok());
}

#[test]
fn sibling_names_are_listed_with_commas() {
    assert_eq!(format_sibling_ids(&vec!["EIPs".to_owned(), "ERCs".to_owned()]), "EIPs, ERCs");
}
