use build_eips::cli::{
    choose_changed, Args, ChangedFormat, EditorialCommand, EditorialSelectorArgs, Operation,
    SeparatorError, ServerCliArgs,
};
use build_eips::config::{
    ActiveRepo, Location, RepositoryUse, ServerBinding, ServerSettings, Theme,
};
use build_eips::editorial::editorial_runtime_execution;
use build_eips::execution::{ExecutionError, ResolvedExecution};
use build_eips::git::{CloneOutcome, Error, SourceMaterialization};
use build_eips::layout::{mounted_theme_path, output_path, theme_config_path};
use build_eips::pipeline::{PrepareStep, Prepared};
use build_eips::run::{lock_path, run, RunStep};
use build_eips::source::{materialize_dirty_tree, Fresh, SourceStep};
use build_eips::status::{StatusEntry, StatusKind};
use build_eips::sync::materialize_working_tree;
use build_eips::table::Table;
use build_eips::tree::{ObjectKind, TreeEntry};
use build_eips::workspace::{
    init_workspace, pins_theme, writes_config, InitStep, NewFile,
    WorkspaceInitToolingRepositories, PROPOSAL_TEMPLATE_URL,
};
use build_eips::zola::{
    find_zola, judge, log_line, mount_theme, serve_args, Error as ZolaError, LogLine, Mount,
    VersionProbe,
};

fn repository_use(siblings: &[(&str, &str)]) -> RepositoryUse {
    let mut other_repos = Table::new();
    for (id, url) in siblings {
        other_repos.insert(id.to_string(), url.to_string());
    }
    RepositoryUse {
        title: "EIPs".to_owned(),
        location: Location {
            repository: "file:///tmp/missing-upstream/".to_owned(),
            base_url: "https://example.test/EIPs/".to_owned(),
        },
        other_repos,
    }
}

fn resolved(materialization: SourceMaterialization) -> ResolvedExecution {
    ResolvedExecution {
        root_path: "/workspace/EIPs".to_owned(),
        build_path: "/workspace/.local-build/EIPs".to_owned(),
        repository_use: repository_use(&[]),
        theme_path: Some("/workspace/theme".to_owned()),
        only: None,
        source_materialization: materialization,
        server_binding: ServerBinding::from_settings(&ServerSettings::new()),
        base_url_override: None,
    }
}

fn texts(list: &[&str]) -> Vec<String> {
    list.iter().map(|text| text.to_string()).collect()
}

fn changed(path: &str) -> StatusEntry {
    StatusEntry {
        kind: StatusKind::Changed,
        head_to_index: None,
        index_to_workdir: None,
        path: Some(path.to_owned()),
    }
}

fn blob(prefix: &str, name: &str) -> TreeEntry {
    TreeEntry {
        prefix: prefix.to_owned(),
        name: Some(name.to_owned()),
        kind: ObjectKind::Blob,
        mode: 0o100644,
        id: "0".to_owned(),
    }
}

fn fetched(steps: &[SourceStep]) -> Vec<(String, String)> {
    steps
        .iter()
        .filter_map(|step| match step {
            SourceStep::Fetch { url, refspec } => Some((url.clone(), refspec.clone())),
            _ => None,
        })
        .collect()
}

#[test]
fn workspace_local_theme_dirty_edits_are_materialized_as_mounted_theme_for_zola() {
    let repo_path = "/workspace/.local-build/Core/repo";
    let mounted_theme_dir = mounted_theme_path(repo_path);
    let copied = materialize_working_tree(
        &mounted_theme_dir,
        &vec![blob("config/", "zola.toml"), blob("templates/", "index.html")],
        &vec![changed("templates/index.html")],
    );
    assert_eq!(copied.paths.unwrap(), ["config/zola.toml", "templates/index.html"]);
    assert_eq!(
        theme_config_path(&mounted_theme_dir),
        "/workspace/.local-build/Core/repo/themes/eips-theme/config/zola.toml"
    );

    let execution = ResolvedExecution {
        build_path: "/workspace/.local-build/Core".to_owned(),
        ..resolved(SourceMaterialization::Dirty)
    };
    let prepared =
        Prepared::new(execution, None, "/workspace/theme/.git/index".to_owned()).unwrap();
    assert_eq!(prepared.repo_path, repo_path);
    assert_eq!(prepared.theme_path, mounted_theme_dir);
    let sync = prepared.local_theme_sync.unwrap();
    assert_eq!(sync.theme_source_root, "/workspace/theme");
    assert_eq!(sync.mounted_theme_dir, mounted_theme_dir);
    assert!(sync.theme_index_path.ends_with(".git/index"));
}

#[test]
fn runtime_preparation_uses_workspace_local_theme_without_manifest_theme_network_access() {
    let plan = Prepared::prepare(&resolved(SourceMaterialization::Dirty));
    assert_eq!(plan.failure, None);
    let repo = "/workspace/.local-build/EIPs/repo".to_owned();
    let content = "/workspace/.local-build/EIPs/repo/content".to_owned();
    assert_eq!(
        plan.steps,
        [
            PrepareStep::FindZola,
            PrepareStep::CloneSource { root: "/workspace/EIPs".to_owned(), repo: repo.clone() },
            PrepareStep::MergeSiblings { repo },
            PrepareStep::Preprocess { content },
            PrepareStep::MaterializeTheme {
                from: "/workspace/theme".to_owned(),
                to: "/workspace/.local-build/EIPs/repo/themes/eips-theme".to_owned(),
            },
            PrepareStep::FindThemeIndex { theme: "/workspace/theme".to_owned() },
        ]
    );
}

#[test]
fn selections_are_planned_before_and_pruned_after_preprocessing() {
    let execution = ResolvedExecution { only: Some(Vec::new()), ..resolved(SourceMaterialization::Dirty) };
    let content = "/workspace/.local-build/EIPs/repo/content".to_owned();
    let steps = Prepared::prepare(&execution).steps;
    assert_eq!(
        steps[3..6],
        [
            PrepareStep::BuildPlan { content: content.clone() },
            PrepareStep::Preprocess { content: content.clone() },
            PrepareStep::Prune { content },
        ]
    );
}

#[test]
fn preparation_needs_a_theme() {
    let execution = ResolvedExecution { theme_path: None, ..resolved(SourceMaterialization::Dirty) };
    let plan = Prepared::prepare(&execution);
    assert_eq!(plan.steps, [PrepareStep::FindZola]);
    assert_eq!(plan.failure, Some(ExecutionError::NoRuntimeTheme));
    assert_eq!(
        Prepared::new(execution, None, String::new()).unwrap_err().message(),
        "Zola runtime requires a workspace-local theme path"
    );
}

#[test]
fn prepared_runtime_source_succeeds_with_unreachable_active_upstream() {
    let source = Fresh::new(
        "/workspace/EIPs",
        &vec![changed("content/00001.md")],
        repository_use(&[]),
        SourceMaterialization::Dirty,
    )
    .unwrap();
    let (steps, source) = source.clone_src();
    assert_eq!(
        fetched(&steps),
        [(
            "file:///workspace/EIPs/".to_owned(),
            "+HEAD:refs/build-eips/source-head".to_owned()
        )]
    );
    assert_eq!(
        steps.last(),
        Some(&SourceStep::MaterializeDirty { source_root: "/workspace/EIPs".to_owned() })
    );
    assert!(source.merge().is_empty());
}

#[test]
fn prepared_runtime_source_uses_remote_siblings_without_active_upstream_fetch() {
    let source = Fresh::new(
        "/workspace/EIPs",
        &Vec::new(),
        repository_use(&[
            ("ERCs", "file:///workspace/ERCs/"),
            ("Other", "https://example.test/o.git"),
        ]),
        SourceMaterialization::Dirty,
    )
    .unwrap();
    let merges = source.clone_src().1.merge();

    assert_eq!(merges.len(), 2);
    assert_eq!(merges[0].id, "ERCs");
    assert_eq!(merges[0].url, "file:///workspace/ERCs/");
    assert_eq!(merges[0].reference, "refs/build-eips/other-head-0");
    assert_eq!(merges[0].refspec, "+HEAD:refs/build-eips/other-head-0");
    assert_eq!(merges[0].message, "Merge file:///workspace/ERCs/");
    assert_eq!(merges[1].refspec, "+master:refs/build-eips/other-head-1");
}

#[test]
fn clean_runtime_source_prep_keeps_local_active_checkout() {
    let (steps, _) = Fresh::new(
        "/workspace/EIPs",
        &Vec::new(),
        repository_use(&[]),
        SourceMaterialization::Clean,
    )
    .unwrap()
    .clone_src();
    assert_eq!(
        steps[1..],
        [SourceStep::DetachHead, SourceStep::SetBranch, SourceStep::Checkout]
    );
    assert_eq!(fetched(&steps)[0].0, "file:///workspace/EIPs/");
}

#[test]
fn clean_sources_have_no_changes_and_an_address() {
    assert!(matches!(
        Fresh::new(
            "/workspace/EIPs",
            &vec![changed("a")],
            repository_use(&[]),
            SourceMaterialization::Clean,
        ),
        Err(Error::Dirty { .. })
    ));
    assert_eq!(
        Fresh::new("relative", &Vec::new(), repository_use(&[]), SourceMaterialization::Clean)
            .unwrap_err()
            .message(),
        "cannot convert path into URL (`relative`)"
    );
}

#[test]
fn dirty_trees_are_committed_where_something_changed() {
    let untracked = StatusEntry { kind: StatusKind::Untracked, ..changed("u") };
    let kept = materialize_dirty_tree(&vec![untracked.clone()]).unwrap();
    assert!(kept.untracked && kept.commit.is_none());
    let made = materialize_dirty_tree(&vec![changed("b"), changed("a"), changed("build/x")]);
    let made = made.unwrap();
    assert!(!made.untracked);
    assert_eq!(made.commit.unwrap(), ["a", "b"]);
    let conflict = StatusEntry { kind: StatusKind::Conflicted, ..changed("c") };
    assert!(materialize_dirty_tree(&vec![conflict]).is_err());
}

#[test]
fn changed_still_requires_active_upstream() {
    let source = Fresh::new(
        "/workspace/EIPs",
        &Vec::new(),
        repository_use(&[]),
        SourceMaterialization::Clean,
    )
    .unwrap();
    let (step, source) = source.clone_src().1.fetch_upstream();
    assert_eq!(
        step,
        SourceStep::Fetch {
            url: "file:///tmp/missing-upstream/".to_owned(),
            refspec: "+master:refs/build-eips/upstream-head".to_owned(),
        }
    );
    let deltas = vec![Some("content/00001.md".to_owned()), None, Some("README.md".to_owned())];
    assert_eq!(source.changed_files(&deltas), ["content/00001.md", "README.md"]);
    assert!(source.merge().is_empty());
}

#[test]
fn editorial_check_site_phase_source_prep_does_not_fetch_active_upstream() {
    let selectors = EditorialSelectorArgs {
        paths: Vec::new(),
        batch: None,
        working_tree: false,
        against_upstream: true,
    };
    let execution = editorial_runtime_execution(resolved(SourceMaterialization::Dirty), &selectors);
    assert_eq!(execution.source_materialization, SourceMaterialization::Dirty);
    let (steps, _) = Fresh::new(
        &execution.root_path,
        &Vec::new(),
        execution.repository_use,
        execution.source_materialization,
    )
    .unwrap()
    .clone_src();
    assert_eq!(fetched(&steps).len(), 1);
    assert_eq!(fetched(&steps)[0].0, "file:///workspace/EIPs/");
}

fn prepared(base_url: Option<&str>) -> Prepared {
    let execution = ResolvedExecution {
        base_url_override: base_url.map(|text| text.to_owned()),
        ..resolved(SourceMaterialization::Dirty)
    };
    Prepared::new(execution, None, "/workspace/theme/.git/index".to_owned()).unwrap()
}

const CONFIG: &str = "/workspace/.local-build/EIPs/repo/themes/eips-theme/config/zola.toml";

#[test]
fn sites_are_rendered_for_their_address() {
    let output = "/workspace/.local-build/EIPs/output";
    let call = prepared(None).build();
    assert_eq!(
        call.args,
        ["-c", CONFIG, "build", "--drafts", "-u", "https://example.test/EIPs/", "-o", output]
    );
    assert_eq!(call.mount, Mount::InPlace);
    assert_eq!(call.remove_output.as_deref(), Some(output));
    assert_eq!(call.project_path, "/workspace/.local-build/EIPs/repo");
    assert_eq!(prepared(Some("http://x/")).build().args[5], "http://x/");
    assert_eq!(output_path("/workspace/.local-build/EIPs"), output);
}

#[test]
fn sites_are_checked_without_output() {
    let call = prepared(None).check();
    assert_eq!(call.args, ["-c", CONFIG, "check", "--drafts", "--skip-external-links"]);
    assert_eq!(call.remove_output, None);
}

#[test]
fn sites_are_served_where_they_are_bound() {
    let (sync, call) = prepared(None).serve();
    assert!(sync.has_targets() && sync.active_repo.is_some() && sync.local_theme.is_some());
    assert_eq!(
        call.args[2..],
        [
            "serve",
            "--drafts",
            "--fast",
            "--force",
            "--interface",
            "127.0.0.1",
            "--port",
            "1111",
            "-u",
            "https://example.test/EIPs/",
            "--no-port-append",
            "-o",
            "/workspace/.local-build/EIPs/output",
        ]
    );
    let (_, call) = prepared(Some("http://127.0.0.1:3000/")).serve();
    assert_eq!(call.args[10..13], ["-u", "http://127.0.0.1:3000/", "--no-port-append"]);

    let binding = ServerBinding { interface: "::1".to_owned(), port: 80 };
    assert_eq!(
        serve_args(&binding, "/o", &Some("http://x/".to_owned()))[5..],
        ["::1", "--port", "80", "-u", "http://x/", "--no-port-append", "-o", "/o"]
    );
    assert_eq!(serve_args(&binding, "/o", &None)[5..], ["::1", "--port", "80", "-o", "/o"]);
}

#[test]
fn themes_elsewhere_are_linked() {
    assert_eq!(
        mount_theme("/theme", "/p"),
        Mount::Link {
            parent: Some("/p/themes".to_owned()),
            link: "/p/themes/eips-theme".to_owned(),
        }
    );
    assert_eq!(mount_theme("/p/./themes//eips-theme/", "/p"), Mount::InPlace);
}

fn version(output: &str) -> Result<(), ZolaError> {
    find_zola(&VersionProbe::Output(output.to_owned()))
}

#[test]
fn site_generators_must_be_new_enough() {
    for good in ["zola 0.22.1", "zola 0.22.1\n", "zola 0.23.0", "zola 1.0.0-rc.1", "zola 0.22.1+b"] {
        assert_eq!(version(good), Ok(()), "{good}");
    }
    for bad in ["0.22.0", "0.21.9", "0.22.1-alpha", "0.0.1"] {
        assert_eq!(
            version(&format!("zola {bad}\n")).unwrap_err().message(),
            format!("installed zola version is too old (requires at least 0.22.1, got {bad})")
        );
    }
    for odd in ["", "1", "0.22", "0.22.01", "v1.0.0"] {
        assert!(matches!(version(&format!("zola {odd}")), Err(ZolaError::Semver { .. })), "{odd}");
    }
    let wanted = semver::Version::parse("x").unwrap_err().to_string();
    assert_eq!(version("zola x").unwrap_err().message(), wanted);
    assert_eq!(
        find_zola(&VersionProbe::NotFound("x".to_owned())).unwrap_err().message(),
        "could not find zola binary (requires at least version 0.22.1)"
    );
    assert_eq!(
        find_zola(&VersionProbe::Failed("x".to_owned())).unwrap_err().message(),
        "i/o error"
    );
    assert_eq!(judge("1.0.0".to_owned(), Ok(true)), Ok(()));
    assert_eq!(
        ZolaError::Fs { path: "/t".to_owned(), cause: "x".to_owned() }.message(),
        "i/o error while accessing `/t`"
    );
}

#[test]
fn lines_of_the_site_generator_are_sorted_by_kind() {
    assert_eq!(log_line(" \t\n"), LogLine::Nothing);
    assert_eq!(log_line("Warning: w\n"), LogLine::Warning("w".to_owned()));
    assert_eq!(log_line("  Error: e  \n"), LogLine::Error("e".to_owned()));
    assert_eq!(log_line("Done in 1s.\n"), LogLine::Info("Done in 1s.".to_owned()));
    assert_eq!(log_line("Error:x"), LogLine::Info("Error:x".to_owned()));
}

fn args(operation: Operation) -> Args {
    Args { root: None, build_root: None, remote_siblings: false, clean: false, operation }
}

#[test]
fn runs_work_under_the_lock_of_their_build() {
    let server = ServerCliArgs { interface: None, port: None };
    let selectors = EditorialSelectorArgs {
        paths: Vec::new(),
        batch: None,
        working_tree: true,
        against_upstream: false,
    };
    let steps = |operation: Operation| run(&args(operation)).unwrap();
    assert_eq!(
        steps(Operation::Check),
        [
            RunStep::Resolve,
            RunStep::MakeBuildDir,
            RunStep::Lock,
            RunStep::Prepare,
            RunStep::Check,
            RunStep::Unlock,
        ]
    );
    assert_eq!(
        steps(Operation::Editorial { command: EditorialCommand::Check(selectors.clone()) })[3..6],
        [RunStep::EditorialLint, RunStep::PrepareEditorial, RunStep::Check]
    );
    assert_eq!(
        steps(Operation::Editorial { command: EditorialCommand::Lint(selectors) })[3..],
        [RunStep::EditorialLint, RunStep::Unlock]
    );
    assert_eq!(
        steps(Operation::Clean)[2..],
        [RunStep::Lock, RunStep::Unlock, RunStep::RemoveBuildDir]
    );
    assert_eq!(
        steps(Operation::Preview { server: server.clone() }),
        [RunStep::Resolve, RunStep::Preview]
    );
    assert_eq!(
        steps(Operation::Serve { only: Vec::new(), base_url: None, server })[3..5],
        [RunStep::Prepare, RunStep::Serve]
    );
    assert_eq!(
        steps(Operation::Build { only: Vec::new(), base_url: None })[4],
        RunStep::Build
    );
    assert_eq!(
        steps(Operation::Changed { all: true, format: ChangedFormat::Json })[3],
        RunStep::ListChanged
    );
    assert_eq!(steps(Operation::Print), [RunStep::Print]);
    assert_eq!(steps(Operation::Doctor), [RunStep::Doctor]);
    assert_eq!(
        run(&Args { remote_siblings: true, ..args(Operation::Print) }),
        Err(ExecutionError::PrintFlags)
    );
    assert_eq!(lock_path("/b"), "/b/.lock");
}

fn tooling() -> WorkspaceInitToolingRepositories {
    WorkspaceInitToolingRepositories {
        template: PROPOSAL_TEMPLATE_URL.to_owned(),
        preprocessor: "https://example.test/preprocessor.git".to_owned(),
        eipw: "https://example.test/eipw.git".to_owned(),
    }
}

fn active() -> ActiveRepo {
    ActiveRepo {
        title: "EIPs".to_owned(),
        sibling_ids: vec!["ERCs".to_owned()],
        repository_use: repository_use(&[("ERCs", "https://example.test/ERCs.git")]),
        theme: Theme {
            repository: "https://example.test/theme.git".to_owned(),
            commit: "abc".to_owned(),
        },
    }
}

#[test]
fn workspaces_hold_siblings_theme_and_settings() {
    let steps = init_workspace(&active(), "/w", &tooling(), false, false);
    assert_eq!(
        steps,
        [
            InitStep::Clone {
                url: "https://example.test/ERCs.git".to_owned(),
                path: "/w/ERCs".to_owned(),
                context: "unable to prepare workspace sibling repo `ERCs` at `/w/ERCs`; destination must be missing or a usable git repository".to_owned(),
            },
            InitStep::Clone {
                url: "https://example.test/theme.git".to_owned(),
                path: "/w/theme".to_owned(),
                context: "unable to prepare workspace theme repo at `/w/theme`; destination must be missing or a usable git repository".to_owned(),
            },
            InitStep::PinFresh {
                url: "https://example.test/theme.git".to_owned(),
                path: "/w/theme".to_owned(),
                commit: "abc".to_owned(),
                context: "unable to fetch or check out active Build.toml theme commit `abc`".to_owned(),
            },
            InitStep::CreateDir { path: "/w/.local-build".to_owned() },
            InitStep::WriteConfig { path: "/w/.build-eips.toml".to_owned() },
            InitStep::WriteDoc {
                path: "/w/WORKSPACE.md".to_owned(),
                context: "unable to write workspace document `/w/WORKSPACE.md`".to_owned(),
            },
        ]
    );
}

#[test]
fn workspaces_get_the_tools_that_were_asked_for() {
    let cloned = |template: bool, platform_dev: bool| -> Vec<String> {
        init_workspace(&active(), "/w", &tooling(), template, platform_dev)
            .into_iter()
            .filter_map(|step| match step {
                InitStep::Clone { path, .. } => Some(path),
                _ => None,
            })
            .skip(2)
            .collect()
    };
    assert_eq!(cloned(true, false), ["/w/template"]);
    assert_eq!(cloned(false, true), ["/w/preprocessor", "/w/eipw"]);
    assert_eq!(cloned(true, true).len(), 3);
}

#[test]
fn what_a_workspace_has_stays() {
    assert!(pins_theme(CloneOutcome::Fresh) && !pins_theme(CloneOutcome::Existing));
    assert_eq!(writes_config(&NewFile::Created), Ok(true));
    assert_eq!(writes_config(&NewFile::Exists), Ok(false));
    assert_eq!(writes_config(&NewFile::Failed("x".to_owned())), Err("x".to_owned()));
}

#[test]
fn changed_files_are_listed_from_the_repository() {
    let files = texts(&["content/00001.md", "README.md", "content/00002/index.md"]);
    let chosen = choose_changed(&files, "/b/repo", false);
    assert_eq!(chosen, ["/b/repo/content/00001.md", "/b/repo/content/00002/index.md"]);
    assert_eq!(choose_changed(&files, "/b/repo", true).len(), 3);
    assert_eq!(
        ChangedFormat::Newline.print(&chosen, "/b/repo").unwrap(),
        "content/00001.md\ncontent/00002/index.md\n"
    );
    assert_eq!(
        ChangedFormat::Nul.print(&chosen, "/b/repo").unwrap(),
        "content/00001.md\0content/00002/index.md\n"
    );
    assert_eq!(
        ChangedFormat::Json.print(&texts(&["/b/repo/a\"b", "/c"]), "/b/repo").unwrap(),
        "[\n  \"a\\\"b\",\n  \"/c\"\n]"
    );
    assert_eq!(
        ChangedFormat::Newline.print(&texts(&["/b/repo/a\nb"]), "/b/repo"),
        Err(SeparatorError { path: "a\nb".to_owned() })
    );
}
