use build_eips::git::SourceMaterialization;
use build_eips::links::{Canonical, LinkContext};
use build_eips::only::{ContentMarkdown, OnlyRenderPlan};
use build_eips::page::{file_numbers, file_probes, process_eip, History};
use build_eips::path_set::PathSet;
use build_eips::proposal::ProposalNumber;
use build_eips::serve::{
    affected_dirty_paths, event_has_theme_index_path, event_has_watched_source_path,
    filter_dirty_paths, index_lock_path, path_is_watched_source_path,
    selected_deleted_proposal_markdown_paths, serve_sync_config, watch_theme_index,
    LocalThemeServeSync, ServeSyncConfig,
};
use build_eips::serve_loop::{ServeAction, ServeEvent, ServeLoop};
use build_eips::sync::{sync_materialized_paths, sync_working_tree_paths, NodeKind, SyncStep};
use build_eips::walk::{preprocess_path, Work};

fn fake_theme_sync() -> LocalThemeServeSync {
    LocalThemeServeSync {
        theme_source_root: "/w/theme".to_owned(),
        mounted_theme_dir: "/w/repo/themes/eips-theme".to_owned(),
        theme_index_path: "/w/theme/.git/index".to_owned(),
    }
}

fn number(value: u32) -> ProposalNumber {
    ProposalNumber::from_u32(value).unwrap()
}

fn proposal_markdown(value: u32, extra_preamble: &str, body: &str) -> String {
    format!("---\neip: {value}\ntitle: Proposal {value}\n{extra_preamble}---\n{body}\n")
}

fn only_plan() -> OnlyRenderPlan {
    let files = ["00555.md", "00678.md"]
        .iter()
        .map(|name| ContentMarkdown { path: name.to_string(), category: None })
        .collect();
    OnlyRenderPlan::build(&files, vec![number(555)]).unwrap()
}

fn owned(paths: &[&str]) -> Vec<String> {
    paths.iter().map(|path| path.to_string()).collect()
}

fn paths(list: &[&str]) -> PathSet {
    let mut set = PathSet::new();
    set.extend(owned(list));
    set
}

fn config(plan: Option<OnlyRenderPlan>, theme: bool) -> ServeSyncConfig {
    serve_sync_config(
        SourceMaterialization::Dirty,
        "/w/Core",
        "/w/.local-build/Core/repo",
        plan,
        if theme { Some(fake_theme_sync()) } else { None },
    )
}

fn ready(plan: Option<OnlyRenderPlan>, dirty: &[&str]) -> ServeLoop {
    let mut machine = ServeLoop::new(config(plan, false));
    assert_eq!(
        machine.step(ServeEvent::Done),
        ServeAction::Watch("/w/Core".to_owned())
    );
    assert_eq!(
        machine.step(ServeEvent::Done),
        ServeAction::ListActive("/w/Core".to_owned())
    );
    assert_eq!(machine.step(ServeEvent::Paths(owned(dirty))), ServeAction::ReportReady);
    machine
}

fn touched(machine: &mut ServeLoop, path: &str) {
    assert_eq!(
        machine.step(ServeEvent::Paths(vec![path.to_owned()])),
        ServeAction::WaitMore
    );
    assert_eq!(
        machine.step(ServeEvent::Timeout),
        ServeAction::ListActive("/w/Core".to_owned())
    );
}

#[test]
fn local_theme_serve_syncs_tracked_edits_into_mounted_theme() {
    let plan = sync_working_tree_paths(
        "/w/theme",
        "/w/repo/themes/eips-theme",
        &owned(&["templates/index.html"]),
        &vec![NodeKind::File],
    );
    assert_eq!(plan.failure, None);
    assert_eq!(
        plan.steps,
        [
            SyncStep::CreateDirs("/w/repo/themes/eips-theme/templates".to_owned()),
            SyncStep::Remove("/w/repo/themes/eips-theme/templates/index.html".to_owned()),
            SyncStep::CopyFile {
                from: "/w/theme/templates/index.html".to_owned(),
                to: "/w/repo/themes/eips-theme/templates/index.html".to_owned(),
            },
        ]
    );
}

#[test]
fn local_theme_index_events_trigger_rescan() {
    let index_path = "/workspace/theme/.git/index";

    assert!(event_has_theme_index_path(index_path, &owned(&[index_path])));
    assert!(event_has_theme_index_path(
        index_path,
        &owned(&["/workspace/theme/.git/index.lock"])
    ));
    assert!(!event_has_theme_index_path(
        index_path,
        &owned(&["/workspace/theme/.git/config"])
    ));
    assert_eq!(index_lock_path(index_path).unwrap(), "/workspace/theme/.git/index.lock");
    assert_eq!(index_lock_path("/"), None);
}

#[test]
fn local_serve_syncs_theme_and_dirty_active_repo() {
    let sync_config = config(Some(only_plan()), true);

    assert!(sync_config.active_repo.is_some());
    assert!(sync_config.active_repo.as_ref().unwrap().only_plan.is_some());
    assert!(sync_config.local_theme.is_some());
    assert!(sync_config.has_targets());
}

#[test]
fn clean_local_serve_keeps_theme_sync_but_disables_active_repo_dirty_sync() {
    let sync_config = serve_sync_config(
        SourceMaterialization::Clean,
        "/w/Core",
        "/w/.local-build/Core/repo",
        None,
        Some(fake_theme_sync()),
    );

    assert!(sync_config.active_repo.is_none());
    assert!(sync_config.local_theme.is_some());
}

#[test]
fn only_dirty_path_filter_runs_before_union_and_keeps_selected_deletions() {
    let plan = Some(only_plan());
    let previous_raw =
        owned(&["content/00555.md", "content/00678.md", "content/00678/assets/diagram.png"]);
    let current_raw = owned(&["content/00555/assets/diagram.png", "content/00999.md"]);

    let previous_filtered = filter_dirty_paths(&previous_raw, &plan);
    let current_filtered = filter_dirty_paths(&current_raw, &plan);
    let affected = affected_dirty_paths(&previous_filtered, &current_filtered);

    assert_eq!(
        affected.to_vec(),
        paths(&["content/00555.md", "content/00555/assets/diagram.png"]).to_vec()
    );
}

#[test]
fn selected_deleted_proposal_markdown_paths_reports_only_selected_markdown_deletions() {
    let affected_paths = paths(&[
        "content/00555.md",
        "content/00555/assets/diagram.png",
        "content/_index.md",
        "content/00678.md",
    ]);
    let gone: Vec<bool> =
        affected_paths.to_vec().iter().map(|path| path != "content/00678.md").collect();

    assert_eq!(
        selected_deleted_proposal_markdown_paths(&affected_paths, &gone, &Some(only_plan())),
        ["content/00555.md"]
    );
    assert!(selected_deleted_proposal_markdown_paths(&affected_paths, &gone, &None).is_empty());
}

#[test]
fn only_dirty_sync_does_not_reintroduce_unselected_markdown_or_assets() {
    let mut machine = ready(Some(only_plan()), &[]);
    touched(&mut machine, "/w/Core/content/00678.md");

    assert_eq!(
        machine.step(ServeEvent::Paths(owned(&[
            "content/00678.md",
            "content/00678/assets/diagram.png",
        ]))),
        ServeAction::WaitFirst
    );
}

#[test]
fn only_dirty_sync_copies_selected_assets_without_markdown_preprocessing() {
    let plan = only_plan();
    let mut machine = ready(Some(only_plan()), &[]);
    touched(&mut machine, "/w/Core/content/00555/assets/diagram.png");
    let asset = "content/00555/assets/diagram.png";

    assert_eq!(
        machine.step(ServeEvent::Paths(owned(&[asset]))),
        ServeAction::SyncActive(owned(&[asset]))
    );
    assert_eq!(machine.step(ServeEvent::Done), ServeAction::WaitFirst);
    assert_eq!(preprocess_path("/b/content", asset, true, Some(&plan)), None);

    touched(&mut machine, "/w/Core/x");
    assert_eq!(
        machine.step(ServeEvent::Paths(Vec::new())),
        ServeAction::SyncActive(owned(&[asset]))
    );
}

#[test]
fn only_dirty_sync_preprocesses_selected_and_retained_markdown_with_plan() {
    let plan = only_plan();
    let root = Canonical::Found("/b/content".to_owned());
    let context = LinkContext {
        root: "/b/content",
        canonical_root: &root,
        parent: "/b/content",
        plan: Some(&plan),
    };
    for (changed, contents) in [
        (
            "content/00555.md",
            proposal_markdown(555, "requires: 678\n", "Dirty [EIP-678](/00678.md)."),
        ),
        (
            "content/_index.md",
            "---\ntitle: Home\n---\nDirty [EIP-678](/00678.md).\n".to_owned(),
        ),
    ] {
        let file = match preprocess_path("/b/content", changed, true, Some(&plan)) {
            Some(Work::Page(file)) => file,
            other => panic!("{other:?}"),
        };
        let gone = Canonical::Missing("No such file or directory".to_owned());
        let outcomes = vec![gone; file_probes(&contents, "/b/content", "/b/content").len()];
        assert_eq!(file_numbers(&contents).len(), if changed.contains("555") { 1 } else { 0 });
        let page = process_eip(
            &file,
            &contents,
            &context,
            &outcomes,
            &History::Output("1".to_owned()),
            &Vec::new(),
        )
        .unwrap();
        assert!(page.body.contains("https://eips.ethereum.org/EIPS/eip-678"));
    }
}

#[test]
fn only_dirty_sync_propagates_selected_proposal_deletion() {
    let mut machine = ready(Some(only_plan()), &[]);
    touched(&mut machine, "/w/Core/content/00555.md");
    assert_eq!(
        machine.step(ServeEvent::Paths(owned(&["content/00555.md"]))),
        ServeAction::SyncActive(owned(&["content/00555.md"]))
    );
    let plan = sync_materialized_paths(
        "/w/Core",
        "/b",
        &owned(&["content/00555.md"]),
        &vec![NodeKind::Missing],
    );
    assert_eq!(
        plan.steps,
        [
            SyncStep::Remove("/b/content/00555.md".to_owned()),
            SyncStep::RemoveFromIndex("content/00555.md".to_owned()),
        ]
    );
}

#[test]
fn events_inside_the_repository_count() {
    assert!(path_is_watched_source_path("/w/Core", "/w/Core/content/1.md"));
    assert!(!path_is_watched_source_path("/w/Core", "/w/Core/.git/index"));
    assert!(!path_is_watched_source_path("/w/Core", "/w/Core"));
    assert!(!path_is_watched_source_path("/w/Core", "/w/Corex/1.md"));
    assert!(event_has_watched_source_path("/w/Core", &owned(&["/x", "/w/Core/.gitignore"])));
}

#[test]
fn one_watch_of_an_index_is_enough() {
    let error = |text: &str| Some(text.to_owned());
    assert_eq!(watch_theme_index("/t/index", &None, &error("p")), Ok(()));
    assert_eq!(watch_theme_index("/t/index", &error("f"), &None), Ok(()));
    assert_eq!(
        watch_theme_index("/t/index", &error("f"), &error("p")).unwrap_err(),
        "unable to watch local theme Git index `/t/index`: f; fallback watch on `/t` also failed: p"
    );
    assert_eq!(
        watch_theme_index("/", &error("f"), &None).unwrap_err(),
        "unable to watch local theme Git index `/`: f"
    );
}

#[test]
fn loops_set_both_targets_up() {
    let mut machine = ServeLoop::new(config(None, true));
    let mut seen = vec![machine.step(ServeEvent::Done)];
    seen.push(machine.step(ServeEvent::Done));
    seen.push(machine.step(ServeEvent::Done));
    seen.push(machine.step(ServeEvent::IndexWatched { file_error: None, parent_error: None }));
    seen.push(machine.step(ServeEvent::Paths(Vec::new())));
    seen.push(machine.step(ServeEvent::Done));
    seen.push(machine.step(ServeEvent::Paths(owned(&["a"]))));
    assert_eq!(
        seen,
        [
            ServeAction::Watch("/w/Core".to_owned()),
            ServeAction::Watch("/w/theme".to_owned()),
            ServeAction::WatchIndex("/w/theme/.git/index".to_owned()),
            ServeAction::ListActive("/w/Core".to_owned()),
            ServeAction::MaterializeTheme,
            ServeAction::ListTheme("/w/theme".to_owned()),
            ServeAction::ReportReady,
        ]
    );

    assert_eq!(
        machine.step(ServeEvent::Paths(owned(&["/w/Core/a", "/w/theme/b"]))),
        ServeAction::WaitMore
    );
    assert_eq!(machine.step(ServeEvent::WatcherError), ServeAction::WaitMore);
    assert_eq!(
        machine.step(ServeEvent::Timeout),
        ServeAction::ListActive("/w/Core".to_owned())
    );
    assert_eq!(
        machine.step(ServeEvent::Paths(owned(&["a"]))),
        ServeAction::SyncActive(owned(&["a"]))
    );
    assert_eq!(
        machine.step(ServeEvent::Failed("disk".to_owned())),
        ServeAction::ListTheme("/w/theme".to_owned())
    );
    assert_eq!(
        machine.step(ServeEvent::Paths(owned(&["b"]))),
        ServeAction::SyncTheme(owned(&["a", "b"]))
    );
    assert_eq!(machine.step(ServeEvent::Done), ServeAction::WaitFirst);
    assert_eq!(machine.step(ServeEvent::Timeout), ServeAction::WaitFirst);
    assert_eq!(machine.step(ServeEvent::StopRequested), ServeAction::Stop);
    assert_eq!(machine.step(ServeEvent::Timeout), ServeAction::Stop);
}

#[test]
fn failed_changes_are_carried_over_again() {
    let mut machine = ready(None, &["old"]);
    touched(&mut machine, "/w/Core/new");
    assert_eq!(
        machine.step(ServeEvent::Paths(owned(&["new"]))),
        ServeAction::SyncActive(owned(&["new", "old"]))
    );
    assert_eq!(machine.step(ServeEvent::Failed("x".to_owned())), ServeAction::WaitFirst);
    touched(&mut machine, "/w/Core/new");
    assert_eq!(
        machine.step(ServeEvent::Paths(Vec::new())),
        ServeAction::SyncActive(owned(&["old"]))
    );
    assert_eq!(machine.step(ServeEvent::Done), ServeAction::WaitFirst);
    touched(&mut machine, "/w/Core/new");
    assert_eq!(machine.step(ServeEvent::Paths(Vec::new())), ServeAction::WaitFirst);
}

#[test]
fn index_events_rescan_the_theme() {
    let theme_only = serve_sync_config(
        SourceMaterialization::Clean,
        "/w/Core",
        "/b",
        None,
        Some(fake_theme_sync()),
    );
    let mut machine = ServeLoop::new(theme_only);
    assert_eq!(machine.step(ServeEvent::Done), ServeAction::Watch("/w/theme".to_owned()));
    machine.step(ServeEvent::Done);
    assert_eq!(
        machine.step(ServeEvent::IndexWatched { file_error: None, parent_error: None }),
        ServeAction::MaterializeTheme
    );
    machine.step(ServeEvent::Done);
    assert_eq!(machine.step(ServeEvent::Paths(Vec::new())), ServeAction::ReportReady);
    machine.step(ServeEvent::Paths(owned(&["/w/theme/.git/index"])));
    assert_eq!(
        machine.step(ServeEvent::Timeout),
        ServeAction::ListTheme("/w/theme".to_owned())
    );
    assert_eq!(machine.step(ServeEvent::Failed("x".to_owned())), ServeAction::WaitFirst);
    machine.step(ServeEvent::Paths(owned(&["/w/theme/.git/config"])));
    assert_eq!(machine.step(ServeEvent::Timeout), ServeAction::WaitFirst);
}

#[test]
fn loops_say_why_they_cannot_start() {
    let fail = |steps: Vec<ServeEvent>| {
        let mut machine = ServeLoop::new(config(None, true));
        let mut last = ServeAction::Stop;
        for event in steps {
            last = machine.step(event);
        }
        match last {
            ServeAction::ReportFailure(message) => message,
            other => panic!("{other:?}"),
        }
    };
    let done = ServeEvent::Done;
    let no = ServeEvent::Failed("no".to_owned());
    let index = ServeEvent::IndexWatched { file_error: None, parent_error: None };
    let none = ServeEvent::Paths(Vec::new());
    assert_eq!(fail(vec![no.clone()]), "unable to start dirty serve watcher: no");
    assert_eq!(
        fail(vec![done.clone(), no.clone()]),
        "unable to watch `/w/Core` for dirty serve changes: no"
    );
    assert_eq!(
        fail(vec![done.clone(), done.clone(), no.clone()]),
        "unable to watch local theme `/w/theme` for serve changes: no"
    );
    assert_eq!(
        fail(vec![done.clone(), done.clone(), done.clone(), index.clone(), no.clone()]),
        "unable to capture initial dirty serve state: no"
    );
    let mut steps =
        vec![done.clone(), done.clone(), done.clone(), index.clone(), none.clone(), no.clone()];
    assert_eq!(
        fail(steps.clone()),
        "unable to synchronize initial local theme state after watcher setup: no"
    );
    steps[5] = done.clone();
    steps.push(no.clone());
    assert_eq!(fail(steps), "unable to capture initial local theme dirty state: no");
}
