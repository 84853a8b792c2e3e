use build_eips::git::{
    checkout_fresh_clone_at_commit, clone_missing_repo, fetch, fetched_ref, finish_clone,
    open_existing_workspace_repository, open_or_init, CloneOutcome, CloneStep, Cloned, Error,
    FetchOutcome, FetchStep, Opened, PinStep, Presence, Resolved, WorkingRepo, SOURCE_REFSPEC,
};
use build_eips::status::{
    check_dirty, entry_path, is_generated_path, status_kind, tracked_working_tree_paths,
    working_tree_paths, Delta, StatusEntry, StatusKind,
};
use build_eips::sync::{
    materialize_working_tree, remove_existing_path, remove_index_path, sync_materialized_paths,
    IndexOutcome, IndexStep, NodeKind, Removal, SyncStep,
};
use build_eips::tree::{
    blob_paths, changed_files, check_conflict, check_ignored, merge_tree, tracked_paths, Ignored,
    ObjectKind, TreeEntry, FILE_MODE,
};

fn owned(list: &[&str]) -> Vec<String> {
    list.iter().map(|text| text.to_string()).collect()
}

fn entry(kind: StatusKind, path: &str) -> StatusEntry {
    StatusEntry {
        kind,
        head_to_index: None,
        index_to_workdir: None,
        path: Some(path.to_owned()),
    }
}

fn delta(old: &str, new: &str) -> Option<Delta> {
    Some(Delta { old: Some(old.to_owned()), new: Some(new.to_owned()) })
}

fn file(prefix: &str, name: &str, id: &str) -> TreeEntry {
    TreeEntry {
        prefix: prefix.to_owned(),
        name: Some(name.to_owned()),
        kind: ObjectKind::Blob,
        mode: 0o100644,
        id: id.to_owned(),
    }
}

fn dir(prefix: &str, name: &str) -> TreeEntry {
    TreeEntry { kind: ObjectKind::Tree, mode: 0o40000, ..file(prefix, name, "t") }
}

#[test]
fn statuses_are_told_apart_by_their_bits() {
    assert_eq!(status_kind(0), StatusKind::Unchanged);
    assert_eq!(status_kind(git2::Status::IGNORED.bits()), StatusKind::Unchanged);
    assert_eq!(status_kind(git2::Status::WT_NEW.bits()), StatusKind::Untracked);
    assert_eq!(status_kind(git2::Status::WT_MODIFIED.bits()), StatusKind::Changed);
    assert_eq!(
        status_kind((git2::Status::INDEX_NEW | git2::Status::WT_NEW).bits()),
        StatusKind::Changed
    );
    assert_eq!(
        status_kind((git2::Status::CONFLICTED | git2::Status::WT_MODIFIED).bits()),
        StatusKind::Conflicted
    );
}

#[test]
fn changes_are_listed_once_and_in_order() {
    let mut renamed = entry(StatusKind::Changed, "c");
    renamed.head_to_index = delta("b", "c");
    renamed.index_to_workdir = delta("c", "a");
    let entries = vec![
        renamed,
        entry(StatusKind::Changed, "build/x"),
        entry(StatusKind::Untracked, "z"),
        entry(StatusKind::Unchanged, "y"),
    ];
    assert_eq!(working_tree_paths(&entries).unwrap(), ["a", "b", "c"]);
    assert_eq!(tracked_working_tree_paths(&entries).unwrap(), ["a", "b", "build/x", "c"]);
    assert!(is_generated_path("build/x") && !is_generated_path("builds/x"));
}

#[test]
fn source_changes_are_all_changes_without_generated_ones() {
    let entries: Vec<StatusEntry> = [
        "content/2.md",
        "build",
        "build/b",
        "a.md",
        "builds",
        "content/10.md",
        "a.md",
        "a/b",
        "build//b",
        "x/build",
    ]
    .iter()
    .map(|path| entry(StatusKind::Changed, path))
    .collect();
    let all = tracked_working_tree_paths(&entries).unwrap();
    assert_eq!(
        all,
        [
            "a/b",
            "a.md",
            "build",
            "build/b",
            "builds",
            "content/10.md",
            "content/2.md",
            "x/build",
        ]
    );
    let source: Vec<String> =
        all.iter().filter(|path| !is_generated_path(path)).cloned().collect();
    assert_eq!(working_tree_paths(&entries).unwrap(), source);

    let conflicted = vec![entry(StatusKind::Conflicted, "build/x")];
    assert_eq!(
        working_tree_paths(&conflicted).unwrap_err().message(),
        tracked_working_tree_paths(&conflicted).unwrap_err().message()
    );
}

#[test]
fn paths_of_changes_prefer_the_index() {
    let mut changed = entry(StatusKind::Changed, "p");
    changed.index_to_workdir = delta("w1", "w2");
    assert_eq!(entry_path(&changed), "w2");
    changed.head_to_index = Some(Delta { old: Some("i1".to_owned()), new: None });
    assert_eq!(entry_path(&changed), "i1");
    changed.head_to_index = None;
    changed.index_to_workdir = None;
    changed.path = None;
    assert_eq!(entry_path(&changed), "<unknown>");
}

#[test]
fn conflicts_stop_everything() {
    let entries = vec![entry(StatusKind::Changed, "a"), entry(StatusKind::Conflicted, "b")];
    assert_eq!(
        working_tree_paths(&entries).unwrap_err().message(),
        "dirty mode cannot materialize conflicted path `b`; resolve the conflict and try again"
    );
    assert!(check_dirty(&entries).is_err());
}

#[test]
fn dirty_repositories_are_rejected_with_a_list() {
    let entries: Vec<StatusEntry> = (0..12)
        .map(|index| entry(StatusKind::Changed, &format!("f{index:02}")))
        .chain(vec![entry(StatusKind::Untracked, "u")])
        .collect();
    let message = check_dirty(&entries).unwrap_err().message();
    let lines: Vec<&str> = message.lines().collect();
    assert!(lines[0].ends_with("requires a clean working tree:"));
    assert_eq!(lines[1], "- f00");
    assert_eq!(lines[10], "- f09");
    assert_eq!(lines[11], "- ... and 2 more tracked path(s)");
    assert_eq!(lines[12], "- ... plus 1 untracked file(s) not listed");
    assert_eq!(lines[13], "");
    assert!(lines[14].ends_with("Commit/stash/remove untracked files before retrying."));
    assert_eq!(lines.len(), 15);

    let message = check_dirty(&vec![entry(StatusKind::Changed, "a")]).unwrap_err().message();
    assert!(message.ends_with("commit or stash tracked changes first."));
    assert!(check_dirty(&vec![entry(StatusKind::Changed, "build/a")]).is_ok());
}

#[test]
fn existing_repositories_are_used_as_they_are() {
    let usable = Opened::Repository { has_workdir: true, has_head: true };
    assert_eq!(
        clone_missing_repo("/w/theme", &usable, &Presence::Present).unwrap(),
        CloneStep::Done(CloneOutcome::Existing)
    );
    assert_eq!(
        clone_missing_repo("/w/theme", &Opened::NotFound, &Presence::Missing)
            .unwrap(),
        CloneStep::Clone
    );
    assert_eq!(
        clone_missing_repo("/w/theme", &Opened::NotFound, &Presence::Present)
            .unwrap_err()
            .message(),
        "workspace path `/w/theme` already exists but is not a usable git repository"
    );
    let bare = Opened::Repository { has_workdir: false, has_head: true };
    assert_eq!(
        open_existing_workspace_repository("/w/theme", &bare, &Presence::Present)
            .unwrap_err()
            .message(),
        "workspace repository `/w/theme` is unusable: it is bare"
    );
    let empty = Opened::Repository { has_workdir: true, has_head: false };
    assert_eq!(
        open_existing_workspace_repository("/w/theme", &empty, &Presence::Present)
            .unwrap_err()
            .message(),
        "workspace repository `/w/theme` is unusable: it has no HEAD commit"
    );
    assert!(matches!(
        open_existing_workspace_repository(
            "/w/theme",
            &Opened::Failed("odd".to_owned()),
            &Presence::Missing,
        ),
        Err(Error::Git { .. })
    ));
    assert!(matches!(
        open_existing_workspace_repository(
            "/w/theme",
            &Opened::NotFound,
            &Presence::Unreadable("denied".to_owned()),
        ),
        Err(Error::Io { .. })
    ));
}

#[test]
fn clones_must_be_usable() {
    let usable = Cloned::Repository { has_workdir: true, has_head: true };
    assert_eq!(finish_clone("/w/t", &usable).unwrap(), CloneOutcome::Fresh);
    assert_eq!(
        finish_clone("/w/t", &Cloned::Failed("net".to_owned())).unwrap_err().message(),
        "unable to clone workspace repository"
    );
}

#[test]
fn pins_are_fetched_where_they_are_missing() {
    let usable = Opened::Repository { has_workdir: true, has_head: true };
    let pin = |resolved: Resolved| {
        checkout_fresh_clone_at_commit("/w/t", &usable, &Presence::Present, "abc", &resolved)
    };
    assert_eq!(pin(Resolved::Commit("id".to_owned())).unwrap(), PinStep::Use("id".to_owned()));
    assert_eq!(
        pin(Resolved::Unknown).unwrap(),
        PinStep::Fetch("+abc:refs/build-eips/theme-pin".to_owned())
    );
    assert_eq!(
        pin(Resolved::Failed("odd".to_owned())).unwrap_err().message(),
        "unable to resolve manifest theme commit"
    );
    assert_eq!(
        checkout_fresh_clone_at_commit(
            "/w/t",
            &Opened::NotFound,
            &Presence::Missing,
            "abc",
            &Resolved::Commit("id".to_owned()),
        )
        .unwrap_err()
        .message(),
        "fresh workspace repository `/w/t` was missing before checkout"
    );
}

#[test]
fn fetches_go_through_a_remote_of_their_own() {
    let mut step = FetchStep::ClearRemote;
    let mut seen = vec![step];
    while let Some(next) = fetch(step, &FetchOutcome::Done).unwrap() {
        step = next;
        seen.push(step);
    }
    assert_eq!(
        seen,
        [
            FetchStep::ClearRemote,
            FetchStep::MakeRemote,
            FetchStep::Fetch,
            FetchStep::RemoveRemote,
            FetchStep::FindFetched,
            FetchStep::FindCommit,
        ]
    );
    let missing = FetchOutcome::NotFound("none".to_owned());
    assert_eq!(
        fetch(FetchStep::ClearRemote, &missing).unwrap(),
        Some(FetchStep::MakeRemote)
    );
    assert_eq!(
        fetch(FetchStep::RemoveRemote, &missing).unwrap_err().message(),
        "unable to deleting temporary remote"
    );
    assert_eq!(
        fetch(FetchStep::Fetch, &FetchOutcome::Failed("net".to_owned())).unwrap_err(),
        Error::Git { what: "fetching repo".to_owned(), cause: "net".to_owned() }
    );
    assert_eq!(fetched_ref(SOURCE_REFSPEC), "refs/build-eips/source-head");
    assert_eq!(fetched_ref("HEAD"), "FETCH_HEAD");
    assert_eq!(fetched_ref("HEAD:"), "FETCH_HEAD");
}

#[test]
fn build_repositories_are_opened_or_made() {
    assert_eq!(
        open_or_init(&Opened::Repository { has_workdir: true, has_head: false }).unwrap(),
        WorkingRepo::Open
    );
    assert_eq!(
        open_or_init(&Opened::NotFound).unwrap(),
        WorkingRepo::Init
    );
    assert_eq!(
        open_or_init(&Opened::Failed("odd".to_owned())).unwrap_err().message(),
        "unable to open repo"
    );
}

#[test]
fn merges_take_the_content_of_siblings() {
    let local = vec![dir("", "content"), file("content/", "1.md", "a"), file("", "README", "r")];
    let other = vec![
        dir("", "content"),
        file("content/", "1.md", "a"),
        file("content/", "2.md", "b"),
        file("content/", "_index.md", "home"),
        dir("content/", "3"),
        file("content/3/", "index.md", "c"),
        file("", "README", "other"),
        dir("", "src"),
        file("src/", "main.rs", "m"),
    ];
    let merged = merge_tree(&local, &other).unwrap();
    let paths: Vec<&str> = merged.iter().map(|upsert| upsert.path.as_str()).collect();
    assert_eq!(paths, ["content/1.md", "content/2.md", "content/3/index.md"]);
    assert_eq!(merged[1].id, "b");
}

#[test]
fn conflicting_siblings_are_rejected() {
    let local = vec![file("content/", "1.md", "a")];
    let verdict = |other: TreeEntry| {
        check_conflict(&local, "content/1.md", &other).map_err(|error| error.message())
    };
    assert_eq!(verdict(file("content/", "1.md", "a")), Ok(()));
    assert_eq!(
        verdict(file("content/", "1.md", "b")).unwrap_err(),
        "unable to update tree (conflicting path `content/1.md` (id))"
    );
    assert_eq!(
        verdict(TreeEntry { mode: 0o100755, ..file("content/", "1.md", "a") }).unwrap_err(),
        "unable to update tree (conflicting path `content/1.md` (filemode))"
    );
    assert_eq!(
        verdict(TreeEntry { kind: ObjectKind::Tree, ..file("content/", "1.md", "a") })
            .unwrap_err(),
        "unable to update tree (conflicting path `content/1.md` (kind))"
    );
    assert!(merge_tree(&local, &vec![file("content/", "1.md", "b")]).is_err());
    let nameless = TreeEntry { name: None, ..file("content/", "x", "a") };
    assert_eq!(
        merge_tree(&local, &vec![nameless]).unwrap_err().message(),
        "unable to update tree (tree entry without name in `content/`)"
    );
    let odd = TreeEntry {
        kind: ObjectKind::Other("Some(Commit)".to_owned()),
        ..file("content/", "sub", "a")
    };
    assert_eq!(
        merge_tree(&local, &vec![odd]).unwrap_err().message(),
        "unable to update tree (unknown blob type `Some(Commit)` for `content/sub`)"
    );
}

#[test]
fn siblings_are_merged_one_onto_the_other() {
    let local = vec![
        dir("", "content"),
        file("content/", "1.md", "a"),
        file("content/", "_index.md", "home"),
        file("", "README", "r"),
    ];
    let first = vec![
        dir("", "content"),
        file("content/", "2.md", "b"),
        file("content/", "_index.md", "other home"),
        file("", "README", "other"),
    ];
    let put: Vec<(String, String)> = merge_tree(&local, &first)
        .unwrap()
        .into_iter()
        .map(|upsert| (upsert.path, upsert.id))
        .collect();
    assert_eq!(put, [("content/2.md".to_owned(), "b".to_owned())]);

    let mut merged = local.clone();
    merged.insert(2, TreeEntry { mode: FILE_MODE, ..file("content/", "2.md", "b") });
    let same = vec![file("content/", "1.md", "a"), file("content/", "2.md", "b")];
    assert_eq!(merge_tree(&merged, &same).unwrap().len(), 2);
    let disagrees = vec![file("content/", "2.md", "c")];
    assert!(merge_tree(&local, &disagrees).is_ok());
    assert!(merge_tree(&merged, &disagrees).is_err());
    let near = vec![file("contents/", "3.md", "c"), file("", "content", "f")];
    let paths: Vec<String> =
        merge_tree(&Vec::new(), &near).unwrap().into_iter().map(|upsert| upsert.path).collect();
    assert_eq!(paths, ["content"]);
}

#[test]
fn merged_trees_hold_nothing_ignored() {
    let entries = vec![dir("", "content"), file("content/", "1.md", "a"), file("", "x", "b")];
    let paths = blob_paths(&entries);
    assert_eq!(paths, ["content/1.md", "x"]);
    assert!(check_ignored(&paths, &vec![Ignored::No, Ignored::No]).is_ok());
    assert_eq!(
        check_ignored(&paths, &vec![Ignored::No, Ignored::Yes]).unwrap_err().message(),
        "unable to update tree (contains ignored path `x`)"
    );
    assert!(matches!(
        check_ignored(&paths, &vec![Ignored::Failed("e".to_owned()), Ignored::Yes]),
        Err(Error::Git { .. })
    ));
}

#[test]
fn tracked_files_are_the_blobs() {
    let entries = vec![dir("", "b"), file("b/", "z", "1"), file("", "a", "2")];
    assert_eq!(tracked_paths(&entries).unwrap().to_vec(), ["a", "b/z"]);
    let odd = vec![TreeEntry { kind: ObjectKind::Other("None".to_owned()), ..file("", "s", "1") }];
    assert!(tracked_paths(&odd).is_err());
}

#[test]
fn changed_files_have_a_new_path() {
    let deltas = vec![Some("a".to_owned()), None, Some("b".to_owned())];
    assert_eq!(changed_files(&deltas), ["a", "b"]);
}

#[test]
fn old_files_are_removed_by_their_kind() {
    assert_eq!(remove_existing_path(&NodeKind::Directory), Ok(Removal::Tree));
    assert_eq!(remove_existing_path(&NodeKind::Symlink), Ok(Removal::File));
    assert_eq!(remove_existing_path(&NodeKind::Missing), Ok(Removal::Nothing));
    assert_eq!(
        remove_existing_path(&NodeKind::Unreadable("no".to_owned())),
        Err("no".to_owned())
    );
    assert_eq!(remove_index_path(false, &IndexOutcome::Done).unwrap(), IndexStep::Done);
    assert_eq!(
        remove_index_path(false, &IndexOutcome::NotFound).unwrap(),
        IndexStep::RemoveDir
    );
    assert_eq!(
        remove_index_path(true, &IndexOutcome::NotFound).unwrap(),
        IndexStep::Done
    );
    assert!(remove_index_path(true, &IndexOutcome::Failed("x".to_owned())).is_err());
}

#[test]
fn paths_before_a_failure_are_carried_over() {
    let plan = sync_materialized_paths(
        "/s",
        "/t",
        &owned(&["a", "b", "c", "d"]),
        &vec![NodeKind::Symlink, NodeKind::Directory, NodeKind::Other, NodeKind::File],
    );
    assert_eq!(
        plan.steps,
        [
            SyncStep::CreateDirs("/t".to_owned()),
            SyncStep::Remove("/t/a".to_owned()),
            SyncStep::CopySymlink { from: "/s/a".to_owned(), to: "/t/a".to_owned() },
            SyncStep::AddToIndex("a".to_owned()),
            SyncStep::Remove("/t/b".to_owned()),
            SyncStep::RemoveFromIndex("b".to_owned()),
        ]
    );
    assert_eq!(
        plan.failure.unwrap().message(),
        "dirty mode cannot materialize `c` because it is not a tracked file or symlink in the working tree"
    );
}

#[test]
fn working_trees_are_copied_without_untracked_files() {
    let committed = vec![dir("", "d"), file("d/", "x", "1"), file("", "a", "2")];
    let entries =
        vec![entry(StatusKind::Changed, "build/new"), entry(StatusKind::Untracked, "u")];
    let plan = materialize_working_tree("/t", &committed, &entries);
    assert_eq!(
        plan.steps,
        [SyncStep::Remove("/t".to_owned()), SyncStep::CreateDirs("/t".to_owned())]
    );
    assert_eq!(plan.paths.unwrap(), ["a", "build/new", "d/x"]);
    let conflict = vec![entry(StatusKind::Conflicted, "c")];
    assert!(materialize_working_tree("/t", &committed, &conflict).paths.is_err());
}
