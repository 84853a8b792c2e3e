//! Carrying paths of a working tree over to another.

use vstd::prelude::*;

use crate::git::{Error, Failure};
use crate::path;
use crate::path_set;
use crate::status;
use crate::status::{Scope, StatusEntry};
use crate::text;
use crate::tree;
use crate::tree::TreeEntry;

verus! {

/// What stands at a path of a working tree.
#[derive(Debug, Clone, PartialEq, Eq)]
pub enum NodeKind {
    Directory,
    File,
    Symlink,
    Other,
    Missing,
    Unreadable(String),
}

/// How what stands at a path is removed.
#[derive(Debug, Clone, Copy, PartialEq, Eq, Structural)]
pub enum Removal {
    /// With all below it.
    Tree,
    /// By itself.
    File,
    /// There is nothing to remove.
    Nothing,
}

/// A step of carrying a path over.
#[derive(Debug, Clone, PartialEq, Eq)]
pub enum SyncStep {
    /// Make the directory, and those above it.
    CreateDirs(String),
    /// Remove what stands at the path.
    Remove(String),
    /// Copy the file.
    CopyFile { from: String, to: String },
    /// Make a link to where the link points.
    CopySymlink { from: String, to: String },
    /// Put the path into the index of the target.
    AddToIndex(String),
    /// Take the path, and what is below it, out of the index of the target.
    RemoveFromIndex(String),
}

/// What a step stands for.
pub enum StepView {
    CreateDirs(Seq<char>),
    Remove(Seq<char>),
    CopyFile { from: Seq<char>, to: Seq<char> },
    CopySymlink { from: Seq<char>, to: Seq<char> },
    AddToIndex(Seq<char>),
    RemoveFromIndex(Seq<char>),
}

impl View for SyncStep {
    type V = StepView;

    open spec fn view(&self) -> StepView {
        match self {
            SyncStep::CreateDirs(dir) => StepView::CreateDirs(dir@),
            SyncStep::Remove(at) => StepView::Remove(at@),
            SyncStep::CopyFile { from, to } => StepView::CopyFile { from: from@, to: to@ },
            SyncStep::CopySymlink { from, to } => StepView::CopySymlink { from: from@, to: to@ },
            SyncStep::AddToIndex(at) => StepView::AddToIndex(at@),
            SyncStep::RemoveFromIndex(at) => StepView::RemoveFromIndex(at@),
        }
    }
}

/// What a list of steps stands for.
pub open spec fn step_views(list: Seq<SyncStep>) -> Seq<StepView> {
    Seq::new(list.len(), |i: int| list[i]@)
}

/// The steps that take a path out of the target.
pub open spec fn removal_steps(to: Seq<char>, rel: Seq<char>, indexed: bool) -> Seq<StepView> {
    if indexed {
        seq![StepView::Remove(to), StepView::RemoveFromIndex(rel)]
    } else {
        seq![StepView::Remove(to)]
    }
}

/// The steps that put a file or a link into the target.
pub open spec fn copy_steps(
    from: Seq<char>,
    to: Seq<char>,
    rel: Seq<char>,
    symlink: bool,
    indexed: bool,
) -> Seq<StepView> {
    let dirs = match path::parent_of(to) {
        Some(parent) => seq![StepView::CreateDirs(parent)],
        None => Seq::empty(),
    };
    let copy = if symlink {
        StepView::CopySymlink { from, to }
    } else {
        StepView::CopyFile { from, to }
    };
    let index = if indexed {
        seq![StepView::AddToIndex(rel)]
    } else {
        Seq::empty()
    };
    dirs + seq![StepView::Remove(to), copy] + index
}

/// The steps that make a path of the target what it is in the source.
pub open spec fn path_steps(
    source_root: Seq<char>,
    target_root: Seq<char>,
    rel: Seq<char>,
    kind: NodeKind,
    indexed: bool,
) -> Result<Seq<StepView>, Failure> {
    let from = path::path_joined(source_root, rel);
    let to = path::path_joined(target_root, rel);
    match kind {
        NodeKind::Directory | NodeKind::Missing => Ok(removal_steps(to, rel, indexed)),
        NodeKind::File => Ok(copy_steps(from, to, rel, false, indexed)),
        NodeKind::Symlink => Ok(copy_steps(from, to, rel, true, indexed)),
        NodeKind::Other => Err(Failure::DirtyUnsupportedPath(rel)),
        NodeKind::Unreadable(cause) => Err(Failure::Io { path: from, cause: cause@ }),
    }
}

/// The steps for a list of paths up to the first that fails, and why it fails.
pub struct PlanView {
    pub steps: Seq<StepView>,
    pub failure: Option<Failure>,
}

/// The steps for all paths, or for those before the first that fails.
pub open spec fn plan_of(
    source_root: Seq<char>,
    target_root: Seq<char>,
    paths: Seq<Seq<char>>,
    kinds: Seq<NodeKind>,
    indexed: bool,
) -> PlanView
    decreases paths.len(),
{
    if paths.len() == 0 {
        PlanView { steps: Seq::empty(), failure: None }
    } else {
        let before = plan_of(source_root, target_root, paths.drop_last(), kinds, indexed);
        if before.failure is Some {
            before
        } else {
            match path_steps(
                source_root,
                target_root,
                paths.last(),
                kinds[paths.len() - 1],
                indexed,
            ) {
                Ok(steps) => PlanView { steps: before.steps + steps, failure: None },
                Err(failure) => PlanView { failure: Some(failure), ..before },
            }
        }
    }
}

/// The steps to carry paths over, and why they end early where they do.
#[derive(Debug, Clone, PartialEq, Eq)]
pub struct SyncPlan {
    pub steps: Vec<SyncStep>,
    pub failure: Option<Error>,
}

impl View for SyncPlan {
    type V = PlanView;

    open spec fn view(&self) -> PlanView {
        PlanView {
            steps: step_views(self.steps@),
            failure: match self.failure {
                Some(error) => Some(error@),
                None => None,
            },
        }
    }
}

/// How what stands at a path is removed.
pub fn remove_existing_path(kind: &NodeKind) -> (out: Result<Removal, String>)
    ensures
        match *kind {
            NodeKind::Directory => out == Ok::<Removal, String>(Removal::Tree),
            NodeKind::File | NodeKind::Symlink | NodeKind::Other => out == Ok::<Removal, String>(
                Removal::File,
            ),
            NodeKind::Missing => out == Ok::<Removal, String>(Removal::Nothing),
            NodeKind::Unreadable(cause) => out matches Err(why) && why@ == cause@,
        },
{
    match kind {
        NodeKind::Directory => Ok(Removal::Tree),
        NodeKind::File | NodeKind::Symlink | NodeKind::Other => Ok(Removal::File),
        NodeKind::Missing => Ok(Removal::Nothing),
        NodeKind::Unreadable(cause) => Err(cause.clone()),
    }
}

/// What taking a path out of an index gave.
#[derive(Debug, Clone, PartialEq, Eq)]
pub enum IndexOutcome {
    Done,
    NotFound,
    Failed(String),
}

/// What comes next after taking a path out of an index.
#[derive(Debug, Clone, PartialEq, Eq)]
pub enum IndexStep {
    Done,
    /// Take out what is below the path.
    RemoveDir,
}

/// What comes next after taking a path out of an index: what is not there may be a directory, and a
/// directory that is not there either is gone already.
pub fn remove_index_path(as_dir: bool, outcome: &IndexOutcome) -> (out: Result<IndexStep, Error>)
    ensures
        match *outcome {
            IndexOutcome::Done => out == Ok::<IndexStep, Error>(IndexStep::Done),
            IndexOutcome::NotFound => out == Ok::<IndexStep, Error>(
                if as_dir {
                    IndexStep::Done
                } else {
                    IndexStep::RemoveDir
                },
            ),
            IndexOutcome::Failed(cause) => out matches Err(error) && error@ == (Failure::Git {
                what: "remove dirty path from index"@,
                cause: cause@,
            }),
        },
{
    match outcome {
        IndexOutcome::Done => Ok(IndexStep::Done),
        IndexOutcome::NotFound => {
            if as_dir {
                Ok(IndexStep::Done)
            } else {
                Ok(IndexStep::RemoveDir)
            }
        },
        IndexOutcome::Failed(cause) => Err(
            Error::Git { what: "remove dirty path from index".to_owned(), cause: cause.clone() },
        ),
    }
}

/// The steps that make a path of the target what it is in the source.
pub fn sync_path(
    source_root: &str,
    target_root: &str,
    relative_path: &str,
    kind: &NodeKind,
    indexed: bool,
) -> (out: Result<Vec<SyncStep>, Error>)
    ensures
        match out {
            Ok(steps) => path_steps(source_root@, target_root@, relative_path@, *kind, indexed)
                == Ok::<Seq<StepView>, Failure>(step_views(steps@)),
            Err(error) => path_steps(source_root@, target_root@, relative_path@, *kind, indexed)
                == Err::<Seq<StepView>, Failure>(error@),
        },
{
    let from = path::join(source_root, relative_path);
    let to = path::join(target_root, relative_path);
    let mut steps: Vec<SyncStep> = Vec::new();
    match kind {
        NodeKind::Directory | NodeKind::Missing => {
            steps.push(SyncStep::Remove(to));
            if indexed {
                steps.push(SyncStep::RemoveFromIndex(relative_path.to_owned()));
            }
            assert(step_views(steps@) =~= removal_steps(to@, relative_path@, indexed));
        },
        NodeKind::File | NodeKind::Symlink => {
            let symlink = matches!(kind, NodeKind::Symlink);
            let ghost (g_from, g_to) = (from@, to@);
            if let Some(parent) = path::parent(to.as_str()) {
                steps.push(SyncStep::CreateDirs(parent));
            }
            steps.push(SyncStep::Remove(to.clone()));
            if symlink {
                steps.push(SyncStep::CopySymlink { from, to });
            } else {
                steps.push(SyncStep::CopyFile { from, to });
            }
            if indexed {
                steps.push(SyncStep::AddToIndex(relative_path.to_owned()));
            }
            assert(step_views(steps@) =~= copy_steps(
                g_from,
                g_to,
                relative_path@,
                symlink,
                indexed,
            ));
        },
        NodeKind::Other => {
            return Err(Error::DirtyUnsupportedPath { path: relative_path.to_owned() });
        },
        NodeKind::Unreadable(cause) => {
            return Err(Error::Io { path: from, cause: cause.clone() });
        },
    }
    Ok(steps)
}

/// The steps that make paths of the target what they are in the source.
pub fn sync_paths(
    source_root: &str,
    target_root: &str,
    relative_paths: &Vec<String>,
    kinds: &Vec<NodeKind>,
    indexed: bool,
) -> (out: SyncPlan)
    requires
        kinds@.len() == relative_paths@.len(),
    ensures
        out@ == plan_of(
            source_root@,
            target_root@,
            text::views(relative_paths@),
            kinds@,
            indexed,
        ),
{
    let ghost all = text::views(relative_paths@);
    let mut steps: Vec<SyncStep> = Vec::new();
    let mut failure: Option<Error> = None;
    let mut i: usize = 0;
    assert(all.take(0) =~= Seq::empty());
    assert(step_views(steps@) =~= Seq::empty());
    while i < relative_paths.len()
        invariant
            i <= relative_paths@.len(),
            kinds@.len() == relative_paths@.len(),
            all == text::views(relative_paths@),
            step_views(steps@) == plan_of(
                source_root@,
                target_root@,
                all.take(i as int),
                kinds@,
                indexed,
            ).steps,
            (match failure {
                Some(error) => Some(error@),
                None => None,
            }) == plan_of(source_root@, target_root@, all.take(i as int), kinds@, indexed).failure,
        decreases relative_paths.len() - i,
    {
        proof {
            assert(all.take(i + 1).drop_last() =~= all.take(i as int));
            assert(all.take(i + 1).last() == relative_paths@[i as int]@);
        }
        if failure.is_none() {
            let ghost before = steps@;
            match sync_path(
                source_root,
                target_root,
                relative_paths[i].as_str(),
                &kinds[i],
                indexed,
            ) {
                Ok(mut more) => {
                    let ghost added = more@;
                    steps.append(&mut more);
                    assert(step_views(steps@) =~= step_views(before) + step_views(added));
                },
                Err(error) => {
                    failure = Some(error);
                },
            }
        }
        i += 1;
    }
    assert(all.take(i as int) =~= all);
    SyncPlan { steps, failure }
}

/// The steps that make paths of a plain directory what they are in the source.
pub fn sync_working_tree_paths(
    source_root: &str,
    destination_root: &str,
    relative_paths: &Vec<String>,
    kinds: &Vec<NodeKind>,
) -> (out: SyncPlan)
    requires
        kinds@.len() == relative_paths@.len(),
    ensures
        out@ == plan_of(
            source_root@,
            destination_root@,
            text::views(relative_paths@),
            kinds@,
            false,
        ),
{
    sync_paths(source_root, destination_root, relative_paths, kinds, false)
}

/// The steps that make paths of a build's repository, and of its index, what they are in the source.
pub fn sync_materialized_paths(
    source_root: &str,
    build_root: &str,
    relative_paths: &Vec<String>,
    kinds: &Vec<NodeKind>,
) -> (out: SyncPlan)
    requires
        kinds@.len() == relative_paths@.len(),
    ensures
        out@ == plan_of(source_root@, build_root@, text::views(relative_paths@), kinds@, true),
{
    sync_paths(source_root, build_root, relative_paths, kinds, true)
}

/// How a working tree is copied: the steps that empty the destination, and the paths to carry over
/// then, or why they cannot be listed.
#[derive(Debug)]
pub struct Materialization {
    pub steps: Vec<SyncStep>,
    pub paths: Result<Vec<String>, Error>,
}

/// The paths of a working tree to copy: the files of its last commit and its tracked changes.
pub open spec fn materialized_paths(
    committed: Seq<TreeEntry>,
    entries: Seq<StatusEntry>,
) -> Result<Seq<Seq<char>>, Failure> {
    match (tree::tracked_in(tree::entry_views(committed)), status::first_conflict(entries)) {
        (Err(failure), _) => Err(failure),
        (Ok(_), Some(found)) => Err(Failure::DirtyConflict(found)),
        (Ok(files), None) => Ok(
            path_set::with_members(
                path_set::set_of(files),
                path_set::set_of(status::all_changed(Scope::All, entries)),
            ),
        ),
    }
}

/// How a working tree is copied to an empty directory: the files of its last commit and its tracked
/// changes are carried over, whatever is untracked is not.
pub fn materialize_working_tree(
    destination_root: &str,
    committed: &Vec<TreeEntry>,
    entries: &Vec<StatusEntry>,
) -> (out: Materialization)
    ensures
        step_views(out.steps@) == seq![
            StepView::Remove(destination_root@),
            StepView::CreateDirs(destination_root@),
        ],
        match out.paths {
            Ok(paths) => materialized_paths(committed@, entries@) == Ok::<Seq<Seq<char>>, Failure>(
                text::views(paths@),
            ),
            Err(error) => materialized_paths(committed@, entries@) == Err::<
                Seq<Seq<char>>,
                Failure,
            >(error@),
        },
{
    let mut steps: Vec<SyncStep> = Vec::new();
    steps.push(SyncStep::Remove(destination_root.to_owned()));
    steps.push(SyncStep::CreateDirs(destination_root.to_owned()));
    assert(step_views(steps@) =~= seq![
        StepView::Remove(destination_root@),
        StepView::CreateDirs(destination_root@),
    ]);
    let mut paths = match tree::tracked_paths(committed) {
        Ok(paths) => paths,
        Err(error) => return Materialization { steps, paths: Err(error) },
    };
    match status::tracked_working_tree_paths(entries) {
        Ok(changed) => {
            paths.extend(changed);
            Materialization { steps, paths: Ok(paths.to_vec()) }
        },
        Err(error) => Materialization { steps, paths: Err(error) },
    }
}

/// The path that a step writes to, if it is one of the file system.
pub open spec fn step_target(step: StepView) -> Option<Seq<char>> {
    match step {
        StepView::CreateDirs(dir) => Some(dir),
        StepView::Remove(at) => Some(at),
        StepView::CopyFile { to, .. } => Some(to),
        StepView::CopySymlink { to, .. } => Some(to),
        StepView::AddToIndex(_) => None,
        StepView::RemoveFromIndex(_) => None,
    }
}

/// Whether a step writes to a path of the target, or makes the directory above it.
pub open spec fn stays_in_target(step: StepView, to: Seq<char>) -> bool {
    match step_target(step) {
        Some(at) => at == to || (step is CreateDirs && Some(at) == path::parent_of(to)),
        None => true,
    }
}

/// Carrying a path over writes to that path of the target alone; the source is only read.
pub proof fn only_the_target_is_written(
    source_root: Seq<char>,
    target_root: Seq<char>,
    rel: Seq<char>,
    kind: NodeKind,
    indexed: bool,
    i: int,
)
    requires
        path_steps(source_root, target_root, rel, kind, indexed) matches Ok(steps) && 0 <= i
            < steps.len(),
    ensures
        stays_in_target(
            path_steps(source_root, target_root, rel, kind, indexed)->Ok_0[i],
            path::path_joined(target_root, rel),
        ),
{
}

/// Whatever stood at a path of the target is removed before anything is put there: the path is
/// removed exactly once, and a copy only comes behind that.
pub proof fn old_content_is_removed_first(
    source_root: Seq<char>,
    target_root: Seq<char>,
    rel: Seq<char>,
    kind: NodeKind,
    indexed: bool,
    i: int,
)
    requires
        path_steps(source_root, target_root, rel, kind, indexed) matches Ok(steps) && 0 <= i
            < steps.len() && (steps[i] is CopyFile || steps[i] is CopySymlink),
    ensures
        i > 0,
        path_steps(source_root, target_root, rel, kind, indexed)->Ok_0[i - 1] == StepView::Remove(
            path::path_joined(target_root, rel),
        ),
{
}

/// A path that is gone from the source is removed from the target, and nothing is put there.
pub proof fn deletions_are_carried_over(
    source_root: Seq<char>,
    target_root: Seq<char>,
    rel: Seq<char>,
    indexed: bool,
)
    ensures
        path_steps(source_root, target_root, rel, NodeKind::Missing, indexed) == Ok::<
            Seq<StepView>,
            Failure,
        >(removal_steps(path::path_joined(target_root, rel), rel, indexed)),
{
}

/// A file of the source is copied to the same path of the target, and a link is copied as a link; the
/// directory above is made first, and the path put into the index behind that where there is one. A
/// path that is gone, or is a directory, is removed, and taken out of the index. Nothing else is
/// carried over.
pub proof fn paths_become_what_they_are_in_the_source(
    source_root: Seq<char>,
    target_root: Seq<char>,
    rel: Seq<char>,
    kind: NodeKind,
    indexed: bool,
)
    ensures
        ({
            let from = path::path_joined(source_root, rel);
            let to = path::path_joined(target_root, rel);
            let out = path_steps(source_root, target_root, rel, kind, indexed);
            match kind {
                NodeKind::File | NodeKind::Symlink => out matches Ok(steps) && {
                    let copy = if kind is File {
                        StepView::CopyFile { from, to }
                    } else {
                        StepView::CopySymlink { from, to }
                    };
                    let n: int = if indexed {
                        2
                    } else {
                        1
                    };
                    &&& steps.len() > n
                    &&& steps[steps.len() - n] == copy
                    &&& steps[steps.len() - n - 1] == StepView::Remove(to)
                    &&& indexed ==> steps.last() == StepView::AddToIndex(rel)
                    &&& path::parent_of(to) matches Some(parent) ==> steps[0]
                        == StepView::CreateDirs(parent)
                },
                NodeKind::Missing | NodeKind::Directory => out matches Ok(steps) && {
                    &&& steps[0] == StepView::Remove(to)
                    &&& indexed ==> steps.len() == 2 && steps[1] == StepView::RemoveFromIndex(rel)
                    &&& !indexed ==> steps.len() == 1
                },
                NodeKind::Other | NodeKind::Unreadable(_) => out is Err,
            }
        }),
{
}

proof fn plan_holds_its_parts(
    source_root: Seq<char>,
    target_root: Seq<char>,
    paths: Seq<Seq<char>>,
    kinds: Seq<NodeKind>,
    indexed: bool,
    i: int,
)
    requires
        plan_of(source_root, target_root, paths, kinds, indexed).failure is None,
        0 <= i < paths.len(),
    ensures
        path_steps(source_root, target_root, paths[i], kinds[i], indexed) is Ok,
        forall|step: StepView| #[trigger]
            path_steps(source_root, target_root, paths[i], kinds[i], indexed)->Ok_0.contains(step)
                ==> plan_of(source_root, target_root, paths, kinds, indexed).steps.contains(step),
    decreases paths.len(),
{
    let all = plan_of(source_root, target_root, paths, kinds, indexed).steps;
    let before = plan_of(source_root, target_root, paths.drop_last(), kinds, indexed).steps;
    let part = path_steps(source_root, target_root, paths[i], kinds[i], indexed)->Ok_0;
    if i < paths.len() - 1 {
        assert(paths.drop_last()[i] == paths[i]);
        plan_holds_its_parts(source_root, target_root, paths.drop_last(), kinds, indexed, i);
    }
    assert forall|step: StepView| #[trigger] part.contains(step) implies all.contains(step) by {
        if i < paths.len() - 1 {
            assert(before.contains(step));
            let k = choose|k: int| 0 <= k < before.len() && before[k] == step;
            assert(all[k] == step);
        } else {
            let k = choose|k: int| 0 <= k < part.len() && part[k] == step;
            assert(all[before.len() + k] == step);
        }
    }
}

/// A plan without a failure carries every path over: each file of the source is copied to the target,
/// and each path that is gone is removed there.
pub proof fn all_paths_are_carried_over(
    source_root: Seq<char>,
    target_root: Seq<char>,
    paths: Seq<Seq<char>>,
    kinds: Seq<NodeKind>,
    indexed: bool,
    i: int,
)
    requires
        plan_of(source_root, target_root, paths, kinds, indexed).failure is None,
        0 <= i < paths.len(),
    ensures
        ({
            let steps = plan_of(source_root, target_root, paths, kinds, indexed).steps;
            let from = path::path_joined(source_root, paths[i]);
            let to = path::path_joined(target_root, paths[i]);
            &&& steps.contains(StepView::Remove(to))
            &&& kinds[i] is File ==> steps.contains(StepView::CopyFile { from, to })
            &&& kinds[i] is Symlink ==> steps.contains(StepView::CopySymlink { from, to })
            &&& indexed && (kinds[i] is File || kinds[i] is Symlink) ==> steps.contains(
                StepView::AddToIndex(paths[i]),
            )
            &&& indexed && (kinds[i] is Missing || kinds[i] is Directory) ==> steps.contains(
                StepView::RemoveFromIndex(paths[i]),
            )
        }),
{
    plan_holds_its_parts(source_root, target_root, paths, kinds, indexed, i);
    paths_become_what_they_are_in_the_source(source_root, target_root, paths[i], kinds[i], indexed);
    let part = path_steps(source_root, target_root, paths[i], kinds[i], indexed)->Ok_0;
    let from = path::path_joined(source_root, paths[i]);
    let to = path::path_joined(target_root, paths[i]);
    let n: int = if indexed {
        2
    } else {
        1
    };
    if kinds[i] is File || kinds[i] is Symlink {
        assert(part.contains(part[part.len() - n]));
        assert(part.contains(part[part.len() - n - 1]));
        assert(part.contains(part[part.len() - 1]));
    } else {
        assert(part.contains(part[0]));
        if indexed {
            assert(part.contains(part[1]));
        }
    }
}

/// A plan fails only where a path of the source is neither a file, a link nor a directory, or cannot be
/// looked at.
pub proof fn ordinary_paths_do_not_fail(
    source_root: Seq<char>,
    target_root: Seq<char>,
    paths: Seq<Seq<char>>,
    kinds: Seq<NodeKind>,
    indexed: bool,
)
    requires
        paths.len() <= kinds.len(),
        forall|i: int|
            0 <= i < paths.len() ==> !((#[trigger] kinds[i]) is Other) && !(kinds[i] is Unreadable),
    ensures
        plan_of(source_root, target_root, paths, kinds, indexed).failure is None,
    decreases paths.len(),
{
    if paths.len() > 0 {
        ordinary_paths_do_not_fail(source_root, target_root, paths.drop_last(), kinds, indexed);
        let kind = kinds[paths.len() - 1];
        assert(!(kind is Other) && !(kind is Unreadable));
    }
}

/// A working tree is copied as it stands: every file of its last commit and every tracked change is
/// among the paths to carry over, and nothing else is.
pub proof fn copies_hold_commits_and_changes(
    committed: Seq<TreeEntry>,
    entries: Seq<StatusEntry>,
    key: Seq<Seq<char>>,
)
    requires
        materialized_paths(committed, entries) is Ok,
    ensures
        path_set::holds_path(materialized_paths(committed, entries)->Ok_0, key) <==> (
        path_set::holds_path(tree::tracked_in(tree::entry_views(committed))->Ok_0, key)
            || path_set::holds_path(status::all_changed(Scope::All, entries), key)),
{
    let files = tree::tracked_in(tree::entry_views(committed))->Ok_0;
    let changed = status::all_changed(Scope::All, entries);
    path_set::added_paths_are_held(path_set::set_of(files), path_set::set_of(changed), key);
    path_set::added_paths_are_held(Seq::empty(), files, key);
    path_set::added_paths_are_held(Seq::empty(), changed, key);
}

} // verus!
