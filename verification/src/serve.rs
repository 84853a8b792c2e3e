//! Dirty active-repo and local-theme serve synchronization.

use vstd::prelude::*;

use crate::git::SourceMaterialization;
use crate::only::OnlyRenderPlan;
use crate::path;
use crate::path_set;
use crate::path_set::PathSet;
use crate::text;

verus! {

/// How the active repository is kept in step with a build.
#[derive(Debug, Clone)]
pub struct ActiveRepoServeSync {
    pub source_root: String,
    pub build_repo_path: String,
    pub only_plan: Option<OnlyRenderPlan>,
}

/// How the local theme is kept in step with a build.
#[derive(Debug, Clone)]
pub struct LocalThemeServeSync {
    pub theme_source_root: String,
    pub mounted_theme_dir: String,
    pub theme_index_path: String,
}

/// What is kept in step with a build.
#[derive(Debug, Clone)]
pub struct ServeSyncConfig {
    pub active_repo: Option<ActiveRepoServeSync>,
    pub local_theme: Option<LocalThemeServeSync>,
}

impl ServeSyncConfig {
    /// Whether there is anything to keep in step.
    pub fn has_targets(&self) -> (yes: bool)
        ensures
            yes == (self.active_repo is Some || self.local_theme is Some),
    {
        self.active_repo.is_some() || self.local_theme.is_some()
    }
}

/// What is kept in step with a build: the active repository where its changes are built, and the
/// theme where there is one.
pub fn serve_sync_config(
    source_materialization: SourceMaterialization,
    source_root: &str,
    repo_path: &str,
    only_plan: Option<OnlyRenderPlan>,
    local_theme_sync: Option<LocalThemeServeSync>,
) -> (out: ServeSyncConfig)
    ensures
        out.local_theme == local_theme_sync,
        match out.active_repo {
            Some(active) => source_materialization == SourceMaterialization::Dirty
                && active.source_root@ == source_root@ && active.build_repo_path@ == repo_path@
                && active.only_plan == only_plan,
            None => source_materialization == SourceMaterialization::Clean,
        },
{
    let active_repo = match source_materialization {
        SourceMaterialization::Dirty => Some(
            ActiveRepoServeSync {
                source_root: source_root.to_owned(),
                build_repo_path: repo_path.to_owned(),
                only_plan,
            },
        ),
        SourceMaterialization::Clean => None,
    };
    ServeSyncConfig { active_repo, local_theme: local_theme_sync }
}

/// Whether a path is watched: it is below the root, and not in the data of the version control.
pub open spec fn is_watched(root: Seq<char>, s: Seq<char>) -> bool {
    match path::stripped(s, root) {
        Some(relative) => path::components_of(relative).len() > 0 && path::components_of(
            relative,
        )[0] != ".git"@,
        None => false,
    }
}

/// Whether one of the paths is watched.
pub open spec fn any_watched(root: Seq<char>, paths: Seq<String>) -> bool {
    exists|i: int| 0 <= i < paths.len() && is_watched(root, (#[trigger] paths[i])@)
}

/// The lock file of an index.
pub open spec fn lock_of(index: Seq<char>) -> Option<Seq<char>> {
    match path::file_name_of(index) {
        Some(name) => Some(path::renamed(index, name + ".lock"@)),
        None => None,
    }
}

/// Whether a path is an index or its lock file.
pub open spec fn is_index(index: Seq<char>, s: Seq<char>) -> bool {
    path::same_path(s, index) || match lock_of(index) {
        Some(lock) => path::same_path(s, lock),
        None => false,
    }
}

/// Whether one of the paths is an index or its lock file.
pub open spec fn any_index(index: Seq<char>, paths: Seq<String>) -> bool {
    exists|i: int| 0 <= i < paths.len() && is_index(index, (#[trigger] paths[i])@)
}

/// Whether a path is watched.
pub fn path_is_watched_source_path(root_path: &str, file: &str) -> (yes: bool)
    ensures
        yes == is_watched(root_path@, file@),
{
    match path::strip_prefix(file, root_path) {
        Some(relative) => {
            let parts = path::components(relative.as_str());
            let ghost wanted = path::components_of(relative@);
            assert(wanted.len() == parts@.len());
            if parts.len() > 0 {
                assert(wanted[0] == parts@[0]@);
                !text::text_eq(parts[0].as_str(), ".git")
            } else {
                false
            }
        },
        None => false,
    }
}

/// Whether an event is about a watched path.
pub fn event_has_watched_source_path(root_path: &str, paths: &Vec<String>) -> (yes: bool)
    ensures
        yes == any_watched(root_path@, paths@),
{
    let mut i: usize = 0;
    while i < paths.len()
        invariant
            i <= paths@.len(),
            forall|k: int| 0 <= k < i ==> !is_watched(root_path@, (#[trigger] paths@[k])@),
        decreases paths.len() - i,
    {
        if path_is_watched_source_path(root_path, paths[i].as_str()) {
            return true;
        }
        i += 1;
    }
    false
}

/// The lock file of an index.
pub fn index_lock_path(index_path: &str) -> (out: Option<String>)
    ensures
        text::optional(out) == lock_of(index_path@),
{
    match path::file_name(index_path) {
        Some(name) => {
            let mut lock = name;
            lock.append(".lock");
            Some(path::with_file_name(index_path, lock.as_str()))
        },
        None => None,
    }
}

/// Whether an event is about an index or its lock file.
pub fn event_has_theme_index_path(index_path: &str, paths: &Vec<String>) -> (yes: bool)
    ensures
        yes == any_index(index_path@, paths@),
{
    let lock = index_lock_path(index_path);
    let mut i: usize = 0;
    while i < paths.len()
        invariant
            i <= paths@.len(),
            text::optional(lock) == lock_of(index_path@),
            forall|k: int| 0 <= k < i ==> !is_index(index_path@, (#[trigger] paths@[k])@),
        decreases paths.len() - i,
    {
        let file = paths[i].as_str();
        let found = path::equal(file, index_path) || match &lock {
            Some(lock) => path::equal(file, lock.as_str()),
            None => false,
        };
        if found {
            assert(is_index(index_path@, paths@[i as int]@));
            return true;
        }
        i += 1;
    }
    false
}

/// Whether a changed path is carried over.
pub open spec fn is_carried(plan: Option<OnlyRenderPlan>, s: Seq<char>) -> bool {
    match plan {
        Some(plan) => plan.syncs(s),
        None => true,
    }
}

/// The changed paths that are carried over, in their order.
pub open spec fn carried(plan: Option<OnlyRenderPlan>, paths: Seq<Seq<char>>) -> Seq<Seq<char>>
    decreases paths.len(),
{
    if paths.len() == 0 {
        Seq::empty()
    } else {
        let before = carried(plan, paths.drop_last());
        if is_carried(plan, paths.last()) {
            before.push(paths.last())
        } else {
            before
        }
    }
}

/// The changed paths that are carried over.
pub fn filter_dirty_paths(dirty_paths: &Vec<String>, only_plan: &Option<OnlyRenderPlan>) -> (out: PathSet)
    ensures
        out.wf(),
        out.texts() == path_set::set_of(carried(*only_plan, text::views(dirty_paths@))),
{
    let ghost all = text::views(dirty_paths@);
    let mut out = PathSet::new();
    let mut i: usize = 0;
    assert(all.take(0) =~= Seq::empty());
    while i < dirty_paths.len()
        invariant
            i <= dirty_paths@.len(),
            all == text::views(dirty_paths@),
            out.wf(),
            out.texts() == path_set::set_of(carried(*only_plan, all.take(i as int))),
        decreases dirty_paths.len() - i,
    {
        let ghost before = carried(*only_plan, all.take(i as int));
        proof {
            assert(all.take(i + 1).drop_last() =~= all.take(i as int));
            assert(all.take(i + 1).last() == dirty_paths@[i as int]@);
        }
        let keep = match only_plan {
            Some(plan) => plan.should_sync_dirty_path(dirty_paths[i].as_str()),
            None => true,
        };
        if keep {
            assert(before.push(dirty_paths@[i as int]@).drop_last() =~= before);
            out.insert(dirty_paths[i].clone());
        }
        i += 1;
    }
    assert(all.take(i as int) =~= all);
    out
}

/// The paths that changed before or now.
pub fn affected_dirty_paths(previous_dirty_paths: &PathSet, current_dirty_paths: &PathSet) -> (out: PathSet)
    requires
        previous_dirty_paths.wf(),
    ensures
        out.wf(),
        out.texts() == path_set::with_members(
            previous_dirty_paths.texts(),
            current_dirty_paths.texts(),
        ),
{
    let mut out = previous_dirty_paths.copy();
    out.extend(current_dirty_paths.to_vec());
    out
}

/// Whether a path is the Markdown of a selected proposal, and gone.
pub open spec fn is_selected_deletion(plan: &OnlyRenderPlan, s: Seq<char>, gone: bool) -> bool {
    gone && match path::stripped(s, crate::layout::CONTENT_DIR@) {
        Some(rel) => match crate::proposal::markdown_number(rel) {
            Some(number) => plan.selects(number),
            None => false,
        },
        None => false,
    }
}

/// The Markdown of selected proposals that is gone, in order.
pub open spec fn selected_deletions(
    plan: &OnlyRenderPlan,
    paths: Seq<Seq<char>>,
    gone: Seq<bool>,
) -> Seq<Seq<char>>
    decreases paths.len(),
{
    if paths.len() == 0 {
        Seq::empty()
    } else {
        let before = selected_deletions(plan, paths.drop_last(), gone);
        if is_selected_deletion(plan, paths.last(), gone[paths.len() - 1]) {
            before.push(paths.last())
        } else {
            before
        }
    }
}

/// The Markdown of selected proposals that is gone from the source, given for each path whether it
/// is.
pub fn selected_deleted_proposal_markdown_paths(
    affected_paths: &PathSet,
    gone: &Vec<bool>,
    only_plan: &Option<OnlyRenderPlan>,
) -> (out: Vec<String>)
    requires
        gone@.len() == affected_paths.texts().len(),
    ensures
        text::views(out@) == match *only_plan {
            Some(plan) => selected_deletions(&plan, affected_paths.texts(), gone@),
            None => Seq::empty(),
        },
{
    let mut out: Vec<String> = Vec::new();
    assert(text::views(out@) =~= Seq::empty());
    let plan = match only_plan {
        Some(plan) => plan,
        None => return out,
    };
    let ghost all = affected_paths.texts();
    let mut i: usize = 0;
    assert(all.take(0) =~= Seq::empty());
    while i < affected_paths.len()
        invariant
            i <= all.len(),
            all == affected_paths.texts(),
            gone@.len() == all.len(),
            text::views(out@) == selected_deletions(plan, all.take(i as int), gone@),
        decreases all.len() - i,
    {
        let ghost before = out@;
        proof {
            assert(all.take(i + 1).drop_last() =~= all.take(i as int));
            assert(all.take(i + 1).last() == all[i as int]);
        }
        let file = affected_paths.get(i);
        if gone[i] && plan.is_selected_proposal_markdown_path(file) {
            let file = file.to_owned();
            assert(text::views(before.push(file)) =~= text::views(before).push(file@));
            out.push(file);
        }
        i += 1;
    }
    assert(all.take(i as int) =~= all);
    out
}

/// What watching a file and the directory above it gave.
pub open spec fn index_watch_failure(
    index: Seq<char>,
    file_error: Option<String>,
    parent_error: Option<String>,
) -> Option<Seq<char>> {
    match (file_error, path::parent_of(index), parent_error) {
        (None, None, _) => None,
        (Some(error), None, _) => Some(
            text::glued(
                seq!["unable to watch local theme Git index `"@, index, "`: "@ + error@],
            ),
        ),
        (Some(error), Some(parent), Some(other)) => Some(
            text::glued(
                seq![
                    "unable to watch local theme Git index `"@,
                    index,
                    "`: "@ + error@,
                    "; fallback watch on `"@,
                    parent,
                    "` also failed: "@ + other@,
                ],
            ),
        ),
        _ => None,
    }
}

/// Whether watching an index failed: one watch, on the file or on the directory above it, is enough.
pub fn watch_theme_index(
    theme_index_path: &str,
    file_error: &Option<String>,
    parent_error: &Option<String>,
) -> (out: Result<(), String>)
    ensures
        match out {
            Ok(_) => index_watch_failure(theme_index_path@, *file_error, *parent_error) is None,
            Err(message) => index_watch_failure(theme_index_path@, *file_error, *parent_error)
                == Some(message@),
        },
{
    let error = match file_error {
        Some(error) => error,
        None => return Ok(()),
    };
    let mut why = "`: ".to_owned();
    why.append(error.as_str());
    match path::parent(theme_index_path) {
        None => Err(
            text::wrap("unable to watch local theme Git index `", theme_index_path, why.as_str()),
        ),
        Some(parent) => match parent_error {
            None => Ok(()),
            Some(other) => {
                let mut tail = "` also failed: ".to_owned();
                tail.append(other.as_str());
                let parts = vec![
                    "unable to watch local theme Git index `",
                    theme_index_path,
                    why.as_str(),
                    "; fallback watch on `",
                    parent.as_str(),
                    tail.as_str(),
                ];
                assert(text::str_views(parts@) =~= seq![
                    "unable to watch local theme Git index `"@,
                    theme_index_path@,
                    "`: "@ + error@,
                    "; fallback watch on `"@,
                    parent@,
                    "` also failed: "@ + other@,
                ]);
                Err(text::glue(parts))
            },
        },
    }
}

/// A path is watched exactly where it stands below the root, other than in `.git`.
pub proof fn edits_below_the_root_are_watched(root: Seq<char>, s: Seq<char>)
    requires
        path::components_of(root).len() > 0,
    ensures
        is_watched(root, s) <==> {
            let parts = path::components_of(s);
            let n = path::components_of(root).len() as int;
            parts.len() > n && parts.take(n) == path::components_of(root) && parts[n] != ".git"@
        },
{
    let parts = path::components_of(s);
    let base = path::components_of(root);
    let n = base.len() as int;
    path::stripping_drops_components(s, root);
    if path::under(s, root) {
        let inner = path::components_of(path::stripped(s, root)->0);
        assert(parts =~= base + inner);
        assert(inner =~= parts.skip(n));
        if inner.len() > 0 {
            assert(inner[0] == parts[n]);
        }
    }
}

/// An index is watched under its own path and under that of its lock, which stands beside it and has
/// its name with `.lock`.
pub proof fn indexes_are_watched_with_their_locks(index: Seq<char>, s: Seq<char>, name: Seq<char>)
    requires
        path::file_name_of(index) == Some(name),
        path::components_of(name + ".lock"@) == seq![name + ".lock"@],
        !path::has_start_component(name + ".lock"@),
    ensures
        is_index(index, s) <==> path::components_of(s) == path::components_of(index)
            || path::components_of(s) == path::components_of(index).drop_last().push(
            name + ".lock"@,
        ),
{
    path::renaming_replaces_the_last_component(index, name + ".lock"@);
}

/// Without a selection every changed path is carried over, and with one exactly those that the
/// selection syncs are, in their order.
pub proof fn carried_paths_are_those_of_the_selection(
    plan: Option<OnlyRenderPlan>,
    paths: Seq<Seq<char>>,
    s: Seq<char>,
)
    ensures
        plan is None ==> carried(plan, paths) == paths,
        carried(plan, paths).contains(s) <==> paths.contains(s) && (plan matches Some(plan)
            ==> plan.syncs(s)),
    decreases paths.len(),
{
    let all = carried(plan, paths);
    if paths.len() == 0 {
        assert(all =~= paths);
    } else {
        let shorter = paths.drop_last();
        let before = carried(plan, shorter);
        carried_paths_are_those_of_the_selection(plan, shorter, s);
        if plan is None {
            assert(all =~= paths);
        }
        if before.contains(s) {
            let k = choose|k: int| 0 <= k < before.len() && before[k] == s;
            assert(all[k] == s);
        }
        if shorter.contains(s) {
            let k = choose|k: int| 0 <= k < shorter.len() && shorter[k] == s;
            assert(paths[k] == s);
        }
        assert(paths[paths.len() - 1] == paths.last());
        if paths.last() == s && is_carried(plan, s) {
            assert(all[all.len() - 1] == s);
        }
        if all.contains(s) {
            let k = choose|k: int| 0 <= k < all.len() && all[k] == s;
            if k < before.len() {
                assert(before[k] == s);
            }
        }
        if paths.contains(s) {
            let k = choose|k: int| 0 <= k < paths.len() && paths[k] == s;
            if k < shorter.len() {
                assert(shorter[k] == s);
            }
        }
    }
}

/// The Markdown of a selected proposal that is gone is listed as deleted, whichever way it stood in
/// the content directory; nothing that is still there, and nothing of another proposal, is.
pub proof fn deletions_of_selected_proposals_are_listed(
    plan: &OnlyRenderPlan,
    paths: Seq<Seq<char>>,
    gone: Seq<bool>,
    i: int,
    digits: Seq<char>,
)
    requires
        0 <= i < paths.len(),
        digits.len() > 0,
        text::all_digits(digits),
        0 < text::decimal_value(digits) <= u32::MAX,
        path::components_of(paths[i]) == seq!["content"@, digits + ".md"@]
            || path::components_of(paths[i]) == seq!["content"@, digits, "index.md"@],
        forall|j: int| 0 <= j < paths.len() && j != i ==> #[trigger] paths[j] != paths[i],
    ensures
        selected_deletions(plan, paths, gone).contains(paths[i]) <==> gone[i]
            && plan.selection().contains(text::decimal_value(digits) as u32),
{
    crate::proposal::proposal_paths_have_their_components(paths[i], digits);
    assert(is_selected_deletion(plan, paths[i], gone[i]) <==> gone[i] && plan.selection().contains(
        text::decimal_value(digits) as u32,
    ));
    deletion_is_listed(plan, paths, gone, i);
}

proof fn deletion_is_listed(
    plan: &OnlyRenderPlan,
    paths: Seq<Seq<char>>,
    gone: Seq<bool>,
    i: int,
)
    requires
        0 <= i < paths.len(),
        forall|j: int| 0 <= j < paths.len() && j != i ==> #[trigger] paths[j] != paths[i],
    ensures
        selected_deletions(plan, paths, gone).contains(paths[i]) <==> is_selected_deletion(
            plan,
            paths[i],
            gone[i],
        ),
    decreases paths.len(),
{
    let all = selected_deletions(plan, paths, gone);
    let shorter = paths.drop_last();
    let before = selected_deletions(plan, shorter, gone);
    let s = paths[i];
    assert forall|k: int| 0 <= k < before.len() && before[k] == s implies all.contains(s) by {
        assert(all[k] == s);
    }
    if i == paths.len() - 1 {
        deletions_come_from_the_list(plan, shorter, gone, s);
        if is_selected_deletion(plan, s, gone[i]) {
            assert(all[all.len() - 1] == s);
        }
        if before.contains(s) {
            let j = choose|j: int| 0 <= j < shorter.len() && shorter[j] == s;
            assert(paths[j] == s);
        }
    } else {
        assert forall|j: int| 0 <= j < shorter.len() && j != i implies #[trigger] shorter[j]
            != shorter[i] by {
            assert(paths[j] != paths[i]);
        }
        deletion_is_listed(plan, shorter, gone, i);
        assert(paths[paths.len() - 1] != s);
        if all.contains(s) {
            let k = choose|k: int| 0 <= k < all.len() && all[k] == s;
            assert(k < before.len());
            assert(before[k] == s);
        }
        if before.contains(s) {
            let k = choose|k: int| 0 <= k < before.len() && before[k] == s;
            assert(all[k] == s);
        }
    }
}

proof fn deletions_come_from_the_list(
    plan: &OnlyRenderPlan,
    paths: Seq<Seq<char>>,
    gone: Seq<bool>,
    s: Seq<char>,
)
    ensures
        selected_deletions(plan, paths, gone).contains(s) ==> paths.contains(s),
    decreases paths.len(),
{
    if paths.len() > 0 {
        let all = selected_deletions(plan, paths, gone);
        let before = selected_deletions(plan, paths.drop_last(), gone);
        deletions_come_from_the_list(plan, paths.drop_last(), gone, s);
        if all.contains(s) {
            let k = choose|k: int| 0 <= k < all.len() && all[k] == s;
            if k < before.len() {
                assert(before[k] == s);
                let j = choose|j: int| 0 <= j < paths.drop_last().len() && paths.drop_last()[j] == s;
                assert(paths[j] == s);
            } else {
                assert(paths[paths.len() - 1] == s);
            }
        }
    }
}

/// An index is watched where its file or the directory above it is: only where neither can be, or the
/// file cannot be and there is no directory above it, is that a failure.
pub proof fn one_watch_on_an_index_is_enough(
    index: Seq<char>,
    file_error: Option<String>,
    parent_error: Option<String>,
)
    ensures
        index_watch_failure(index, file_error, parent_error) is Some <==> file_error is Some && (
        path::parent_of(index) is None || parent_error is Some),
{
}

} // verus!
