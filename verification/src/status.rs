//! Uncommitted changes of a repository.

use vstd::prelude::*;

use crate::git::{Error, Failure};
use crate::layout::BUILD_DIR;
use crate::path;
use crate::path_set;
use crate::path_set::PathSet;
use crate::text;

verus! {

/// How many changed paths a rejection lists.
pub const DIRTY_PATH_DISPLAY_LIMIT: usize = 10;

/// The paths of a file before and after a change.
#[derive(Debug, Clone, PartialEq, Eq)]
pub struct Delta {
    pub old: Option<String>,
    pub new: Option<String>,
}

/// How a file differs from the last commit.
#[derive(Debug, Clone, Copy, PartialEq, Eq, Structural)]
pub enum StatusKind {
    /// It is in conflict.
    Conflicted,
    /// It does not differ, or is ignored.
    Unchanged,
    /// It is not tracked.
    Untracked,
    /// It is tracked and differs.
    Changed,
}

/// The status of a file.
#[derive(Debug, Clone, PartialEq, Eq)]
pub struct StatusEntry {
    pub kind: StatusKind,
    /// The change from the last commit to the index.
    pub head_to_index: Option<Delta>,
    /// The change from the index to the working tree.
    pub index_to_workdir: Option<Delta>,
    pub path: Option<String>,
}

/// Which changed paths are asked for.
#[derive(Debug, Clone, Copy, PartialEq, Eq, Structural)]
pub enum Scope {
    /// All of them.
    All,
    /// Those outside the directory of builds.
    Source,
}

/// The bits of a status that matter, as `git` numbers them.
pub const STATUS_CURRENT: u32 = 0;

pub const STATUS_WT_NEW: u32 = 0x80;

pub const STATUS_IGNORED: u32 = 0x4000;

pub const STATUS_CONFLICTED: u32 = 0x8000;

/// What the bits of a status say.
pub open spec fn kind_of(bits: u32) -> StatusKind {
    if bits & STATUS_CONFLICTED != 0 {
        StatusKind::Conflicted
    } else if bits == STATUS_CURRENT || bits == STATUS_IGNORED {
        StatusKind::Unchanged
    } else if bits == STATUS_WT_NEW {
        StatusKind::Untracked
    } else {
        StatusKind::Changed
    }
}

/// What the bits of a status say.
pub fn status_kind(bits: u32) -> (out: StatusKind)
    ensures
        out == kind_of(bits),
{
    if bits & STATUS_CONFLICTED != 0 {
        StatusKind::Conflicted
    } else if bits == STATUS_CURRENT || bits == STATUS_IGNORED {
        StatusKind::Unchanged
    } else if bits == STATUS_WT_NEW {
        StatusKind::Untracked
    } else {
        StatusKind::Changed
    }
}

/// Whether a path is inside the directory of builds.
pub open spec fn generated(s: Seq<char>) -> bool {
    let parts = path::components_of(s);
    parts.len() > 0 && parts[0] == BUILD_DIR@
}

/// Whether a path is asked for.
pub open spec fn in_scope(scope: Scope, s: Seq<char>) -> bool {
    scope == Scope::All || !generated(s)
}

/// The path of a file after a change, or before it where it is gone.
pub open spec fn delta_path(delta: Option<Delta>) -> Option<Seq<char>> {
    match delta {
        Some(Delta { new: Some(new), .. }) => Some(new@),
        Some(Delta { new: None, old: Some(old) }) => Some(old@),
        _ => None,
    }
}

/// The path that a status is shown under.
pub open spec fn shown_path(entry: StatusEntry) -> Seq<char> {
    match delta_path(entry.head_to_index) {
        Some(found) => found,
        None => match delta_path(entry.index_to_workdir) {
            Some(found) => found,
            None => match entry.path {
                Some(found) => found@,
                None => "<unknown>"@,
            },
        },
    }
}

/// A path as a list, where it is there and asked for.
pub open spec fn one_in_scope(scope: Scope, s: Option<String>) -> Seq<Seq<char>> {
    match s {
        Some(s) => if in_scope(scope, s@) {
            seq![s@]
        } else {
            Seq::empty()
        },
        None => Seq::empty(),
    }
}

/// The paths of a change that are asked for.
pub open spec fn delta_paths(scope: Scope, delta: Option<Delta>) -> Seq<Seq<char>> {
    match delta {
        Some(delta) => one_in_scope(scope, delta.old) + one_in_scope(scope, delta.new),
        None => Seq::empty(),
    }
}

/// The changed paths that a status has.
pub open spec fn changed_paths(scope: Scope, entry: StatusEntry) -> Seq<Seq<char>> {
    if entry.kind == StatusKind::Changed {
        let shown = shown_path(entry);
        delta_paths(scope, entry.head_to_index) + delta_paths(scope, entry.index_to_workdir) + (
        if in_scope(scope, shown) {
            seq![shown]
        } else {
            Seq::empty()
        })
    } else {
        Seq::empty()
    }
}

/// The changed paths of all statuses, in their order.
pub open spec fn all_changed(scope: Scope, entries: Seq<StatusEntry>) -> Seq<Seq<char>>
    decreases entries.len(),
{
    if entries.len() == 0 {
        Seq::empty()
    } else {
        all_changed(scope, entries.drop_last()) + changed_paths(scope, entries.last())
    }
}

/// Whether a status is of an untracked file that is asked for.
pub open spec fn counts_as_untracked(scope: Scope, entry: StatusEntry) -> bool {
    entry.kind == StatusKind::Untracked && in_scope(scope, shown_path(entry))
}

/// How many untracked files there are.
pub open spec fn untracked_in(scope: Scope, entries: Seq<StatusEntry>) -> nat
    decreases entries.len(),
{
    if entries.len() == 0 {
        0
    } else {
        untracked_in(scope, entries.drop_last()) + if counts_as_untracked(scope, entries.last()) {
            1nat
        } else {
            0nat
        }
    }
}

/// The path of the first conflict.
pub open spec fn first_conflict(entries: Seq<StatusEntry>) -> Option<Seq<char>>
    decreases entries.len(),
{
    if entries.len() == 0 {
        None
    } else {
        match first_conflict(entries.drop_last()) {
            Some(found) => Some(found),
            None => if entries.last().kind == StatusKind::Conflicted {
                Some(shown_path(entries.last()))
            } else {
                None
            },
        }
    }
}

/// Whether a path is inside the directory of builds.
pub fn is_generated_path(file: &str) -> (yes: bool)
    ensures
        yes == generated(file@),
{
    let parts = path::components(file);
    let ghost wanted = path::components_of(file@);
    assert(wanted.len() == parts@.len());
    if parts.len() > 0 {
        assert(wanted[0] == parts@[0]@);
        text::text_eq(parts[0].as_str(), BUILD_DIR)
    } else {
        false
    }
}

/// Whether a path is asked for.
fn is_in_scope(scope: Scope, file: &str) -> (yes: bool)
    ensures
        yes == in_scope(scope, file@),
{
    match scope {
        Scope::All => true,
        Scope::Source => !is_generated_path(file),
    }
}

/// The path of a file after a change, or before it where it is gone.
fn path_of_delta(delta: &Option<Delta>) -> (out: Option<String>)
    ensures
        text::optional(out) == delta_path(*delta),
{
    match delta {
        Some(delta) => match &delta.new {
            Some(new) => Some(new.clone()),
            None => match &delta.old {
                Some(old) => Some(old.clone()),
                None => None,
            },
        },
        None => None,
    }
}

/// The path that a status is shown under.
pub fn entry_path(entry: &StatusEntry) -> (out: String)
    ensures
        out@ == shown_path(*entry),
{
    match path_of_delta(&entry.head_to_index) {
        Some(found) => found,
        None => match path_of_delta(&entry.index_to_workdir) {
            Some(found) => found,
            None => match &entry.path {
                Some(found) => found.clone(),
                None => "<unknown>".to_owned(),
            },
        },
    }
}

/// Appends a path to the list, where it is there and asked for.
fn push_in_scope(list: &mut Vec<String>, scope: Scope, file: &Option<String>)
    ensures
        text::views(final(list)@) == text::views(old(list)@) + one_in_scope(scope, *file),
{
    let ghost before = list@;
    if let Some(file) = file {
        if is_in_scope(scope, file.as_str()) {
            list.push(file.clone());
        }
    }
    assert(text::views(list@) =~= text::views(before) + one_in_scope(scope, *file));
}

/// Appends the paths of a change to the list.
fn push_delta(list: &mut Vec<String>, scope: Scope, delta: &Option<Delta>)
    ensures
        text::views(final(list)@) == text::views(old(list)@) + delta_paths(scope, *delta),
{
    let ghost before = text::views(list@);
    if let Some(delta) = delta {
        push_in_scope(list, scope, &delta.old);
        push_in_scope(list, scope, &delta.new);
    }
    assert(text::views(list@) =~= before + delta_paths(scope, *delta));
}

/// The changed paths that a status has.
fn paths_of_entry(scope: Scope, entry: &StatusEntry) -> (out: Vec<String>)
    requires
        entry.kind == StatusKind::Changed,
    ensures
        text::views(out@) == changed_paths(scope, *entry),
{
    let mut out: Vec<String> = Vec::new();
    assert(text::views(out@) =~= Seq::empty());
    push_delta(&mut out, scope, &entry.head_to_index);
    push_delta(&mut out, scope, &entry.index_to_workdir);
    let ghost before = out@;
    let shown = entry_path(entry);
    if is_in_scope(scope, shown.as_str()) {
        out.push(shown);
    }
    assert(text::views(out@) =~= changed_paths(scope, *entry));
    out
}

proof fn with_members_of_two(start: Seq<Seq<char>>, a: Seq<Seq<char>>, b: Seq<Seq<char>>)
    ensures
        path_set::with_members(start, a + b) == path_set::with_members(
            path_set::with_members(start, a),
            b,
        ),
    decreases b.len(),
{
    if b.len() == 0 {
        assert(a + b =~= a);
    } else {
        assert((a + b).drop_last() =~= a + b.drop_last());
        assert((a + b).last() == b.last());
        with_members_of_two(start, a, b.drop_last());
    }
}

proof fn conflict_stays(entries: Seq<StatusEntry>, n: int)
    requires
        0 <= n <= entries.len(),
        first_conflict(entries.take(n)) is Some,
    ensures
        first_conflict(entries) == first_conflict(entries.take(n)),
    decreases entries.len(),
{
    if n == entries.len() {
        assert(entries.take(n) =~= entries);
    } else {
        assert(entries.drop_last().take(n) =~= entries.take(n));
        conflict_stays(entries.drop_last(), n);
    }
}

/// The changed paths of a repository, and how many untracked files it has.
pub fn collect_dirty_paths(entries: &Vec<StatusEntry>, scope: Scope) -> (out: Result<
    (PathSet, usize),
    Error,
>)
    ensures
        match out {
            Ok((paths, untracked)) => first_conflict(entries@) is None && paths.wf()
                && paths.texts() == path_set::set_of(all_changed(scope, entries@)) && untracked
                == untracked_in(scope, entries@),
            Err(error) => first_conflict(entries@) matches Some(found) && error@
                == Failure::DirtyConflict(found),
        },
{
    let mut paths = PathSet::new();
    let mut untracked: usize = 0;
    let total: usize = entries.len();
    let mut i: usize = 0;
    assert(entries@.take(0) =~= Seq::empty());
    while i < total
        invariant
            i <= total,
            total == entries@.len(),
            first_conflict(entries@.take(i as int)) is None,
            paths.wf(),
            paths.texts() == path_set::set_of(all_changed(scope, entries@.take(i as int))),
            untracked == untracked_in(scope, entries@.take(i as int)),
            untracked <= i,
        decreases total - i,
    {
        let entry = &entries[i];
        proof {
            assert(entries@.take(i + 1).drop_last() =~= entries@.take(i as int));
            assert(entries@.take(i + 1).last() == *entry);
            with_members_of_two(
                Seq::empty(),
                all_changed(scope, entries@.take(i as int)),
                changed_paths(scope, *entry),
            );
            assert(path_set::with_members(paths.texts(), Seq::empty()) == paths.texts());
        }
        match entry.kind {
            StatusKind::Conflicted => {
                proof {
                    conflict_stays(entries@, i + 1);
                }
                return Err(Error::DirtyConflict { path: entry_path(entry) });
            },
            StatusKind::Unchanged => {},
            StatusKind::Untracked => {
                let shown = entry_path(entry);
                if is_in_scope(scope, shown.as_str()) {
                    untracked += 1;
                }
            },
            StatusKind::Changed => {
                let more = paths_of_entry(scope, entry);
                paths.extend(more);
            },
        }
        i += 1;
    }
    assert(entries@.take(i as int) =~= entries@);
    Ok((paths, untracked))
}

/// The changed paths of a repository, unless a file has a conflict.
pub open spec fn listing(scope: Scope, entries: Seq<StatusEntry>) -> Result<
    Seq<Seq<char>>,
    Failure,
> {
    match first_conflict(entries) {
        Some(found) => Err(Failure::DirtyConflict(found)),
        None => Ok(path_set::set_of(all_changed(scope, entries))),
    }
}

/// The changed paths of a repository, without those inside the directory of builds.
pub fn working_tree_paths(entries: &Vec<StatusEntry>) -> (out: Result<Vec<String>, Error>)
    ensures
        match out {
            Ok(paths) => listing(Scope::Source, entries@) == Ok::<Seq<Seq<char>>, Failure>(
                text::views(paths@),
            ),
            Err(error) => listing(Scope::Source, entries@) == Err::<Seq<Seq<char>>, Failure>(error@),
        },
{
    match collect_dirty_paths(entries, Scope::Source) {
        Ok((paths, _)) => Ok(paths.to_vec()),
        Err(error) => Err(error),
    }
}

/// All changed paths of a repository.
pub fn tracked_working_tree_paths(entries: &Vec<StatusEntry>) -> (out: Result<Vec<String>, Error>)
    ensures
        match out {
            Ok(paths) => listing(Scope::All, entries@) == Ok::<Seq<Seq<char>>, Failure>(
                text::views(paths@),
            ),
            Err(error) => listing(Scope::All, entries@) == Err::<Seq<Seq<char>>, Failure>(error@),
        },
{
    match collect_dirty_paths(entries, Scope::All) {
        Ok((paths, _)) => Ok(paths.to_vec()),
        Err(error) => Err(error),
    }
}

/// The paths that a rejection lists.
pub open spec fn listed_paths(paths: Seq<Seq<char>>) -> Seq<Seq<char>> {
    let shown = if paths.len() > DIRTY_PATH_DISPLAY_LIMIT {
        DIRTY_PATH_DISPLAY_LIMIT as nat
    } else {
        paths.len()
    };
    Seq::new(shown, |i: int| "- "@ + paths[i])
}

/// The lines of a rejection.
pub open spec fn rejection_lines(paths: Seq<Seq<char>>, untracked: nat) -> Seq<Seq<char>> {
    let head = seq![
        "working tree or index has uncommitted modifications; the selected clean source path requires a clean working tree:"@,
    ];
    let more = if paths.len() > DIRTY_PATH_DISPLAY_LIMIT {
        seq![
            text::glued(
                seq![
                    "- ... and "@,
                    text::decimal_digits((paths.len() - DIRTY_PATH_DISPLAY_LIMIT) as nat),
                    " more tracked path(s)"@,
                ],
            ),
        ]
    } else {
        Seq::empty()
    };
    let unlisted = if untracked > 0 {
        seq![
            text::glued(
                seq![
                    "- ... plus "@,
                    text::decimal_digits(untracked),
                    " untracked file(s) not listed"@,
                ],
            ),
        ]
    } else {
        Seq::empty()
    };
    let advice = if untracked > 0 {
        "For local build/serve/check commands, run without `--clean` to include tracked local changes. For `--clean` runs, commit or stash tracked changes first. Commit/stash/remove untracked files before retrying."@
    } else {
        "For local build/serve/check commands, run without `--clean` to include tracked local changes. For `--clean` runs, commit or stash tracked changes first."@
    };
    head + listed_paths(paths) + more + unlisted + seq![""@, advice]
}

/// Appends a line.
fn push_line(lines: &mut Vec<String>, line: String)
    ensures
        text::views(final(lines)@) == text::views(old(lines)@).push(line@),
{
    let ghost before = lines@;
    assert(text::views(before.push(line)) =~= text::views(before).push(line@));
    lines.push(line);
}

/// The message that rejects a repository with changes.
pub fn format_dirty_rejection(tracked_paths: &PathSet, untracked_count: usize) -> (out: String)
    ensures
        out@ == text::joined(
            rejection_lines(tracked_paths.texts(), untracked_count as nat),
            "\n"@,
        ),
{
    let ghost paths = tracked_paths.texts();
    let mut lines: Vec<String> = Vec::new();
    assert(text::views(lines@) =~= Seq::empty());
    push_line(
        &mut lines,
        "working tree or index has uncommitted modifications; the selected clean source path requires a clean working tree:".to_owned(),
    );
    let ghost head = text::views(lines@);
    let count: usize = tracked_paths.len();
    let shown: usize = if count > DIRTY_PATH_DISPLAY_LIMIT {
        DIRTY_PATH_DISPLAY_LIMIT
    } else {
        count
    };
    let ghost listed = listed_paths(paths);
    let mut i: usize = 0;
    assert(listed.take(0) =~= Seq::empty());
    assert(text::views(lines@) =~= head + listed.take(0));
    while i < shown
        invariant
            i <= shown,
            shown <= count,
            count == tracked_paths.texts().len(),
            paths == tracked_paths.texts(),
            listed == listed_paths(paths),
            listed.len() == shown,
            text::views(lines@) == head + listed.take(i as int),
        decreases shown - i,
    {
        let mut line = "- ".to_owned();
        line.append(tracked_paths.get(i));
        assert(listed.take(i + 1) =~= listed.take(i as int).push(line@));
        assert(head + listed.take(i as int).push(line@) =~= (head + listed.take(i as int)).push(
            line@,
        ));
        push_line(&mut lines, line);
        i += 1;
    }
    assert(listed.take(shown as int) =~= listed);
    if count > DIRTY_PATH_DISPLAY_LIMIT {
        let rest = text::decimal(count - DIRTY_PATH_DISPLAY_LIMIT);
        push_line(
            &mut lines,
            text::wrap("- ... and ", rest.as_str(), " more tracked path(s)"),
        );
    }
    if untracked_count > 0 {
        let digits = text::decimal(untracked_count);
        push_line(
            &mut lines,
            text::wrap("- ... plus ", digits.as_str(), " untracked file(s) not listed"),
        );
    }
    push_line(&mut lines, "".to_owned());
    if untracked_count > 0 {
        push_line(
            &mut lines,
            "For local build/serve/check commands, run without `--clean` to include tracked local changes. For `--clean` runs, commit or stash tracked changes first. Commit/stash/remove untracked files before retrying.".to_owned(),
        );
    } else {
        push_line(
            &mut lines,
            "For local build/serve/check commands, run without `--clean` to include tracked local changes. For `--clean` runs, commit or stash tracked changes first.".to_owned(),
        );
    }
    assert(text::views(lines@) =~= rejection_lines(paths, untracked_count as nat));
    text::join(&lines, "\n")
}

/// Whether a repository has no changes, neither tracked nor untracked, outside the directory of
/// builds.
pub open spec fn is_clean(entries: Seq<StatusEntry>) -> bool {
    &&& first_conflict(entries) is None
    &&& all_changed(Scope::Source, entries).len() == 0
    &&& untracked_in(Scope::Source, entries) == 0
}

/// Why a repository with changes is rejected.
pub open spec fn rejection(entries: Seq<StatusEntry>) -> Failure {
    match first_conflict(entries) {
        Some(found) => Failure::DirtyConflict(found),
        None => Failure::Dirty(
            text::joined(
                rejection_lines(
                    path_set::set_of(all_changed(Scope::Source, entries)),
                    untracked_in(Scope::Source, entries),
                ),
                "\n"@,
            ),
        ),
    }
}

proof fn empty_set_has_no_members(added: Seq<Seq<char>>)
    ensures
        (path_set::set_of(added).len() == 0) == (added.len() == 0),
{
    if added.len() > 0 {
        let key = path::components_of(added[0]);
        assert(path_set::holds_path(added, key));
        path_set::added_paths_are_held(Seq::empty(), added, key);
    }
}

/// Rejects a repository with changes outside the directory of builds.
pub fn check_dirty(entries: &Vec<StatusEntry>) -> (out: Result<(), Error>)
    ensures
        match out {
            Ok(_) => is_clean(entries@),
            Err(error) => !is_clean(entries@) && error@ == rejection(entries@),
        },
{
    proof {
        empty_set_has_no_members(all_changed(Scope::Source, entries@));
    }
    match collect_dirty_paths(entries, Scope::Source) {
        Err(error) => Err(error),
        Ok((paths, untracked)) => {
            if paths.is_empty() && untracked == 0 {
                Ok(())
            } else {
                Err(Error::Dirty { message: format_dirty_rejection(&paths, untracked) })
            }
        },
    }
}

/// No path inside the directory of builds is ever listed as a change of the source.
pub proof fn generated_paths_are_never_listed(entries: Seq<StatusEntry>, i: int)
    requires
        0 <= i < path_set::set_of(all_changed(Scope::Source, entries)).len(),
    ensures
        !generated(path_set::set_of(all_changed(Scope::Source, entries))[i]),
{
    let added = all_changed(Scope::Source, entries);
    path_set::members_come_from_somewhere(Seq::empty(), added, i);
    let s = path_set::set_of(added)[i];
    assert(added.contains(s));
    let k = choose|k: int| 0 <= k < added.len() && added[k] == s;
    changed_paths_are_in_scope(Scope::Source, entries, k);
}

proof fn changed_paths_are_in_scope(scope: Scope, entries: Seq<StatusEntry>, k: int)
    requires
        0 <= k < all_changed(scope, entries).len(),
    ensures
        in_scope(scope, all_changed(scope, entries)[k]),
    decreases entries.len(),
{
    if entries.len() > 0 {
        let before = all_changed(scope, entries.drop_last());
        let last = changed_paths(scope, entries.last());
        if k < before.len() {
            changed_paths_are_in_scope(scope, entries.drop_last(), k);
        } else {
            assert(all_changed(scope, entries)[k] == last[k - before.len()]);
        }
    }
}

/// The paths outside the directory of builds, in their order.
pub open spec fn without_generated(paths: Seq<Seq<char>>) -> Seq<Seq<char>>
    decreases paths.len(),
{
    if paths.len() == 0 {
        Seq::empty()
    } else if generated(paths.last()) {
        without_generated(paths.drop_last())
    } else {
        without_generated(paths.drop_last()).push(paths.last())
    }
}

proof fn without_generated_of_two(a: Seq<Seq<char>>, b: Seq<Seq<char>>)
    ensures
        without_generated(a + b) == without_generated(a) + without_generated(b),
    decreases b.len(),
{
    if b.len() == 0 {
        assert(a + b =~= a);
        assert(without_generated(a) + without_generated(b) =~= without_generated(a));
    } else {
        without_generated_of_two(a, b.drop_last());
        assert((a + b).drop_last() =~= a + b.drop_last());
        assert((a + b).last() == b.last());
        assert(without_generated(a + b) =~= without_generated(a) + without_generated(b));
    }
}

proof fn without_generated_keeps_one(paths: Seq<Seq<char>>, i: int) -> (k: int)
    requires
        0 <= i < without_generated(paths).len(),
    ensures
        0 <= k < paths.len(),
        paths[k] == without_generated(paths)[i],
        !generated(paths[k]),
    decreases paths.len(),
{
    let shorter = without_generated(paths.drop_last());
    if i < shorter.len() {
        without_generated_keeps_one(paths.drop_last(), i)
    } else {
        paths.len() - 1
    }
}

proof fn without_generated_holds(paths: Seq<Seq<char>>, s: Seq<char>)
    requires
        !generated(s),
    ensures
        path_set::holds_path(without_generated(paths), path::components_of(s))
            == path_set::holds_path(paths, path::components_of(s)),
    decreases paths.len(),
{
    let key = path::components_of(s);
    let kept = without_generated(paths);
    if path_set::holds_path(kept, key) {
        let i = choose|i: int|
            0 <= i < kept.len() && path::components_of(#[trigger] kept[i]) == key;
        let k = without_generated_keeps_one(paths, i);
        assert(path::components_of(paths[k]) == key);
    }
    if path_set::holds_path(paths, key) {
        let k = choose|k: int|
            0 <= k < paths.len() && path::components_of(#[trigger] paths[k]) == key;
        let before = paths.take(k);
        let behind = paths.skip(k + 1);
        assert(paths =~= before + seq![paths[k]] + behind);
        without_generated_of_two(before + seq![paths[k]], behind);
        without_generated_of_two(before, seq![paths[k]]);
        one_kept(paths[k]);
        assert(kept[without_generated(before).len() as int] == paths[k]);
    }
}

proof fn one_kept(s: Seq<char>)
    ensures
        without_generated(seq![s]) == (if generated(s) {
            Seq::<Seq<char>>::empty()
        } else {
            seq![s]
        }),
{
    let one = seq![s];
    assert(one.drop_last() =~= Seq::<Seq<char>>::empty());
    assert(without_generated(one.drop_last()) =~= Seq::<Seq<char>>::empty());
    assert(without_generated(one) =~= if generated(s) {
        Seq::<Seq<char>>::empty()
    } else {
        seq![s]
    });
}

#[verifier::rlimit(60)]
proof fn without_generated_of_member(paths: Seq<Seq<char>>, s: Seq<char>)
    requires
        path_set::ascending(paths),
    ensures
        without_generated(path_set::with_member(paths, s)) == (if generated(s) {
            without_generated(paths)
        } else {
            path_set::with_member(without_generated(paths), s)
        }),
{
    let key = path::components_of(s);
    if !generated(s) {
        without_generated_holds(paths, s);
    }
    if !path_set::holds_path(paths, key) {
        path_set::place_is_bounded(paths, s);
        let at = path_set::place_in(paths, s);
        let before = paths.take(at);
        let behind = paths.skip(at);
        let kept_before = without_generated(before);
        let kept_behind = without_generated(behind);
        assert(paths =~= before + behind);
        assert(paths.insert(at, s) =~= before + seq![s] + behind);
        without_generated_of_two(before, behind);
        without_generated_of_two(before + seq![s], behind);
        without_generated_of_two(before, seq![s]);
        one_kept(s);
        let kept = without_generated(paths);
        if generated(s) {
            assert(kept_before + Seq::<Seq<char>>::empty() + kept_behind =~= kept);
        } else {
            let place = kept_before.len() as int;
            assert forall|i: int| 0 <= i < place implies path_set::path_before(
                #[trigger] kept[i],
                s,
            ) by {
                let k = without_generated_keeps_one(before, i);
                path_set::place_parts_the_set(paths, s, k);
            }
            if place < kept.len() {
                let k = without_generated_keeps_one(behind, 0);
                path_set::place_parts_the_set(paths, s, at + k);
            }
            path_set::place_is_unique(kept, s, place);
            assert(kept_before + seq![s] + kept_behind =~= kept.insert(place, s));
        }
    }
}

proof fn without_generated_of_set(added: Seq<Seq<char>>)
    ensures
        path_set::set_of(without_generated(added)) == without_generated(path_set::set_of(added)),
    decreases added.len(),
{
    if added.len() > 0 {
        let shorter = added.drop_last();
        without_generated_of_set(shorter);
        path_set::sets_stay_ascending(Seq::empty(), shorter);
        without_generated_of_member(path_set::set_of(shorter), added.last());
        if !generated(added.last()) {
            let kept = without_generated(added);
            assert(kept.drop_last() =~= without_generated(shorter));
        }
    }
}

proof fn without_generated_of_option(s: Option<String>)
    ensures
        without_generated(one_in_scope(Scope::All, s)) == one_in_scope(Scope::Source, s),
{
    match s {
        Some(s) => {
            one_kept(s@);
        },
        None => {},
    }
}

proof fn without_generated_of_delta(delta: Option<Delta>)
    ensures
        without_generated(delta_paths(Scope::All, delta)) == delta_paths(Scope::Source, delta),
{
    match delta {
        Some(delta) => {
            without_generated_of_option(delta.old);
            without_generated_of_option(delta.new);
            without_generated_of_two(
                one_in_scope(Scope::All, delta.old),
                one_in_scope(Scope::All, delta.new),
            );
        },
        None => {},
    }
}

proof fn without_generated_of_changes(entries: Seq<StatusEntry>)
    ensures
        without_generated(all_changed(Scope::All, entries)) == all_changed(Scope::Source, entries),
    decreases entries.len(),
{
    if entries.len() > 0 {
        let entry = entries.last();
        without_generated_of_changes(entries.drop_last());
        without_generated_of_two(
            all_changed(Scope::All, entries.drop_last()),
            changed_paths(Scope::All, entry),
        );
        let head = delta_paths(Scope::All, entry.head_to_index);
        let work = delta_paths(Scope::All, entry.index_to_workdir);
        without_generated_of_delta(entry.head_to_index);
        without_generated_of_delta(entry.index_to_workdir);
        without_generated_of_two(head, work);
        without_generated_of_two(head + work, seq![shown_path(entry)]);
        one_kept(shown_path(entry));
        assert(without_generated(changed_paths(Scope::All, entry)) =~= changed_paths(
            Scope::Source,
            entry,
        ));
    }
}

/// The changed paths of the source are listed exactly where all changed paths are, and are all of
/// them but those inside the directory of builds, in the same order; otherwise both give the same
/// conflict.
pub proof fn source_paths_are_all_but_generated(entries: Seq<StatusEntry>)
    ensures
        match listing(Scope::All, entries) {
            Ok(paths) => listing(Scope::Source, entries) == Ok::<Seq<Seq<char>>, Failure>(
                without_generated(paths),
            ),
            Err(failure) => listing(Scope::Source, entries) == Err::<Seq<Seq<char>>, Failure>(
                failure,
            ),
        },
{
    without_generated_of_changes(entries);
    without_generated_of_set(all_changed(Scope::All, entries));
}

/// The changed paths are listed in ascending order, and no path twice.
pub proof fn changed_paths_ascend(scope: Scope, entries: Seq<StatusEntry>)
    ensures
        listing(scope, entries) matches Ok(paths) ==> path_set::ascending(paths) && (forall|
            i: int,
            j: int,
        |
            0 <= i < j < paths.len() ==> !path::same_path(
                #[trigger] paths[i],
                #[trigger] paths[j],
            )),
{
    let paths = path_set::set_of(all_changed(scope, entries));
    path_set::sets_stay_ascending(Seq::empty(), all_changed(scope, entries));
    assert forall|i: int, j: int| 0 <= i < j < paths.len() implies !path::same_path(
        #[trigger] paths[i],
        #[trigger] paths[j],
    ) by {
        path_set::ascending_paths_differ(paths, i, j);
    }
}

proof fn changed_path_is_listed(scope: Scope, entries: Seq<StatusEntry>, i: int, s: Seq<char>)
    requires
        0 <= i < entries.len(),
        changed_paths(scope, entries[i]).contains(s),
    ensures
        all_changed(scope, entries).contains(s),
    decreases entries.len(),
{
    let all = all_changed(scope, entries);
    let before = all_changed(scope, entries.drop_last());
    let last = changed_paths(scope, entries.last());
    if i == entries.len() - 1 {
        let k = choose|k: int| 0 <= k < last.len() && last[k] == s;
        assert(all[before.len() + k] == s);
    } else {
        changed_path_is_listed(scope, entries.drop_last(), i, s);
        let k = choose|k: int| 0 <= k < before.len() && before[k] == s;
        assert(all[k] == s);
    }
}

proof fn option_is_listed(scope: Scope, s: Option<String>)
    ensures
        s matches Some(text) ==> (one_in_scope(scope, s).contains(text@) <==> in_scope(
            scope,
            text@,
        )),
{
    if let Some(text) = s {
        if in_scope(scope, text@) {
            assert(one_in_scope(scope, s)[0] == text@);
        }
    }
}

/// Every path of a tracked change is listed, before and after it, in the index and in the working
/// tree, unless it is inside the directory of builds and the source alone is asked for.
#[verifier::rlimit(60)]
pub proof fn tracked_changes_are_listed(
    scope: Scope,
    entries: Seq<StatusEntry>,
    i: int,
    s: String,
)
    requires
        0 <= i < entries.len(),
        entries[i].kind == StatusKind::Changed,
        scope == Scope::All || !(path::components_of(s@).len() > 0 && path::components_of(s@)[0]
            == "build"@),
        ({
            let index = entries[i].head_to_index;
            let work = entries[i].index_to_workdir;
            ||| index matches Some(delta) && (delta.old == Some(s) || delta.new == Some(s))
            ||| work matches Some(delta) && (delta.old == Some(s) || delta.new == Some(s))
            ||| index is None && work is None && entries[i].path == Some(s)
        }),
    ensures
        all_changed(scope, entries).contains(s@),
        path_set::holds_path(
            path_set::set_of(all_changed(scope, entries)),
            path::components_of(s@),
        ),
        scope == Scope::Source ==> !is_clean(entries),
{
    let entry = entries[i];
    let head = delta_paths(scope, entry.head_to_index);
    let work = delta_paths(scope, entry.index_to_workdir);
    let shown = shown_path(entry);
    let all = changed_paths(scope, entry);
    assert(in_scope(scope, s@));
    if let Some(delta) = entry.head_to_index {
        option_is_listed(scope, delta.old);
        option_is_listed(scope, delta.new);
        let first = one_in_scope(scope, delta.old);
        let second = one_in_scope(scope, delta.new);
        if delta.old == Some(s) {
            let k = choose|k: int| 0 <= k < first.len() && first[k] == s@;
            assert(all[k] == s@);
        } else if delta.new == Some(s) {
            let k = choose|k: int| 0 <= k < second.len() && second[k] == s@;
            assert(all[first.len() + k] == s@);
        }
    }
    if let Some(delta) = entry.index_to_workdir {
        option_is_listed(scope, delta.old);
        option_is_listed(scope, delta.new);
        let first = one_in_scope(scope, delta.old);
        let second = one_in_scope(scope, delta.new);
        if delta.old == Some(s) {
            let k = choose|k: int| 0 <= k < first.len() && first[k] == s@;
            assert(all[head.len() + k] == s@);
        } else if delta.new == Some(s) {
            let k = choose|k: int| 0 <= k < second.len() && second[k] == s@;
            assert(all[head.len() + first.len() + k] == s@);
        }
    }
    if entry.head_to_index is None && entry.index_to_workdir is None {
        assert(shown == s@);
        assert(all[all.len() - 1] == s@);
    }
    assert(all.contains(s@));
    changed_path_is_listed(scope, entries, i, s@);
    let listed = all_changed(scope, entries);
    let k = choose|k: int| 0 <= k < listed.len() && listed[k] == s@;
    assert(path::components_of(listed[k]) == path::components_of(s@));
    path_set::added_paths_are_held(Seq::empty(), listed, path::components_of(s@));
}

/// A repository is clean where every status is of an unchanged file, or of a file inside the directory
/// of builds.
pub proof fn unchanged_repositories_are_clean(entries: Seq<StatusEntry>)
    requires
        forall|i: int|
            0 <= i < entries.len() ==> (#[trigger] entries[i]).kind == StatusKind::Unchanged || (
            entries[i].kind == StatusKind::Untracked && path::components_of(
                shown_path(entries[i]),
            ).len() > 0 && path::components_of(shown_path(entries[i]))[0] == "build"@),
    ensures
        is_clean(entries),
    decreases entries.len(),
{
    if entries.len() > 0 {
        let before = entries.drop_last();
        assert forall|i: int| 0 <= i < before.len() implies (#[trigger] before[i]).kind
            == StatusKind::Unchanged || (before[i].kind == StatusKind::Untracked
            && path::components_of(shown_path(before[i])).len() > 0 && path::components_of(
            shown_path(before[i]),
        )[0] == "build"@) by {
            assert(before[i] == entries[i]);
        }
        unchanged_repositories_are_clean(before);
        let last = entries[entries.len() - 1];
        assert(last.kind == StatusKind::Unchanged || last.kind == StatusKind::Untracked);
    }
}

/// An untracked file outside the directory of builds, and a conflict anywhere, make a repository
/// unclean; a conflict stops every listing.
pub proof fn untracked_files_and_conflicts_are_not_clean(entries: Seq<StatusEntry>, i: int)
    requires
        0 <= i < entries.len(),
    ensures
        entries[i].kind == StatusKind::Untracked && !(path::components_of(
            shown_path(entries[i]),
        ).len() > 0 && path::components_of(shown_path(entries[i]))[0] == "build"@) ==> !is_clean(
            entries,
        ),
        entries[i].kind == StatusKind::Conflicted ==> !is_clean(entries) && listing(
            Scope::All,
            entries,
        ) is Err && listing(Scope::Source, entries) is Err,
{
    untracked_files_count(entries, i);
}

proof fn untracked_files_count(entries: Seq<StatusEntry>, i: int)
    requires
        0 <= i < entries.len(),
    ensures
        counts_as_untracked(Scope::Source, entries[i]) ==> untracked_in(Scope::Source, entries) > 0,
        entries[i].kind == StatusKind::Conflicted ==> first_conflict(entries) is Some,
    decreases entries.len(),
{
    if i < entries.len() - 1 {
        assert(entries.drop_last()[i] == entries[i]);
        untracked_files_count(entries.drop_last(), i);
    }
}

/// A rejection names the first ten of the changed paths, one to a line, in their order, and says how
/// many more there are.
pub proof fn rejections_name_the_changes(paths: Seq<Seq<char>>, untracked: nat, i: int)
    requires
        0 <= i < paths.len(),
    ensures
        i < 10 ==> rejection_lines(paths, untracked)[i + 1] == "- "@ + paths[i],
        paths.len() > 10 ==> rejection_lines(paths, untracked)[11] == "- ... and "@
            + text::decimal_digits((paths.len() - 10) as nat) + " more tracked path(s)"@,
        untracked > 0 ==> rejection_lines(paths, untracked).contains(
            "- ... plus "@ + text::decimal_digits(untracked) + " untracked file(s) not listed"@,
        ),
{
    let lines = rejection_lines(paths, untracked);
    let more = text::decimal_digits((paths.len() - 10) as nat);
    text::three_are_glued("- ... and "@, more, " more tracked path(s)"@);
    text::three_are_glued(
        "- ... plus "@,
        text::decimal_digits(untracked),
        " untracked file(s) not listed"@,
    );
    if untracked > 0 {
        assert(lines[lines.len() - 3] == "- ... plus "@ + text::decimal_digits(untracked)
            + " untracked file(s) not listed"@);
    }
}

/// A status with the bit of a conflict is one, whatever else it says; a file is unchanged where its
/// status has no bit or the bit of an ignored file alone, untracked where it has that of a new file in
/// the working tree alone, and changed otherwise.
pub proof fn statuses_say_what_changed(bits: u32)
    ensures
        bits & 0x8000 != 0 ==> kind_of(bits) == StatusKind::Conflicted,
        bits == 0 || bits == 0x4000 ==> kind_of(bits) == StatusKind::Unchanged,
        bits == 0x80 ==> kind_of(bits) == StatusKind::Untracked,
        bits & 0x8000 == 0 && bits != 0 && bits != 0x4000 && bits != 0x80 ==> kind_of(bits)
            == StatusKind::Changed,
{
    assert(0u32 & 0x8000 == 0) by (bit_vector);
    assert(0x4000u32 & 0x8000 == 0) by (bit_vector);
    assert(0x80u32 & 0x8000 == 0) by (bit_vector);
}

/// A status is shown under the path that the change has in the index, else in the working tree, and
/// there under the new one.
pub proof fn statuses_are_shown_by_their_newest_path(entry: StatusEntry, new: String)
    ensures
        (entry.head_to_index matches Some(delta) && delta.new == Some(new)) ==> shown_path(entry)
            == new@,
        entry.head_to_index is None && (entry.index_to_workdir matches Some(delta) && delta.new
            == Some(new)) ==> shown_path(entry) == new@,
        entry.head_to_index is None && entry.index_to_workdir is None && entry.path == Some(new)
            ==> shown_path(entry) == new@,
{
}

/// A repository with a conflict is rejected for it; any other with changes is rejected with a message
/// that names each of the first ten changed paths.
pub proof fn rejections_say_why(entries: Seq<StatusEntry>, i: int)
    ensures
        first_conflict(entries) matches Some(found) ==> rejection(entries)
            == Failure::DirtyConflict(found),
        first_conflict(entries) is None && 0 <= i < path_set::set_of(
            all_changed(Scope::Source, entries),
        ).len() && i < 10 ==> (rejection(entries) matches Failure::Dirty(message)
            && text::occurs_in(
            message,
            "- "@ + path_set::set_of(all_changed(Scope::Source, entries))[i],
        )),
{
    let paths = path_set::set_of(all_changed(Scope::Source, entries));
    if first_conflict(entries) is None && 0 <= i < paths.len() && i < 10 {
        let untracked = untracked_in(Scope::Source, entries);
        rejections_name_the_changes(paths, untracked, i);
        text::joined_parts_stand_in_the_whole(rejection_lines(paths, untracked), "\n"@, i + 1);
    }
}

} // verus!
