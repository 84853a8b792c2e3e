//! Trees of repositories: what they hold, and how the content of siblings is merged in.

use vstd::prelude::*;

use crate::git::{Error, Failure};
use crate::layout::CONTENT_DIR;
use crate::path_set;
use crate::path_set::PathSet;
use crate::text;

verus! {

/// The homepage of the content, which every repository has for itself.
pub const CONTENT_INDEX_PATH: &'static str = "content/_index.md";

/// What kind of object an entry of a tree is.
#[derive(Debug, Clone, PartialEq, Eq)]
pub enum ObjectKind {
    Blob,
    Tree,
    /// Something else, described by this text.
    Other(String),
}

/// An entry of a tree, with the path of its directory, which ends with a slash unless it is empty.
#[derive(Debug, Clone, PartialEq, Eq)]
pub struct TreeEntry {
    pub prefix: String,
    pub name: Option<String>,
    pub kind: ObjectKind,
    pub mode: i32,
    pub id: String,
}

/// What kind of object an entry stands for.
pub enum KindView {
    Blob,
    Tree,
    Other(Seq<char>),
}

impl View for ObjectKind {
    type V = KindView;

    open spec fn view(&self) -> KindView {
        match self {
            ObjectKind::Blob => KindView::Blob,
            ObjectKind::Tree => KindView::Tree,
            ObjectKind::Other(what) => KindView::Other(what@),
        }
    }
}

/// What an entry of a tree stands for.
pub struct EntryView {
    pub prefix: Seq<char>,
    pub name: Option<Seq<char>>,
    pub kind: KindView,
    pub mode: i32,
    pub id: Seq<char>,
}

impl View for TreeEntry {
    type V = EntryView;

    open spec fn view(&self) -> EntryView {
        EntryView {
            prefix: self.prefix@,
            name: text::optional(self.name),
            kind: self.kind@,
            mode: self.mode,
            id: self.id@,
        }
    }
}

/// What a list of entries stands for.
pub open spec fn entry_views(list: Seq<TreeEntry>) -> Seq<EntryView> {
    Seq::new(list.len(), |i: int| list[i]@)
}

/// Why an entry without a name fails.
pub open spec fn nameless(prefix: Seq<char>) -> Failure {
    Failure::UpdateTree(text::glued(seq!["tree entry without name in `"@, prefix, "`"@]))
}

/// Why an entry of another kind fails.
pub open spec fn unknown_kind(what: Seq<char>, at: Seq<char>) -> Failure {
    Failure::UpdateTree(text::glued(seq!["unknown blob type `"@, what, "` for `"@, at, "`"@]))
}

/// Why a path that differs from the local one fails.
pub open spec fn conflict(at: Seq<char>, what: Seq<char>) -> Failure {
    Failure::UpdateTree(text::glued(seq!["conflicting path `"@, at, "` ("@, what, ")"@]))
}

/// The path of a file of a tree, none for a directory.
pub open spec fn tracked_path(entry: EntryView) -> Result<Option<Seq<char>>, Failure> {
    match entry.name {
        None => Err(nameless(entry.prefix)),
        Some(name) => match entry.kind {
            KindView::Blob => Ok(Some(entry.prefix + name)),
            KindView::Tree => Ok(None),
            KindView::Other(what) => Err(unknown_kind(what, entry.prefix + name)),
        },
    }
}

/// The paths of the files of a tree, or why the first entry that fails does.
pub open spec fn tracked_in(entries: Seq<EntryView>) -> Result<Seq<Seq<char>>, Failure>
    decreases entries.len(),
{
    if entries.len() == 0 {
        Ok(Seq::empty())
    } else {
        match tracked_in(entries.drop_last()) {
            Err(failure) => Err(failure),
            Ok(before) => match tracked_path(entries.last()) {
                Err(failure) => Err(failure),
                Ok(None) => Ok(before),
                Ok(Some(found)) => Ok(before.push(found)),
            },
        }
    }
}

/// Whether a listing of a tree has the entry at this path.
pub open spec fn stands_at(entry: EntryView, at: Seq<char>) -> bool {
    match entry.name {
        Some(name) => entry.prefix + name == at,
        None => false,
    }
}

/// The entry of a tree at a path.
pub open spec fn entry_at(entries: Seq<EntryView>, at: Seq<char>) -> Option<EntryView>
    decreases entries.len(),
{
    if entries.len() == 0 {
        None
    } else if stands_at(entries[0], at) {
        Some(entries[0])
    } else {
        entry_at(entries.skip(1), at)
    }
}

/// Whether an entry of a sibling may stand beside what the local tree has at its path: nothing, or
/// the same.
pub open spec fn agrees(local: Seq<EntryView>, at: Seq<char>, entry: EntryView) -> Result<
    (),
    Failure,
> {
    match entry_at(local, at) {
        None => Ok(()),
        Some(original) => if original.mode != entry.mode {
            Err(conflict(at, "filemode"@))
        } else if original.kind != entry.kind {
            Err(conflict(at, "kind"@))
        } else if original.id != entry.id {
            Err(conflict(at, "id"@))
        } else {
            Ok(())
        },
    }
}

/// Whether an entry of a sibling is looked at: it is the content directory, or below it.
pub open spec fn is_content(entry: EntryView) -> bool {
    text::has_prefix(entry.prefix, CONTENT_DIR@ + "/"@) || (entry.prefix.len() == 0 && entry.name
        == Some(CONTENT_DIR@))
}

/// A file that is put into the local tree.
#[derive(Debug, Clone, PartialEq, Eq)]
pub struct Upsert {
    pub path: String,
    pub id: String,
}

/// What a file that is put into the local tree stands for.
pub struct UpsertView {
    pub path: Seq<char>,
    pub id: Seq<char>,
}

impl View for Upsert {
    type V = UpsertView;

    open spec fn view(&self) -> UpsertView {
        UpsertView { path: self.path@, id: self.id@ }
    }
}

/// What a list of files stands for.
pub open spec fn upsert_views(list: Seq<Upsert>) -> Seq<UpsertView> {
    Seq::new(list.len(), |i: int| list[i]@)
}

/// What an entry of a sibling puts into the local tree.
pub open spec fn merged_entry(local: Seq<EntryView>, entry: EntryView) -> Result<
    Option<UpsertView>,
    Failure,
> {
    if !is_content(entry) {
        Ok(None)
    } else {
        match tracked_path(entry) {
            Err(failure) => Err(failure),
            Ok(None) => Ok(None),
            Ok(Some(at)) => if at == CONTENT_INDEX_PATH@ {
                Ok(None)
            } else {
                match agrees(local, at, entry) {
                    Err(failure) => Err(failure),
                    Ok(_) => Ok(Some(UpsertView { path: at, id: entry.id })),
                }
            },
        }
    }
}

/// What the tree of a sibling puts into the local tree, or why the first entry that fails does.
pub open spec fn merged_in(local: Seq<EntryView>, other: Seq<EntryView>) -> Result<
    Seq<UpsertView>,
    Failure,
>
    decreases other.len(),
{
    if other.len() == 0 {
        Ok(Seq::empty())
    } else {
        match merged_in(local, other.drop_last()) {
            Err(failure) => Err(failure),
            Ok(before) => match merged_entry(local, other.last()) {
                Err(failure) => Err(failure),
                Ok(None) => Ok(before),
                Ok(Some(upsert)) => Ok(before.push(upsert)),
            },
        }
    }
}

/// The path of a file of a tree, none for a directory.
fn path_of_entry(entry: &TreeEntry) -> (out: Result<Option<String>, Error>)
    ensures
        match out {
            Ok(found) => tracked_path(entry@) == Ok::<Option<Seq<char>>, Failure>(
                text::optional(found),
            ),
            Err(error) => tracked_path(entry@) == Err::<Option<Seq<char>>, Failure>(error@),
        },
{
    match &entry.name {
        None => Err(
            Error::UpdateTree {
                msg: text::wrap("tree entry without name in `", entry.prefix.as_str(), "`"),
            },
        ),
        Some(name) => {
            let mut at = entry.prefix.clone();
            at.append(name.as_str());
            match &entry.kind {
                ObjectKind::Blob => Ok(Some(at)),
                ObjectKind::Tree => Ok(None),
                ObjectKind::Other(what) => {
                    let parts = vec![
                        "unknown blob type `",
                        what.as_str(),
                        "` for `",
                        at.as_str(),
                        "`",
                    ];
                    assert(text::str_views(parts@) =~= seq![
                        "unknown blob type `"@,
                        what@,
                        "` for `"@,
                        at@,
                        "`"@,
                    ]);
                    Err(Error::UpdateTree { msg: text::glue(parts) })
                },
            }
        },
    }
}

proof fn tracked_stays_failed(entries: Seq<EntryView>, n: int)
    requires
        0 <= n <= entries.len(),
        tracked_in(entries.take(n)) is Err,
    ensures
        tracked_in(entries) == tracked_in(entries.take(n)),
    decreases entries.len(),
{
    if n == entries.len() {
        assert(entries.take(n) =~= entries);
    } else {
        assert(entries.drop_last().take(n) =~= entries.take(n));
        tracked_stays_failed(entries.drop_last(), n);
    }
}

/// The files of a tree.
pub fn tracked_paths(entries: &Vec<TreeEntry>) -> (out: Result<PathSet, Error>)
    ensures
        match out {
            Ok(paths) => paths.wf() && (tracked_in(entry_views(entries@)) matches Ok(found)
                && paths.texts() == path_set::set_of(found)),
            Err(error) => tracked_in(entry_views(entries@)) == Err::<Seq<Seq<char>>, Failure>(
                error@,
            ),
        },
{
    let ghost all = entry_views(entries@);
    let ghost mut found: Seq<Seq<char>> = Seq::empty();
    let mut paths = PathSet::new();
    let mut i: usize = 0;
    assert(all.take(0) =~= Seq::empty());
    while i < entries.len()
        invariant
            i <= entries@.len(),
            all == entry_views(entries@),
            paths.wf(),
            tracked_in(all.take(i as int)) == Ok::<Seq<Seq<char>>, Failure>(found),
            paths.texts() == path_set::set_of(found),
        decreases entries.len() - i,
    {
        proof {
            assert(all.take(i + 1).drop_last() =~= all.take(i as int));
            assert(all.take(i + 1).last() == entries@[i as int]@);
        }
        match path_of_entry(&entries[i]) {
            Err(error) => {
                proof {
                    tracked_stays_failed(all, i + 1);
                }
                return Err(error);
            },
            Ok(None) => {},
            Ok(Some(at)) => {
                proof {
                    assert(found.push(at@).drop_last() =~= found);
                    found = found.push(at@);
                }
                paths.insert(at);
            },
        }
        i += 1;
    }
    assert(all.take(i as int) =~= all);
    Ok(paths)
}

/// The entry of a tree at a path.
fn find_entry(entries: &Vec<TreeEntry>, at: &str) -> (out: Option<usize>)
    ensures
        match out {
            Some(i) => i < entries@.len() && entry_at(entry_views(entries@), at@) == Some(
                entries@[i as int]@,
            ),
            None => entry_at(entry_views(entries@), at@) is None,
        },
{
    let ghost all = entry_views(entries@);
    let mut i: usize = 0;
    assert(all.skip(0) =~= all);
    while i < entries.len()
        invariant
            i <= entries@.len(),
            all == entry_views(entries@),
            entry_at(all, at@) == entry_at(all.skip(i as int), at@),
        decreases entries.len() - i,
    {
        assert(all.skip(i as int)[0] == entries@[i as int]@);
        if let Some(name) = &entries[i].name {
            let mut found = entries[i].prefix.clone();
            found.append(name.as_str());
            if text::text_eq(found.as_str(), at) {
                return Some(i);
            }
        }
        assert(all.skip(i as int).skip(1) =~= all.skip(i + 1));
        i += 1;
    }
    None
}

/// Whether two kinds are the same.
fn same_kind(a: &ObjectKind, b: &ObjectKind) -> (yes: bool)
    ensures
        yes == (a@ == b@),
{
    match (a, b) {
        (ObjectKind::Blob, ObjectKind::Blob) => true,
        (ObjectKind::Tree, ObjectKind::Tree) => true,
        (ObjectKind::Other(left), ObjectKind::Other(right)) => text::text_eq(
            left.as_str(),
            right.as_str(),
        ),
        _ => false,
    }
}

/// The error for a path that differs from the local one.
fn conflict_error(at: &str, what: &str) -> (error: Error)
    ensures
        error@ == conflict(at@, what@),
{
    let parts = vec!["conflicting path `", at, "` (", what, ")"];
    assert(text::str_views(parts@) =~= seq!["conflicting path `"@, at@, "` ("@, what@, ")"@]);
    Error::UpdateTree { msg: text::glue(parts) }
}

/// Whether an entry of a sibling may stand beside what the local tree has at its path.
pub fn check_conflict(local: &Vec<TreeEntry>, at: &str, entry: &TreeEntry) -> (out: Result<
    (),
    Error,
>)
    ensures
        match out {
            Ok(_) => agrees(entry_views(local@), at@, entry@) is Ok,
            Err(error) => agrees(entry_views(local@), at@, entry@) == Err::<(), Failure>(error@),
        },
{
    match find_entry(local, at) {
        None => Ok(()),
        Some(i) => {
            let original = &local[i];
            if original.mode != entry.mode {
                Err(conflict_error(at, "filemode"))
            } else if !same_kind(&original.kind, &entry.kind) {
                Err(conflict_error(at, "kind"))
            } else if !text::text_eq(original.id.as_str(), entry.id.as_str()) {
                Err(conflict_error(at, "id"))
            } else {
                Ok(())
            }
        },
    }
}

/// Whether an entry of a sibling is looked at.
fn looked_at(entry: &TreeEntry) -> (yes: bool)
    ensures
        yes == is_content(entry@),
{
    let mut content = CONTENT_DIR.to_owned();
    content.append("/");
    if text::starts_with(entry.prefix.as_str(), content.as_str()) {
        return true;
    }
    if entry.prefix.as_str().unicode_len() != 0 {
        return false;
    }
    match &entry.name {
        Some(name) => text::text_eq(name.as_str(), CONTENT_DIR),
        None => false,
    }
}

/// What an entry of a sibling puts into the local tree.
pub fn merge_entry(local: &Vec<TreeEntry>, entry: &TreeEntry) -> (out: Result<
    Option<Upsert>,
    Error,
>)
    ensures
        match out {
            Ok(None) => merged_entry(entry_views(local@), entry@) == Ok::<
                Option<UpsertView>,
                Failure,
            >(None),
            Ok(Some(upsert)) => merged_entry(entry_views(local@), entry@) == Ok::<
                Option<UpsertView>,
                Failure,
            >(Some(upsert@)),
            Err(error) => merged_entry(entry_views(local@), entry@) == Err::<
                Option<UpsertView>,
                Failure,
            >(error@),
        },
{
    if !looked_at(entry) {
        return Ok(None);
    }
    match path_of_entry(entry) {
        Err(error) => Err(error),
        Ok(None) => Ok(None),
        Ok(Some(at)) => {
            if text::text_eq(at.as_str(), CONTENT_INDEX_PATH) {
                return Ok(None);
            }
            match check_conflict(local, at.as_str(), entry) {
                Err(error) => Err(error),
                Ok(_) => Ok(Some(Upsert { path: at, id: entry.id.clone() })),
            }
        },
    }
}

proof fn merge_stays_failed(local: Seq<EntryView>, other: Seq<EntryView>, n: int)
    requires
        0 <= n <= other.len(),
        merged_in(local, other.take(n)) is Err,
    ensures
        merged_in(local, other) == merged_in(local, other.take(n)),
    decreases other.len(),
{
    if n == other.len() {
        assert(other.take(n) =~= other);
    } else {
        assert(other.drop_last().take(n) =~= other.take(n));
        merge_stays_failed(local, other.drop_last(), n);
    }
}

/// What the tree of a sibling puts into the local tree: the files of its content directory, but for
/// the homepage, where none of them differs from the local file at its path.
pub fn merge_tree(local: &Vec<TreeEntry>, other: &Vec<TreeEntry>) -> (out: Result<
    Vec<Upsert>,
    Error,
>)
    ensures
        match out {
            Ok(upserts) => merged_in(entry_views(local@), entry_views(other@)) == Ok::<
                Seq<UpsertView>,
                Failure,
            >(upsert_views(upserts@)),
            Err(error) => merged_in(entry_views(local@), entry_views(other@)) == Err::<
                Seq<UpsertView>,
                Failure,
            >(error@),
        },
{
    let ghost here = entry_views(local@);
    let ghost all = entry_views(other@);
    let mut upserts: Vec<Upsert> = Vec::new();
    let mut i: usize = 0;
    assert(all.take(0) =~= Seq::empty());
    assert(upsert_views(upserts@) =~= Seq::empty());
    while i < other.len()
        invariant
            i <= other@.len(),
            here == entry_views(local@),
            all == entry_views(other@),
            merged_in(here, all.take(i as int)) == Ok::<Seq<UpsertView>, Failure>(
                upsert_views(upserts@),
            ),
        decreases other.len() - i,
    {
        let ghost before = upserts@;
        proof {
            assert(all.take(i + 1).drop_last() =~= all.take(i as int));
            assert(all.take(i + 1).last() == other@[i as int]@);
        }
        match merge_entry(local, &other[i]) {
            Err(error) => {
                proof {
                    merge_stays_failed(here, all, i + 1);
                }
                return Err(error);
            },
            Ok(None) => {},
            Ok(Some(upsert)) => {
                assert(upsert_views(before.push(upsert)) =~= upsert_views(before).push(upsert@));
                upserts.push(upsert);
            },
        }
        i += 1;
    }
    assert(all.take(i as int) =~= all);
    Ok(upserts)
}

/// Merging a sibling never changes a file that the local tree has: what is put at its path is the
/// same object, and it is a file there.
pub proof fn merge_never_changes_local_files(
    local: Seq<EntryView>,
    other: Seq<EntryView>,
    i: int,
)
    requires
        merged_in(local, other) matches Ok(upserts) && 0 <= i < upserts.len(),
    ensures
        entry_at(local, merged_in(local, other)->Ok_0[i].path) matches Some(original)
            ==> original.id == merged_in(local, other)->Ok_0[i].id && original.kind
            == KindView::Blob,
    decreases other.len(),
{
    if other.len() > 0 {
        let before = merged_in(local, other.drop_last())->Ok_0;
        if i < before.len() {
            merge_never_changes_local_files(local, other.drop_last(), i);
        }
    }
}

/// Whether a path is the content directory or below it.
pub open spec fn in_content(at: Seq<char>) -> bool {
    at == CONTENT_DIR@ || text::has_prefix(at, CONTENT_DIR@ + "/"@)
}

/// Merging a sibling only puts files at the content directory or below it, and never a homepage.
pub proof fn merge_stays_in_content(local: Seq<EntryView>, other: Seq<EntryView>, i: int)
    requires
        merged_in(local, other) matches Ok(upserts) && 0 <= i < upserts.len(),
    ensures
        merged_in(local, other)->Ok_0[i].path != CONTENT_INDEX_PATH@,
        in_content(merged_in(local, other)->Ok_0[i].path),
    decreases other.len(),
{
    if other.len() > 0 {
        let before = merged_in(local, other.drop_last())->Ok_0;
        if i < before.len() {
            merge_stays_in_content(local, other.drop_last(), i);
        } else {
            let entry = other.last();
            let at = merged_in(local, other)->Ok_0[i].path;
            let long = CONTENT_DIR@ + "/"@;
            assert(at == entry.prefix + entry.name->0);
            if text::has_prefix(entry.prefix, long) {
                assert(at.take(long.len() as int) =~= entry.prefix.take(long.len() as int));
            } else {
                assert(at =~= CONTENT_DIR@);
            }
        }
    }
}

/// Every file of a sibling's content directory that the merge looks at is put into the local tree,
/// but for the homepage.
pub proof fn merge_takes_every_content_file(
    local: Seq<EntryView>,
    other: Seq<EntryView>,
    k: int,
)
    requires
        merged_in(local, other) is Ok,
        0 <= k < other.len(),
        is_content(other[k]),
        other[k].kind == KindView::Blob,
        other[k].name matches Some(name) && other[k].prefix + name != CONTENT_INDEX_PATH@,
    ensures
        merged_in(local, other)->Ok_0.contains(
            UpsertView { path: other[k].prefix + other[k].name->0, id: other[k].id },
        ),
    decreases other.len(),
{
    let wanted = UpsertView { path: other[k].prefix + other[k].name->0, id: other[k].id };
    let upserts = merged_in(local, other)->Ok_0;
    let before = merged_in(local, other.drop_last())->Ok_0;
    if k == other.len() - 1 {
        assert(upserts[upserts.len() - 1] == wanted);
    } else {
        assert(other.drop_last()[k] == other[k]);
        merge_takes_every_content_file(local, other.drop_last(), k);
        let j = choose|j: int| 0 <= j < before.len() && before[j] == wanted;
        assert(upserts[j] == wanted);
    }
}

proof fn merged_entries_agree(local: Seq<EntryView>, other: Seq<EntryView>, k: int)
    requires
        merged_in(local, other) is Ok,
        0 <= k < other.len(),
    ensures
        merged_entry(local, other[k]) is Ok,
    decreases other.len(),
{
    if k < other.len() - 1 {
        assert(other.drop_last()[k] == other[k]);
        merged_entries_agree(local, other.drop_last(), k);
    }
}

/// A content file of a sibling that the local tree has with another mode, with other contents, or as
/// something else, stops the merge; only homepages may differ.
pub proof fn conflicting_content_stops_the_merge(
    local: Seq<EntryView>,
    other: Seq<EntryView>,
    k: int,
)
    requires
        0 <= k < other.len(),
        is_content(other[k]),
        other[k].kind == KindView::Blob,
        other[k].name matches Some(name) && other[k].prefix + name != CONTENT_INDEX_PATH@,
        entry_at(local, other[k].prefix + other[k].name->0) matches Some(original) && (original.mode
            != other[k].mode || original.kind != other[k].kind || original.id != other[k].id),
    ensures
        merged_in(local, other) is Err,
{
    if merged_in(local, other) is Ok {
        merged_entries_agree(local, other, k);
    }
}

/// The mode of a plain file.
pub const FILE_MODE: i32 = 0o100644;

/// The mode and the object of the file that a tree has at a path.
pub open spec fn file_at(entries: Seq<EntryView>, at: Seq<char>) -> Option<(i32, Seq<char>)> {
    match entry_at(entries, at) {
        Some(entry) => if entry.kind == KindView::Blob {
            Some((entry.mode, entry.id))
        } else {
            None
        },
        None => None,
    }
}

/// The object of the file that a tree has at a path.
pub open spec fn object_at(entries: Seq<EntryView>, at: Seq<char>) -> Option<Seq<char>> {
    match file_at(entries, at) {
        Some((_, id)) => Some(id),
        None => None,
    }
}

/// The object that is put at a path, the last one where there are several.
pub open spec fn put_at(upserts: Seq<UpsertView>, at: Seq<char>) -> Option<Seq<char>>
    decreases upserts.len(),
{
    if upserts.len() == 0 {
        None
    } else if upserts.last().path == at {
        Some(upserts.last().id)
    } else {
        put_at(upserts.drop_last(), at)
    }
}

/// Whether `merged` is the tree `local` with the sibling's tree merged in: what is put into it are
/// plain files, and all other files are as they were.
pub open spec fn merges_onto(
    local: Seq<EntryView>,
    other: Seq<EntryView>,
    merged: Seq<EntryView>,
) -> bool {
    merged_in(local, other) matches Ok(upserts) && forall|at: Seq<char>|
        #[trigger] file_at(merged, at) == (match put_at(upserts, at) {
            Some(id) => Some((FILE_MODE, id)),
            None => file_at(local, at),
        })
}

/// Whether each tree behind the first is the one before it with one more sibling merged in.
pub open spec fn merge_chain(trees: Seq<Seq<EntryView>>, siblings: Seq<Seq<EntryView>>) -> bool {
    trees.len() == siblings.len() + 1 && forall|k: int|
        0 <= k < siblings.len() ==> merges_onto(trees[k], #[trigger] siblings[k], trees[k + 1])
}

/// Whether no two entries of a tree have the same path.
pub open spec fn listed_once(entries: Seq<EntryView>) -> bool {
    forall|i: int, j: int, at: Seq<char>|
        0 <= i < entries.len() && 0 <= j < entries.len() && #[trigger] stands_at(entries[i], at)
            && #[trigger] stands_at(entries[j], at) ==> i == j
}

proof fn put_comes_from_the_list(upserts: Seq<UpsertView>, at: Seq<char>) -> (i: int)
    requires
        put_at(upserts, at) is Some,
    ensures
        0 <= i < upserts.len(),
        upserts[i] == (UpsertView { path: at, id: put_at(upserts, at)->0 }),
    decreases upserts.len(),
{
    if upserts.last().path == at {
        upserts.len() - 1
    } else {
        put_comes_from_the_list(upserts.drop_last(), at)
    }
}

proof fn what_is_listed_is_put(upserts: Seq<UpsertView>, i: int)
    requires
        0 <= i < upserts.len(),
    ensures
        put_at(upserts, upserts[i].path) is Some,
    decreases upserts.len(),
{
    if upserts.last().path != upserts[i].path {
        what_is_listed_is_put(upserts.drop_last(), i);
    }
}

proof fn upserts_come_from_the_sibling(
    local: Seq<EntryView>,
    other: Seq<EntryView>,
    i: int,
) -> (k: int)
    requires
        merged_in(local, other) matches Ok(upserts) && 0 <= i < upserts.len(),
    ensures
        0 <= k < other.len(),
        is_content(other[k]),
        other[k].kind == KindView::Blob,
        stands_at(other[k], merged_in(local, other)->Ok_0[i].path),
        other[k].id == merged_in(local, other)->Ok_0[i].id,
    decreases other.len(),
{
    let before = merged_in(local, other.drop_last())->Ok_0;
    if i < before.len() {
        upserts_come_from_the_sibling(local, other.drop_last(), i)
    } else {
        other.len() - 1
    }
}

proof fn one_merge_keeps_files(
    local: Seq<EntryView>,
    other: Seq<EntryView>,
    merged: Seq<EntryView>,
    at: Seq<char>,
)
    requires
        merges_onto(local, other, merged),
    ensures
        object_at(local, at) is Some ==> object_at(merged, at) == object_at(local, at),
        at == CONTENT_INDEX_PATH@ || !in_content(at) ==> file_at(merged, at) == file_at(local, at),
{
    let upserts = merged_in(local, other)->Ok_0;
    assert(file_at(merged, at) == file_at(merged, at));
    if put_at(upserts, at) is Some {
        let i = put_comes_from_the_list(upserts, at);
        merge_never_changes_local_files(local, other, i);
        merge_stays_in_content(local, other, i);
    }
}

/// However many siblings are merged, one onto the result of the other, a file that is there at some
/// point keeps its object in every later tree; and the homepage, and all that is outside the content
/// directory, stays as it is.
pub proof fn merges_never_change_files(
    trees: Seq<Seq<EntryView>>,
    siblings: Seq<Seq<EntryView>>,
    from: int,
    to: int,
    at: Seq<char>,
)
    requires
        merge_chain(trees, siblings),
        0 <= from <= to < trees.len(),
    ensures
        object_at(trees[from], at) is Some ==> object_at(trees[to], at) == object_at(
            trees[from],
            at,
        ),
        at == CONTENT_INDEX_PATH@ || !in_content(at) ==> file_at(trees[to], at) == file_at(
            trees[from],
            at,
        ),
    decreases to - from,
{
    if from < to {
        merges_never_change_files(trees, siblings, from, to - 1, at);
        assert(merges_onto(trees[to - 1], siblings[to - 1], trees[to]));
        one_merge_keeps_files(trees[to - 1], siblings[to - 1], trees[to], at);
    }
}

/// A sibling whose content has another object at the path of a file that is there, be it a local
/// file or one of an earlier sibling, stops the merge; only homepages may differ.
pub proof fn siblings_cannot_disagree(
    trees: Seq<Seq<EntryView>>,
    siblings: Seq<Seq<EntryView>>,
    other: Seq<EntryView>,
    from: int,
    k: int,
)
    requires
        merge_chain(trees, siblings),
        0 <= from < trees.len(),
        0 <= k < other.len(),
        is_content(other[k]),
        other[k].kind == KindView::Blob,
        other[k].name matches Some(name) && other[k].prefix + name != CONTENT_INDEX_PATH@,
        object_at(trees[from], other[k].prefix + other[k].name->0) matches Some(id) && id
            != other[k].id,
    ensures
        merged_in(trees.last(), other) is Err,
{
    let at = other[k].prefix + other[k].name->0;
    merges_never_change_files(trees, siblings, from, trees.len() - 1, at);
    conflicting_content_stops_the_merge(trees.last(), other, k);
}

/// Every content file of every sibling but the homepage is in the last tree, with the object that it
/// has in the sibling.
pub proof fn merges_take_every_content_file(
    trees: Seq<Seq<EntryView>>,
    siblings: Seq<Seq<EntryView>>,
    n: int,
    k: int,
)
    requires
        merge_chain(trees, siblings),
        0 <= n < siblings.len(),
        listed_once(siblings[n]),
        0 <= k < siblings[n].len(),
        is_content(siblings[n][k]),
        siblings[n][k].kind == KindView::Blob,
        siblings[n][k].name matches Some(name) && siblings[n][k].prefix + name
            != CONTENT_INDEX_PATH@,
    ensures
        object_at(trees.last(), siblings[n][k].prefix + siblings[n][k].name->0) == Some(
            siblings[n][k].id,
        ),
{
    let local = trees[n];
    let other = siblings[n];
    let at = other[k].prefix + other[k].name->0;
    let wanted = UpsertView { path: at, id: other[k].id };
    assert(merges_onto(local, other, trees[n + 1]));
    let upserts = merged_in(local, other)->Ok_0;
    merge_takes_every_content_file(local, other, k);
    let i = choose|i: int| 0 <= i < upserts.len() && upserts[i] == wanted;
    what_is_listed_is_put(upserts, i);
    let last = put_comes_from_the_list(upserts, at);
    let source = upserts_come_from_the_sibling(local, other, last);
    assert(stands_at(other[k], at));
    assert(source == k);
    assert(file_at(trees[n + 1], at) == Some((FILE_MODE, other[k].id)));
    merges_never_change_files(trees, siblings, n + 1, trees.len() - 1, at);
}

/// A file of the last tree that is not the local one's is a content file of some sibling.
#[verifier::rlimit(60)]
pub proof fn merges_add_only_content(
    trees: Seq<Seq<EntryView>>,
    siblings: Seq<Seq<EntryView>>,
    at: Seq<char>,
)
    requires
        merge_chain(trees, siblings),
        object_at(trees.last(), at) is Some,
        object_at(trees[0], at) is None,
    ensures
        in_content(at),
        at != CONTENT_INDEX_PATH@,
        exists|n: int, k: int|
            0 <= n < siblings.len() && 0 <= k < siblings[n].len() && #[trigger] stands_at(
                siblings[n][k],
                at,
            ) && siblings[n][k].kind == KindView::Blob && Some(siblings[n][k].id)
                == object_at(trees.last(), at),
    decreases siblings.len(),
{
    merges_never_change_files(trees, siblings, 0, trees.len() - 1, at);
    if siblings.len() == 0 {
        assert(trees.last() == trees[0]);
    } else {
        let n = siblings.len() - 1;
        let local = trees[n];
        let other = siblings[n];
        assert(merges_onto(local, other, trees[n + 1]));
        let upserts = merged_in(local, other)->Ok_0;
        assert(file_at(trees[n + 1], at) == file_at(trees.last(), at));
        if put_at(upserts, at) is Some {
            let i = put_comes_from_the_list(upserts, at);
            let k = upserts_come_from_the_sibling(local, other, i);
            assert(stands_at(siblings[n][k], at));
        } else {
            let shorter = siblings.drop_last();
            let earlier = trees.drop_last();
            assert forall|m: int| 0 <= m < shorter.len() implies merges_onto(
                earlier[m],
                #[trigger] shorter[m],
                earlier[m + 1],
            ) by {
                assert(merges_onto(trees[m], siblings[m], trees[m + 1]));
            }
            assert(earlier.last() == local);
            merges_add_only_content(earlier, shorter, at);
            let (m, k) = choose|m: int, k: int|
                0 <= m < shorter.len() && 0 <= k < shorter[m].len() && #[trigger] stands_at(
                    shorter[m][k],
                    at,
                ) && shorter[m][k].kind == KindView::Blob && Some(shorter[m][k].id)
                    == object_at(earlier.last(), at);
            assert(stands_at(siblings[m][k], at));
        }
    }
}

/// What asking whether a path is ignored gave.
#[derive(Debug, Clone, PartialEq, Eq)]
pub enum Ignored {
    No,
    Yes,
    Failed(String),
}

/// The path that an entry is shown under.
pub open spec fn blob_path(entry: EntryView) -> Seq<char> {
    match entry.name {
        Some(name) => entry.prefix + name,
        None => entry.prefix,
    }
}

/// The paths of the files of a tree, in its order.
pub open spec fn blobs_of(entries: Seq<EntryView>) -> Seq<Seq<char>>
    decreases entries.len(),
{
    if entries.len() == 0 {
        Seq::empty()
    } else {
        let before = blobs_of(entries.drop_last());
        if entries.last().kind == KindView::Blob {
            before.push(blob_path(entries.last()))
        } else {
            before
        }
    }
}

/// The paths of the files of a tree, to ask whether they are ignored.
pub fn blob_paths(entries: &Vec<TreeEntry>) -> (out: Vec<String>)
    ensures
        text::views(out@) == blobs_of(entry_views(entries@)),
{
    let ghost all = entry_views(entries@);
    let mut out: Vec<String> = Vec::new();
    let mut i: usize = 0;
    assert(all.take(0) =~= Seq::empty());
    assert(text::views(out@) =~= Seq::empty());
    while i < entries.len()
        invariant
            i <= entries@.len(),
            all == entry_views(entries@),
            text::views(out@) == blobs_of(all.take(i as int)),
        decreases entries.len() - i,
    {
        let ghost before = out@;
        proof {
            assert(all.take(i + 1).drop_last() =~= all.take(i as int));
            assert(all.take(i + 1).last() == entries@[i as int]@);
        }
        if let ObjectKind::Blob = &entries[i].kind {
            let mut at = entries[i].prefix.clone();
            if let Some(name) = &entries[i].name {
                at.append(name.as_str());
            }
            assert(text::views(before.push(at)) =~= text::views(before).push(at@));
            out.push(at);
        }
        i += 1;
    }
    assert(all.take(i as int) =~= all);
    out
}

/// Why the first path that is ignored, or cannot be asked about, fails.
pub open spec fn first_ignored(paths: Seq<Seq<char>>, verdicts: Seq<Ignored>) -> Option<Failure>
    decreases paths.len(),
{
    if paths.len() == 0 {
        None
    } else {
        match first_ignored(paths.drop_last(), verdicts) {
            Some(failure) => Some(failure),
            None => match verdicts[paths.len() - 1] {
                Ignored::No => None,
                Ignored::Yes => Some(
                    Failure::UpdateTree(
                        text::glued(seq!["contains ignored path `"@, paths.last(), "`"@]),
                    ),
                ),
                Ignored::Failed(cause) => Some(
                    Failure::Git { what: "check ignored"@, cause: cause@ },
                ),
            },
        }
    }
}

proof fn ignored_stays(paths: Seq<Seq<char>>, verdicts: Seq<Ignored>, n: int)
    requires
        0 <= n <= paths.len(),
        first_ignored(paths.take(n), verdicts) is Some,
    ensures
        first_ignored(paths, verdicts) == first_ignored(paths.take(n), verdicts),
    decreases paths.len(),
{
    if n == paths.len() {
        assert(paths.take(n) =~= paths);
    } else {
        assert(paths.drop_last().take(n) =~= paths.take(n));
        ignored_stays(paths.drop_last(), verdicts, n);
    }
}

/// Rejects a merged tree with a file that is ignored.
pub fn check_ignored(paths: &Vec<String>, verdicts: &Vec<Ignored>) -> (out: Result<(), Error>)
    requires
        verdicts@.len() == paths@.len(),
    ensures
        match out {
            Ok(_) => first_ignored(text::views(paths@), verdicts@) is None,
            Err(error) => first_ignored(text::views(paths@), verdicts@) == Some(error@),
        },
{
    let ghost all = text::views(paths@);
    let mut i: usize = 0;
    assert(all.take(0) =~= Seq::empty());
    while i < paths.len()
        invariant
            i <= paths@.len(),
            verdicts@.len() == paths@.len(),
            all == text::views(paths@),
            first_ignored(all.take(i as int), verdicts@) is None,
        decreases paths.len() - i,
    {
        proof {
            assert(all.take(i + 1).drop_last() =~= all.take(i as int));
            assert(all.take(i + 1).last() == paths@[i as int]@);
        }
        match &verdicts[i] {
            Ignored::No => {},
            Ignored::Yes => {
                proof {
                    ignored_stays(all, verdicts@, i + 1);
                }
                return Err(
                    Error::UpdateTree {
                        msg: text::wrap("contains ignored path `", paths[i].as_str(), "`"),
                    },
                );
            },
            Ignored::Failed(cause) => {
                proof {
                    ignored_stays(all, verdicts@, i + 1);
                }
                return Err(
                    Error::Git { what: "check ignored".to_owned(), cause: cause.clone() },
                );
            },
        }
        i += 1;
    }
    assert(all.take(i as int) =~= all);
    Ok(())
}

/// The files that a change names.
pub open spec fn named_files(deltas: Seq<Option<String>>) -> Seq<Seq<char>>
    decreases deltas.len(),
{
    if deltas.len() == 0 {
        Seq::empty()
    } else {
        let before = named_files(deltas.drop_last());
        match deltas.last() {
            Some(file) => before.push(file@),
            None => before,
        }
    }
}

/// The files that differ from the merge base, given the new path of each change.
pub fn changed_files(deltas: &Vec<Option<String>>) -> (out: Vec<String>)
    ensures
        text::views(out@) == named_files(deltas@),
{
    let mut out: Vec<String> = Vec::new();
    let mut i: usize = 0;
    assert(deltas@.take(0) =~= Seq::empty());
    assert(text::views(out@) =~= Seq::empty());
    while i < deltas.len()
        invariant
            i <= deltas@.len(),
            text::views(out@) == named_files(deltas@.take(i as int)),
        decreases deltas.len() - i,
    {
        let ghost before = out@;
        proof {
            assert(deltas@.take(i + 1).drop_last() =~= deltas@.take(i as int));
            assert(deltas@.take(i + 1).last() == deltas@[i as int]);
        }
        if let Some(file) = &deltas[i] {
            let file = file.clone();
            assert(text::views(before.push(file)) =~= text::views(before).push(file@));
            out.push(file);
        }
        i += 1;
    }
    assert(deltas@.take(i as int) =~= deltas@);
    out
}

/// Every file of a tree is listed, under the path of its directory and its name.
pub proof fn files_of_a_tree_are_listed(entries: Seq<EntryView>, i: int)
    requires
        0 <= i < entries.len(),
        entries[i].kind == KindView::Blob,
        entries[i].name is Some,
    ensures
        blobs_of(entries).contains(entries[i].prefix + entries[i].name->0),
        tracked_in(entries) matches Ok(paths) ==> paths.contains(
            entries[i].prefix + entries[i].name->0,
        ),
    decreases entries.len(),
{
    let wanted = entries[i].prefix + entries[i].name->0;
    let all = blobs_of(entries);
    let before = blobs_of(entries.drop_last());
    if i == entries.len() - 1 {
        assert(all[all.len() - 1] == wanted);
        if let Ok(paths) = tracked_in(entries) {
            assert(paths[paths.len() - 1] == wanted);
        }
    } else {
        files_of_a_tree_are_listed(entries.drop_last(), i);
        let k = choose|k: int| 0 <= k < before.len() && before[k] == wanted;
        assert(all[k] == wanted);
        if let Ok(paths) = tracked_in(entries) {
            let shorter = tracked_in(entries.drop_last())->Ok_0;
            let j = choose|j: int| 0 <= j < shorter.len() && shorter[j] == wanted;
            assert(paths[j] == wanted);
        }
    }
}

/// A merged tree is refused exactly where one of its files is ignored, or could not be asked about.
pub proof fn ignored_files_are_refused(paths: Seq<Seq<char>>, verdicts: Seq<Ignored>, i: int)
    requires
        0 <= i < paths.len(),
    ensures
        !(verdicts[i] is No) ==> first_ignored(paths, verdicts) is Some,
        first_ignored(paths, verdicts) is Some ==> exists|k: int|
            0 <= k < paths.len() && !(#[trigger] verdicts[k] is No),
    decreases paths.len(),
{
    let shorter = paths.drop_last();
    if shorter.len() > 0 {
        ignored_files_are_refused(shorter, verdicts, if i < shorter.len() {
            i
        } else {
            0
        });
    }
    if first_ignored(paths, verdicts) is Some && first_ignored(shorter, verdicts) is None {
        assert(!(verdicts[paths.len() - 1] is No));
    }
}

/// The changed files are those of the differences that have a path afterwards, in their order.
pub proof fn differences_name_their_files(deltas: Seq<Option<String>>, i: int)
    requires
        0 <= i < deltas.len(),
    ensures
        deltas[i] matches Some(file) ==> named_files(deltas).contains(file@),
    decreases deltas.len(),
{
    if let Some(file) = deltas[i] {
        let all = named_files(deltas);
        let before = named_files(deltas.drop_last());
        if i == deltas.len() - 1 {
            assert(all[all.len() - 1] == file@);
        } else {
            differences_name_their_files(deltas.drop_last(), i);
            let k = choose|k: int| 0 <= k < before.len() && before[k] == file@;
            assert(all[k] == file@);
        }
    }
}

/// What the merge looks at of a sibling is its content directory and all below it, and nothing else.
pub proof fn merges_look_at_the_content(entry: EntryView)
    ensures
        is_content(entry) <==> text::has_prefix(entry.prefix, "content/"@) || (entry.prefix.len()
            == 0 && entry.name == Some("content"@)),
{
    reveal_strlit("content");
    reveal_strlit("/");
    reveal_strlit("content/");
    assert("content"@ + "/"@ =~= "content/"@);
}

/// An entry of a sibling may stand beside what the local tree has exactly where that is nothing, or has
/// the same mode, kind and object.
pub proof fn only_the_same_entries_agree(local: Seq<EntryView>, at: Seq<char>, entry: EntryView)
    ensures
        agrees(local, at, entry) is Ok <==> (entry_at(local, at) matches Some(original)
            ==> original.mode == entry.mode && original.kind == entry.kind && original.id
            == entry.id),
{
}

/// Content of a sibling that has no name, or is neither a file nor a directory, stops the merge.
pub proof fn strange_content_stops_the_merge(local: Seq<EntryView>, other: Seq<EntryView>, k: int)
    requires
        0 <= k < other.len(),
        is_content(other[k]),
        other[k].name is None || other[k].kind is Other,
    ensures
        merged_in(local, other) is Err,
        tracked_in(other) is Err,
    decreases other.len(),
{
    if merged_in(local, other) is Ok {
        merged_entries_agree(local, other, k);
    }
    if k < other.len() - 1 {
        assert(other.drop_last()[k] == other[k]);
        strange_content_stops_the_merge(local, other.drop_last(), k);
    }
}

/// The merge of a sibling fails for nothing but its content: where every entry of it has a name, is a
/// file or a directory, and agrees with what the local tree has, all is merged.
pub proof fn agreeing_content_is_merged(local: Seq<EntryView>, other: Seq<EntryView>)
    requires
        forall|k: int|
            0 <= k < other.len() && is_content(#[trigger] other[k]) ==> (other[k].name matches Some(
                name,
            ) && !(other[k].kind is Other) && (other[k].kind == KindView::Blob && other[k].prefix
                + name != "content/_index.md"@ ==> (entry_at(
                local,
                other[k].prefix + name,
            ) matches Some(original) ==> original.mode == other[k].mode && original.kind
                == other[k].kind && original.id == other[k].id))),
    ensures
        merged_in(local, other) is Ok,
    decreases other.len(),
{
    if other.len() > 0 {
        let before = other.drop_last();
        assert forall|k: int| 0 <= k < before.len() && is_content(#[trigger] before[k]) implies (
        before[k].name matches Some(name) && !(before[k].kind is Other) && (before[k].kind
            == KindView::Blob && before[k].prefix + name != "content/_index.md"@ ==> (entry_at(
            local,
            before[k].prefix + name,
        ) matches Some(original) ==> original.mode == before[k].mode && original.kind
            == before[k].kind && original.id == before[k].id))) by {
            assert(before[k] == other[k]);
        }
        agreeing_content_is_merged(local, before);
        let last = other[other.len() - 1];
        assert(last == other.last());
    }
}

/// An entry of a tree is found by its path, and what is found has that path.
pub proof fn entries_are_found_by_their_path(entries: Seq<EntryView>, i: int, at: Seq<char>)
    ensures
        0 <= i < entries.len() && entries[i].name is Some && entries[i].prefix + entries[i].name->0
            == at && listed_once(entries) ==> entry_at(entries, at) == Some(entries[i]),
        entry_at(entries, at) matches Some(entry) ==> entries.contains(entry) && (
        entry.name matches Some(name) && entry.prefix + name == at),
    decreases entries.len(),
{
    if entries.len() > 0 {
        let rest = entries.skip(1);
        if listed_once(entries) {
            assert(listed_once(rest)) by {
                assert forall|a: int, b: int, s: Seq<char>|
                    0 <= a < rest.len() && 0 <= b < rest.len() && #[trigger] stands_at(rest[a], s)
                        && #[trigger] stands_at(rest[b], s) implies a == b by {
                    assert(rest[a] == entries[a + 1] && rest[b] == entries[b + 1]);
                    assert(stands_at(entries[a + 1], s) && stands_at(entries[b + 1], s));
                }
            }
        }
        entries_are_found_by_their_path(rest, i - 1, at);
        if 0 <= i < entries.len() && stands_at(entries[i], at) && stands_at(entries[0], at)
            && listed_once(entries) {
            assert(i == 0);
        }
        if let Some(entry) = entry_at(entries, at) {
            if stands_at(entries[0], at) {
                assert(entries[0] == entry);
            } else {
                let k = choose|k: int| 0 <= k < rest.len() && rest[k] == entry;
                assert(entries[k + 1] == entry);
            }
        }
        if 0 < i < entries.len() {
            assert(rest[i - 1] == entries[i]);
        }
    }
}

} // verus!
