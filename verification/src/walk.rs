//! Which files of the content directory become pages.

use vstd::prelude::*;

use crate::layout::CONTENT_DIR;
use crate::only::OnlyRenderPlan;
use crate::path;
use crate::proposal;
use crate::text;

verus! {

/// An entry at the top of the content directory.
#[derive(Debug, Clone, PartialEq, Eq)]
pub struct TopEntry {
    pub name: String,
    pub is_dir: bool,
}

/// Something to make pages of.
#[derive(Debug, Clone, PartialEq, Eq)]
pub enum Work {
    /// The Markdown of a page.
    Page(String),
    /// A proposal's directory, for its assets.
    Assets(String),
    /// One asset of the proposal whose directory is given.
    Asset { dir: String, file: String },
}

/// What a piece of work stands for.
pub enum WorkView {
    Page(Seq<char>),
    Assets(Seq<char>),
    Asset { dir: Seq<char>, file: Seq<char> },
}

impl View for Work {
    type V = WorkView;

    open spec fn view(&self) -> WorkView {
        match self {
            Work::Page(file) => WorkView::Page(file@),
            Work::Assets(dir) => WorkView::Assets(dir@),
            Work::Asset { dir, file } => WorkView::Asset { dir: dir@, file: file@ },
        }
    }
}

/// What a list of work stands for.
pub open spec fn work_views(list: Seq<Work>) -> Seq<WorkView> {
    Seq::new(list.len(), |i: int| list[i]@)
}

/// Whether the Markdown at a path of the content directory is rendered.
pub open spec fn renders(plan: Option<&OnlyRenderPlan>, rel: Seq<char>) -> bool {
    match plan {
        Some(plan) => plan.renders_markdown(rel),
        None => true,
    }
}

/// Whether a directory of the content directory is rendered.
pub open spec fn renders_dir(plan: Option<&OnlyRenderPlan>, name: Seq<char>) -> bool {
    match (plan, proposal::number_named(name)) {
        (Some(plan), Some(number)) => plan.selects(number),
        _ => true,
    }
}

/// The work that an entry of the content directory gives.
pub open spec fn work_of(
    root: Seq<char>,
    entry: TopEntry,
    plan: Option<&OnlyRenderPlan>,
) -> Seq<WorkView> {
    let name = entry.name@;
    let file = path::path_joined(root, name);
    if entry.is_dir {
        if !renders_dir(plan, name) {
            Seq::empty()
        } else if renders(plan, path::path_joined(name, "index.md"@)) {
            seq![WorkView::Page(path::path_joined(file, "index.md"@)), WorkView::Assets(file)]
        } else {
            seq![WorkView::Assets(file)]
        }
    } else if path::extension_of(name) == Some("md"@) && renders(plan, name) {
        seq![WorkView::Page(file)]
    } else {
        Seq::empty()
    }
}

/// The work that the entries of the content directory give, in their order.
pub open spec fn all_work(
    root: Seq<char>,
    entries: Seq<TopEntry>,
    plan: Option<&OnlyRenderPlan>,
) -> Seq<WorkView>
    decreases entries.len(),
{
    if entries.len() == 0 {
        Seq::empty()
    } else {
        all_work(root, entries.drop_last(), plan) + work_of(root, entries.last(), plan)
    }
}

/// The work that a changed file gives, where it exists: Markdown at the top of the content
/// directory or as an index file is a page, and Markdown among the assets of a proposal is an asset.
pub open spec fn work_of_change(
    root: Seq<char>,
    changed: Seq<char>,
    present: bool,
    plan: Option<&OnlyRenderPlan>,
) -> Option<WorkView> {
    match path::stripped(changed, CONTENT_DIR@) {
        Some(rel) => {
            let parts = path::components_of(rel);
            let file = path::path_joined(root, rel);
            if !present || path::extension_of(rel) != Some("md"@) {
                None
            } else if parts.len() == 1 || (parts.len() == 2 && parts[1] == "index.md"@) {
                if renders(plan, rel) {
                    Some(WorkView::Page(file))
                } else {
                    None
                }
            } else if parts.len() >= 3 && parts[1] == "assets"@ && renders_dir(plan, parts[0]) {
                Some(WorkView::Asset { dir: path::path_joined(root, parts[0]), file })
            } else {
                None
            }
        },
        None => None,
    }
}

/// Whether the Markdown at a path of the content directory is rendered.
fn is_rendered(plan: Option<&OnlyRenderPlan>, rel: &str) -> (yes: bool)
    ensures
        yes == renders(plan, rel@),
{
    match plan {
        Some(plan) => plan.should_preprocess_markdown(rel),
        None => true,
    }
}

/// Whether a directory of the content directory is rendered.
fn is_rendered_dir(plan: Option<&OnlyRenderPlan>, name: &str) -> (yes: bool)
    ensures
        yes == renders_dir(plan, name@),
{
    match plan {
        Some(plan) => plan.should_process_proposal_dir(name),
        None => true,
    }
}

/// The work that the entries of the content directory at `root` give.
pub fn preprocess(root: &str, entries: &Vec<TopEntry>, plan: Option<&OnlyRenderPlan>) -> (out: Vec<
    Work,
>)
    ensures
        work_views(out@) == all_work(root@, entries@, plan),
{
    let mut out: Vec<Work> = Vec::new();
    let mut i: usize = 0;
    assert(entries@.take(0) =~= Seq::empty());
    assert(work_views(out@) =~= Seq::empty());
    while i < entries.len()
        invariant
            i <= entries@.len(),
            work_views(out@) == all_work(root@, entries@.take(i as int), plan),
        decreases entries.len() - i,
    {
        let entry = &entries[i];
        let ghost before = work_views(out@);
        proof {
            assert(entries@.take(i + 1).drop_last() =~= entries@.take(i as int));
            assert(entries@.take(i + 1).last() == *entry);
        }
        let file = path::join(root, entry.name.as_str());
        if entry.is_dir {
            if is_rendered_dir(plan, entry.name.as_str()) {
                let index = path::join(entry.name.as_str(), "index.md");
                if is_rendered(plan, index.as_str()) {
                    out.push(Work::Page(path::join(file.as_str(), "index.md")));
                }
                out.push(Work::Assets(file));
            }
        } else if path::has_extension(entry.name.as_str(), "md") && is_rendered(
            plan,
            entry.name.as_str(),
        ) {
            out.push(Work::Page(file));
        }
        assert(work_views(out@) =~= before + work_of(root@, *entry, plan));
        i += 1;
    }
    assert(entries@.take(i as int) =~= entries@);
    out
}

/// The work that a changed file of the repository gives, where it exists in the build.
pub fn preprocess_path(
    root: &str,
    changed: &str,
    present: bool,
    plan: Option<&OnlyRenderPlan>,
) -> (out: Option<Work>)
    ensures
        match out {
            Some(work) => work_of_change(root@, changed@, present, plan) == Some(work@),
            None => work_of_change(root@, changed@, present, plan) is None,
        },
{
    let rel = match path::strip_prefix(changed, CONTENT_DIR) {
        Some(rel) => rel,
        None => return None,
    };
    if !present || !path::has_extension(rel.as_str(), "md") {
        return None;
    }
    let parts = path::components(rel.as_str());
    let ghost wanted = path::components_of(rel@);
    assert(wanted.len() == parts@.len());
    assert(forall|k: int| 0 <= k < parts@.len() ==> wanted[k] == (#[trigger] parts@[k])@);
    let file = path::join(root, rel.as_str());
    if parts.len() == 1 || (parts.len() == 2 && text::text_eq(parts[1].as_str(), "index.md")) {
        if is_rendered(plan, rel.as_str()) {
            Some(Work::Page(file))
        } else {
            None
        }
    } else if parts.len() >= 3 && text::text_eq(parts[1].as_str(), "assets") && is_rendered_dir(
        plan,
        parts[0].as_str(),
    ) {
        Some(Work::Asset { dir: path::join(root, parts[0].as_str()), file })
    } else {
        None
    }
}

/// The path, from the content directory, of the Markdown that an entry of it may become a page of.
pub open spec fn markdown_of(entry: TopEntry) -> Seq<char> {
    if entry.is_dir {
        path::path_joined(entry.name@, "index.md"@)
    } else {
        entry.name@
    }
}

/// The Markdown paths among those that the entries of the content directory may become pages of, in
/// their order.
pub open spec fn candidates_of(entries: Seq<TopEntry>) -> Seq<Seq<char>>
    decreases entries.len(),
{
    if entries.len() == 0 {
        Seq::empty()
    } else {
        let before = candidates_of(entries.drop_last());
        let markdown = markdown_of(entries.last());
        if path::extension_of(markdown) == Some("md"@) {
            before.push(markdown)
        } else {
            before
        }
    }
}

/// The paths, from the content directory, at which the Markdown of proposals may stand.
pub fn content_candidates(entries: &Vec<TopEntry>) -> (out: Vec<String>)
    ensures
        text::views(out@) == candidates_of(entries@),
{
    let mut out: Vec<String> = Vec::new();
    let mut i: usize = 0;
    assert(entries@.take(0) =~= Seq::empty());
    assert(text::views(out@) =~= Seq::empty());
    while i < entries.len()
        invariant
            i <= entries@.len(),
            text::views(out@) == candidates_of(entries@.take(i as int)),
        decreases entries.len() - i,
    {
        let ghost before = out@;
        proof {
            assert(entries@.take(i + 1).drop_last() =~= entries@.take(i as int));
            assert(entries@.take(i + 1).last() == entries@[i as int]);
        }
        let markdown = if entries[i].is_dir {
            path::join(entries[i].name.as_str(), "index.md")
        } else {
            entries[i].name.clone()
        };
        if path::has_extension(markdown.as_str(), "md") {
            assert(text::views(before.push(markdown)) =~= text::views(before).push(markdown@));
            out.push(markdown);
        }
        i += 1;
    }
    assert(entries@.take(i as int) =~= entries@);
    out
}

/// When a selection is rendered, every page that is made of the Markdown of a proposal, and all
/// assets of one, are of a selected proposal.
pub proof fn only_selected_proposals_become_pages(
    plan: &OnlyRenderPlan,
    root: Seq<char>,
    entry: TopEntry,
    i: int,
)
    requires
        0 <= i < work_of(root, entry, Some(plan)).len(),
    ensures
        match work_of(root, entry, Some(plan))[i] {
            WorkView::Page(_) => proposal::markdown_number(markdown_of(entry)) matches Some(number)
                ==> plan.selects(number),
            WorkView::Assets(_) => proposal::number_named(entry.name@) matches Some(number)
                ==> plan.selects(number),
            WorkView::Asset { .. } => false,
        },
{
}

/// When a selection is rendered, a changed file of a proposal becomes a page again only where that
/// proposal is selected.
pub proof fn only_selected_changes_become_pages(
    plan: &OnlyRenderPlan,
    root: Seq<char>,
    changed: Seq<char>,
    present: bool,
)
    requires
        work_of_change(root, changed, present, Some(plan)) is Some,
    ensures
        present,
        path::stripped(changed, CONTENT_DIR@) is Some,
        ({
            let rel = path::stripped(changed, CONTENT_DIR@)->0;
            match work_of_change(root, changed, present, Some(plan))->0 {
                WorkView::Page(_) => proposal::markdown_number(rel) matches Some(number)
                    ==> plan.selects(number),
                WorkView::Asset { .. } => proposal::number_named(
                    path::components_of(rel)[0],
                ) matches Some(number) ==> plan.selects(number),
                WorkView::Assets(_) => false,
            }
        }),
{
}

proof fn work_holds_its_parts(
    root: Seq<char>,
    entries: Seq<TopEntry>,
    plan: Option<&OnlyRenderPlan>,
    i: int,
    work: WorkView,
)
    requires
        0 <= i < entries.len(),
        work_of(root, entries[i], plan).contains(work),
    ensures
        all_work(root, entries, plan).contains(work),
    decreases entries.len(),
{
    let all = all_work(root, entries, plan);
    let before = all_work(root, entries.drop_last(), plan);
    if i == entries.len() - 1 {
        let last = work_of(root, entries[i], plan);
        let k = choose|k: int| 0 <= k < last.len() && last[k] == work;
        assert(all[before.len() + k] == work);
    } else {
        work_holds_its_parts(root, entries.drop_last(), plan, i, work);
        let k = choose|k: int| 0 <= k < before.len() && before[k] == work;
        assert(all[k] == work);
    }
}

/// Without a selection, every Markdown file at the top of the content directory becomes a page, and so
/// does the `index.md` of every directory there, whose assets become pages as well.
pub proof fn all_content_becomes_pages(root: Seq<char>, entries: Seq<TopEntry>, i: int)
    requires
        0 <= i < entries.len(),
    ensures
        ({
            let work = all_work(root, entries, None);
            let file = path::path_joined(root, entries[i].name@);
            &&& !entries[i].is_dir && path::extension_of(entries[i].name@) == Some("md"@)
                ==> work.contains(WorkView::Page(file))
            &&& entries[i].is_dir ==> work.contains(WorkView::Assets(file)) && work.contains(
                WorkView::Page(path::path_joined(file, "index.md"@)),
            )
        }),
{
    let file = path::path_joined(root, entries[i].name@);
    let part = work_of(root, entries[i], None);
    if entries[i].is_dir {
        let page = WorkView::Page(path::path_joined(file, "index.md"@));
        assert(part[0] == page && part[1] == WorkView::Assets(file));
        work_holds_its_parts(root, entries, None, i, page);
        work_holds_its_parts(root, entries, None, i, WorkView::Assets(file));
    } else if path::extension_of(entries[i].name@) == Some("md"@) {
        assert(part[0] == WorkView::Page(file));
        work_holds_its_parts(root, entries, None, i, WorkView::Page(file));
    }
}

/// With a selection, the Markdown of a selected proposal becomes a page, and so does Markdown that
/// belongs to no proposal.
pub proof fn selected_content_becomes_pages(
    root: Seq<char>,
    entries: Seq<TopEntry>,
    plan: &OnlyRenderPlan,
    i: int,
)
    requires
        0 <= i < entries.len(),
        plan.renders_markdown(markdown_of(entries[i])),
        entries[i].is_dir ==> (proposal::number_named(entries[i].name@) matches Some(number)
            ==> plan.selection().contains(number)),
        !entries[i].is_dir ==> path::extension_of(entries[i].name@) == Some("md"@),
    ensures
        entries[i].is_dir ==> all_work(root, entries, Some(plan)).contains(
            WorkView::Page(
                path::path_joined(path::path_joined(root, entries[i].name@), "index.md"@),
            ),
        ) && all_work(root, entries, Some(plan)).contains(
            WorkView::Assets(path::path_joined(root, entries[i].name@)),
        ),
        !entries[i].is_dir ==> all_work(root, entries, Some(plan)).contains(
            WorkView::Page(path::path_joined(root, entries[i].name@)),
        ),
{
    let file = path::path_joined(root, entries[i].name@);
    let part = work_of(root, entries[i], Some(plan));
    if entries[i].is_dir {
        let page = WorkView::Page(path::path_joined(file, "index.md"@));
        assert(part[0] == page && part[1] == WorkView::Assets(file));
        work_holds_its_parts(root, entries, Some(plan), i, page);
        work_holds_its_parts(root, entries, Some(plan), i, WorkView::Assets(file));
    } else {
        assert(part[0] == WorkView::Page(file));
        work_holds_its_parts(root, entries, Some(plan), i, WorkView::Page(file));
    }
}

/// A changed Markdown file that is there becomes a page again where it stands at the top of the
/// content directory or is the `index.md` of a directory there, and an asset again below the `assets`
/// of one; nothing else, and nothing that is gone or no Markdown, gives work.
#[verifier::rlimit(60)]
pub proof fn changed_markdown_is_made_again(root: Seq<char>, changed: Seq<char>, present: bool)
    ensures
        ({
            let parts = path::components_of(changed);
            let inside = parts.len() >= 2 && parts[0] == "content"@;
            let markdown = path::extension_of(path::stripped(changed, "content"@)->0) == Some(
                "md"@,
            );
            let file = path::path_joined(root, path::stripped(changed, "content"@)->0);
            let out = work_of_change(root, changed, present, None);
            &&& inside && present && markdown && (parts.len() == 2 || (parts.len() == 3 && parts[2]
                == "index.md"@)) ==> out == Some(WorkView::Page(file))
            &&& inside && present && markdown && parts.len() >= 4 && parts[2] == "assets"@
                ==> out == Some(
                WorkView::Asset { dir: path::path_joined(root, parts[1]), file },
            )
            &&& !inside || !present || !markdown ==> out is None
            &&& inside && parts.len() == 3 && parts[2] != "index.md"@ ==> out is None
            &&& inside && parts.len() >= 4 && parts[2] != "assets"@ ==> out is None
        }),
{
    let parts = path::components_of(changed);
    reveal_strlit("content");
    path::single_component("content"@);
    path::stripping_drops_components(changed, "content"@);
    assert(path::components_of("content"@)[0] == "content"@);
    assert(path::components_of("content"@).len() == 1);
    if parts.len() >= 1 && parts[0] == "content"@ {
        assert(parts.take(1) =~= path::components_of("content"@));
        let rel = path::stripped(changed, "content"@)->0;
        let inner = path::components_of(rel);
        assert(inner =~= parts.skip(1)) by {
            assert(parts =~= path::components_of("content"@) + inner);
        }
        if inner.len() >= 1 {
            assert(inner[0] == parts[1]);
        }
        if inner.len() >= 2 {
            assert(inner[1] == parts[2]);
        }
        if inner.len() == 0 {
            assert(path::file_name_of(rel) is None);
        }
    } else if path::under(changed, CONTENT_DIR@) {
        assert(parts.take(1)[0] == parts[0]);
    }
}

/// The Markdown of every entry that may become a page is a candidate, and nothing else is.
pub proof fn candidates_are_the_markdown_of_entries(entries: Seq<TopEntry>, i: int)
    requires
        0 <= i < entries.len(),
    ensures
        !entries[i].is_dir && path::extension_of(entries[i].name@) == Some("md"@) ==> candidates_of(
            entries,
        ).contains(entries[i].name@),
        entries[i].is_dir && path::extension_of(
            path::path_joined(entries[i].name@, "index.md"@),
        ) == Some("md"@) ==> candidates_of(entries).contains(
            path::path_joined(entries[i].name@, "index.md"@),
        ),
    decreases entries.len(),
{
    let all = candidates_of(entries);
    let wanted = if entries[i].is_dir {
        path::path_joined(entries[i].name@, "index.md"@)
    } else {
        entries[i].name@
    };
    if path::extension_of(wanted) == Some("md"@) {
        if i == entries.len() - 1 {
            assert(all[all.len() - 1] == wanted);
        } else {
            candidates_are_the_markdown_of_entries(entries.drop_last(), i);
            let before = candidates_of(entries.drop_last());
            let k = choose|k: int| 0 <= k < before.len() && before[k] == wanted;
            assert(all[k] == wanted);
        }
    }
}

} // verus!
