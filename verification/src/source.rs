//! The repository that a build is made from: the active repository, its changes and its siblings.

use vstd::prelude::*;

use crate::config::RepositoryUse;
use crate::git;
use crate::git::{Error, Failure, SourceMaterialization};
use crate::path_set;
use crate::status;
use crate::status::{Scope, StatusEntry};
use crate::text;
use crate::tree;
use crate::urls;

verus! {

/// The name and the mail address that commits of a build carry.
pub const SIGNATURE_NAME: &'static str = "eips-build";

pub const SIGNATURE_EMAIL: &'static str = "eips-build@eips-build.invalid";

/// The message of the commit that holds the changes of the active repository.
pub const DIRTY_COMMIT_MESSAGE: &'static str = "Dirty working tree materialization";

/// The branch that a build is made on.
pub const BUILD_BRANCH: &'static str = "master";

/// The reference of that branch.
pub const BUILD_BRANCH_REF: &'static str = "refs/heads/master";

/// A build before its source is there.
#[derive(Debug, Clone)]
pub struct Fresh {
    src_repo_use: RepositoryUse,
    src_repo_path: String,
    src_repo_url: String,
    source_materialization: SourceMaterialization,
}

/// A step of making the active repository the source of a build.
#[derive(Debug, Clone, PartialEq, Eq)]
pub enum SourceStep {
    /// Fetch from a repository.
    Fetch { url: String, refspec: String },
    /// Make the fetched commit the head.
    DetachHead,
    /// Put the branch of the build on the fetched commit, and the head on the branch.
    SetBranch,
    /// Make the working tree what the head is, without anything else.
    Checkout,
    /// Put the changes of the source on top.
    MaterializeDirty { source_root: String },
}

/// What a step stands for.
pub enum SourceStepView {
    Fetch { url: Seq<char>, refspec: Seq<char> },
    DetachHead,
    SetBranch,
    Checkout,
    MaterializeDirty { source_root: Seq<char> },
}

impl View for SourceStep {
    type V = SourceStepView;

    open spec fn view(&self) -> SourceStepView {
        match self {
            SourceStep::Fetch { url, refspec } => SourceStepView::Fetch {
                url: url@,
                refspec: refspec@,
            },
            SourceStep::DetachHead => SourceStepView::DetachHead,
            SourceStep::SetBranch => SourceStepView::SetBranch,
            SourceStep::Checkout => SourceStepView::Checkout,
            SourceStep::MaterializeDirty { source_root } => SourceStepView::MaterializeDirty {
                source_root: source_root@,
            },
        }
    }
}

/// What a list of steps stands for.
pub open spec fn source_step_views(list: Seq<SourceStep>) -> Seq<SourceStepView> {
    Seq::new(list.len(), |i: int| list[i]@)
}

/// The steps that make a repository the source of a build.
pub open spec fn source_steps(
    url: Seq<char>,
    root: Seq<char>,
    materialization: SourceMaterialization,
) -> Seq<SourceStepView> {
    let base = seq![
        SourceStepView::Fetch { url, refspec: git::SOURCE_REFSPEC@ },
        SourceStepView::DetachHead,
        SourceStepView::SetBranch,
        SourceStepView::Checkout,
    ];
    match materialization {
        SourceMaterialization::Clean => base,
        SourceMaterialization::Dirty => base.push(
            SourceStepView::MaterializeDirty { source_root: root },
        ),
    }
}

/// Why a repository cannot be the source of a build.
pub open spec fn source_failure(
    root: Seq<char>,
    entries: Seq<StatusEntry>,
    materialization: SourceMaterialization,
) -> Option<Failure> {
    if materialization == SourceMaterialization::Clean && !status::is_clean(entries) {
        Some(status::rejection(entries))
    } else if urls::directory_url_of(root) is None {
        Some(Failure::PathUrl(root))
    } else {
        None
    }
}

impl Fresh {
    /// The repositories that the build takes content from.
    pub closed spec fn repos(&self) -> RepositoryUse {
        self.src_repo_use
    }

    /// The root of the active repository.
    pub closed spec fn root(&self) -> Seq<char> {
        self.src_repo_path@
    }

    /// The address of the active repository.
    pub closed spec fn url(&self) -> Seq<char> {
        self.src_repo_url@
    }

    /// Which state of the active repository is built.
    pub closed spec fn materialization(&self) -> SourceMaterialization {
        self.source_materialization
    }

    /// A build of the repository at a path that has a URL, given the changes of that repository. A
    /// build of the last commit takes no repository with changes.
    pub fn new(
        root_path: &str,
        entries: &Vec<StatusEntry>,
        src_repo_use: RepositoryUse,
        source_materialization: SourceMaterialization,
    ) -> (out: Result<Self, Error>)
        ensures
            match out {
                Ok(made) => {
                    &&& source_failure(root_path@, entries@, source_materialization) is None
                    &&& made.repos() == src_repo_use
                    &&& made.root() == root_path@
                    &&& urls::directory_url_of(root_path@) == Some(made.url())
                    &&& made.materialization() == source_materialization
                },
                Err(error) => source_failure(root_path@, entries@, source_materialization) == Some(
                    error@,
                ),
            },
    {
        if source_materialization == SourceMaterialization::Clean {
            match status::check_dirty(entries) {
                Ok(_) => {},
                Err(error) => return Err(error),
            }
        }
        match urls::directory_url(root_path) {
            Some(url) => Ok(
                Fresh {
                    src_repo_use,
                    src_repo_path: root_path.to_owned(),
                    src_repo_url: url,
                    source_materialization,
                },
            ),
            None => Err(Error::PathUrl { path: root_path.to_owned() }),
        }
    }

    /// The steps that make the active repository the source, and the build behind them.
    pub fn clone_src(self) -> (out: (Vec<SourceStep>, SourceOnly))
        ensures
            source_step_views(out.0@) == source_steps(
                self.url(),
                self.root(),
                self.materialization(),
            ),
            out.1.repos() == self.repos(),
    {
        let mut steps: Vec<SourceStep> = Vec::new();
        steps.push(
            SourceStep::Fetch { url: self.src_repo_url, refspec: git::SOURCE_REFSPEC.to_owned() },
        );
        steps.push(SourceStep::DetachHead);
        steps.push(SourceStep::SetBranch);
        steps.push(SourceStep::Checkout);
        if self.source_materialization == SourceMaterialization::Dirty {
            steps.push(SourceStep::MaterializeDirty { source_root: self.src_repo_path });
        }
        assert(source_step_views(steps@) =~= source_steps(
            self.url(),
            self.root(),
            self.materialization(),
        ));
        (steps, SourceOnly { src_repo_use: self.src_repo_use })
    }
}

/// What becomes of the changes of the active repository.
#[derive(Debug, Clone, PartialEq, Eq)]
pub struct DirtyTree {
    /// Whether there are untracked files, which are left out.
    pub untracked: bool,
    /// The changed paths to commit, where there are any.
    pub commit: Option<Vec<String>>,
}

/// The changed paths to commit, and whether there are untracked files.
pub fn materialize_dirty_tree(entries: &Vec<StatusEntry>) -> (out: Result<DirtyTree, Error>)
    ensures
        match out {
            Ok(tree) => {
                let changed = path_set::set_of(status::all_changed(Scope::Source, entries@));
                &&& status::first_conflict(entries@) is None
                &&& tree.untracked == (status::untracked_in(Scope::Source, entries@) > 0)
                &&& match tree.commit {
                    Some(paths) => changed.len() > 0 && text::views(paths@) == changed,
                    None => changed.len() == 0,
                }
            },
            Err(error) => status::first_conflict(entries@) matches Some(found) && error@
                == Failure::DirtyConflict(found),
        },
{
    match status::collect_dirty_paths(entries, Scope::Source) {
        Err(error) => Err(error),
        Ok((paths, untracked)) => {
            let commit = if paths.is_empty() {
                None
            } else {
                Some(paths.to_vec())
            };
            Ok(DirtyTree { untracked: untracked > 0, commit })
        },
    }
}

/// The merge of a sibling repository into a build.
#[derive(Debug, Clone, PartialEq, Eq)]
pub struct SiblingMerge {
    /// The name of the sibling.
    pub id: String,
    /// Where it is fetched from.
    pub url: String,
    /// The reference that it is fetched into.
    pub reference: String,
    /// What is fetched, and into what.
    pub refspec: String,
    /// The message of the commit.
    pub message: String,
}

/// What a merge stands for.
pub struct MergeView {
    pub id: Seq<char>,
    pub url: Seq<char>,
    pub reference: Seq<char>,
    pub refspec: Seq<char>,
    pub message: Seq<char>,
}

impl View for SiblingMerge {
    type V = MergeView;

    open spec fn view(&self) -> MergeView {
        MergeView {
            id: self.id@,
            url: self.url@,
            reference: self.reference@,
            refspec: self.refspec@,
            message: self.message@,
        }
    }
}

/// What a list of merges stands for.
pub open spec fn merge_views(list: Seq<SiblingMerge>) -> Seq<MergeView> {
    Seq::new(list.len(), |i: int| list[i]@)
}

/// The reference that a sibling is fetched into.
pub open spec fn sibling_ref(index: nat) -> Seq<char> {
    "refs/build-eips/other-head-"@ + text::decimal_digits(index)
}

/// The merge of a sibling: what a local repository has checked out, or the branch `master` of
/// another.
pub open spec fn sibling_merge(index: nat, id: Seq<char>, url: Seq<char>) -> MergeView {
    let reference = sibling_ref(index);
    MergeView {
        id,
        url,
        reference,
        refspec: if urls::is_file_url(url) {
            "+HEAD:"@ + reference
        } else {
            "+master:"@ + reference
        },
        message: "Merge "@ + url,
    }
}

/// The merges of all siblings.
pub open spec fn sibling_merges(siblings: Seq<(String, String)>) -> Seq<MergeView> {
    Seq::new(
        siblings.len(),
        |i: int| sibling_merge(i as nat, siblings[i].0@, siblings[i].1@),
    )
}

/// The merges of all siblings, in the order of the table.
pub fn merge_sibling_repositories(repo_use: &RepositoryUse) -> (out: Vec<SiblingMerge>)
    ensures
        merge_views(out@) == sibling_merges(repo_use.other_repos.list()),
{
    let ghost list = repo_use.other_repos.list();
    let mut out: Vec<SiblingMerge> = Vec::new();
    let mut i: usize = 0;
    while i < repo_use.other_repos.len()
        invariant
            i <= list.len(),
            i == out@.len(),
            list == repo_use.other_repos.list(),
            forall|k: int| 0 <= k < i ==> (#[trigger] out@[k])@ == sibling_merges(list)[k],
        decreases list.len() - i,
    {
        let (id, url) = repo_use.other_repos.entry(i);
        let mut reference = "refs/build-eips/other-head-".to_owned();
        let digits = text::decimal(i);
        reference.append(digits.as_str());
        let mut refspec = if urls::has_file_scheme(url.as_str()) {
            "+HEAD:".to_owned()
        } else {
            "+master:".to_owned()
        };
        refspec.append(reference.as_str());
        let mut message = "Merge ".to_owned();
        message.append(url.as_str());
        let merge = SiblingMerge { id: id.clone(), url: url.clone(), reference, refspec, message };
        assert(merge@ == sibling_merges(list)[i as int]);
        out.push(merge);
        i += 1;
    }
    assert(merge_views(out@) =~= sibling_merges(list));
    out
}

/// A build whose source is there.
#[derive(Debug, Clone)]
pub struct SourceOnly {
    src_repo_use: RepositoryUse,
}

impl SourceOnly {
    /// The repositories that the build takes content from.
    pub closed spec fn repos(&self) -> RepositoryUse {
        self.src_repo_use
    }

    /// The merges of all siblings.
    pub fn merge(&self) -> (out: Vec<SiblingMerge>)
        ensures
            merge_views(out@) == sibling_merges(self.repos().other_repos.list()),
    {
        merge_sibling_repositories(&self.src_repo_use)
    }

    /// What to fetch to know the published state of the active repository, and the build that knows
    /// it.
    pub fn fetch_upstream(self) -> (out: (SourceStep, SourceWithUpstream))
        ensures
            out.0@ == (SourceStepView::Fetch {
                url: self.repos().location.repository@,
                refspec: git::UPSTREAM_REFSPEC@,
            }),
            out.1.repos() == self.repos(),
    {
        let fetch = SourceStep::Fetch {
            url: self.src_repo_use.location.repository.clone(),
            refspec: git::UPSTREAM_REFSPEC.to_owned(),
        };
        (fetch, SourceWithUpstream { src_repo_use: self.src_repo_use })
    }
}

/// A build whose source is there, and the published state of the active repository.
#[derive(Debug, Clone)]
pub struct SourceWithUpstream {
    src_repo_use: RepositoryUse,
}

impl SourceWithUpstream {
    /// The repositories that the build takes content from.
    pub closed spec fn repos(&self) -> RepositoryUse {
        self.src_repo_use
    }

    /// The files that differ from where the source left the published state, given the new path of
    /// each difference.
    pub fn changed_files(&self, deltas: &Vec<Option<String>>) -> (out: Vec<String>)
        ensures
            text::views(out@) == tree::named_files(deltas@),
    {
        tree::changed_files(deltas)
    }

    /// The merges of all siblings.
    pub fn merge(&self) -> (out: Vec<SiblingMerge>)
        ensures
            merge_views(out@) == sibling_merges(self.repos().other_repos.list()),
    {
        merge_sibling_repositories(&self.src_repo_use)
    }
}

/// The changes of the active repository come last, on top of its checked-out last commit, and only
/// where they are to be built.
pub proof fn changes_come_on_top(
    url: Seq<char>,
    root: Seq<char>,
    materialization: SourceMaterialization,
    i: int,
)
    requires
        0 <= i < source_steps(url, root, materialization).len(),
        source_steps(url, root, materialization)[i] is MaterializeDirty,
    ensures
        materialization == SourceMaterialization::Dirty,
        i == source_steps(url, root, materialization).len() - 1,
        i > 0 && source_steps(url, root, materialization)[i - 1] is Checkout,
{
}

/// Siblings are fetched into different references.
pub proof fn sibling_refs_differ(i: nat, j: nat)
    requires
        i != j,
    ensures
        sibling_ref(i) != sibling_ref(j),
{
    text::decimal_digits_round_trip(i);
    text::decimal_digits_round_trip(j);
    let start = "refs/build-eips/other-head-"@;
    if sibling_ref(i) == sibling_ref(j) {
        assert(sibling_ref(i).skip(start.len() as int) =~= text::decimal_digits(i));
        assert(sibling_ref(j).skip(start.len() as int) =~= text::decimal_digits(j));
    }
}

/// What is merged is what was fetched: the reference that a sibling's refspec fetches into is the one
/// that the merge reads.
pub proof fn merges_read_what_they_fetched(index: nat, id: Seq<char>, url: Seq<char>)
    ensures
        git::fetched_into(sibling_merge(index, id, url).refspec) == sibling_merge(
            index,
            id,
            url,
        ).reference,
{
    reveal_strlit("+HEAD:");
    reveal_strlit("+master:");
    reveal_strlit("refs/build-eips/other-head-");
    let reference = sibling_ref(index);
    let refspec = sibling_merge(index, id, url).refspec;
    let colon: int = if urls::is_file_url(url) {
        5
    } else {
        7
    };
    text::first_index_unique(refspec, ':', colon);
    assert(refspec.skip(colon + 1) =~= reference);
}

/// Every sibling is merged, in the order of the table: fetched from its address into a reference of its
/// own, as it is checked out where the address is of the `file` scheme, and from the branch `master`
/// of every other.
pub proof fn siblings_are_fetched_as_they_stand(siblings: Seq<(String, String)>, i: int)
    requires
        0 <= i < siblings.len(),
    ensures
        sibling_merges(siblings).len() == siblings.len(),
        ({
            let merge = sibling_merges(siblings)[i];
            let reference = "refs/build-eips/other-head-"@ + text::decimal_digits(i as nat);
            &&& merge.id == siblings[i].0@
            &&& merge.url == siblings[i].1@
            &&& merge.reference == reference
            &&& merge.message == "Merge "@ + siblings[i].1@
            &&& text::has_prefix(siblings[i].1@, "file:"@) ==> merge.refspec == "+HEAD:"@
                + reference
            &&& !text::has_prefix(siblings[i].1@, "file:"@) ==> merge.refspec == "+master:"@
                + reference
        }),
{
}

/// The source of a build is what the active repository has checked out: it is fetched from there and
/// checked out, and its changes are brought in behind that exactly where they are to be built.
pub proof fn sources_are_what_is_checked_out(
    url: Seq<char>,
    root: Seq<char>,
    materialization: SourceMaterialization,
)
    ensures
        ({
            let steps = source_steps(url, root, materialization);
            &&& steps[0] == (SourceStepView::Fetch {
                url,
                refspec: "+HEAD:refs/build-eips/source-head"@,
            })
            &&& steps[3] is Checkout
            &&& materialization == SourceMaterialization::Dirty ==> steps.len() == 5 && steps[4]
                == (SourceStepView::MaterializeDirty { source_root: root })
            &&& materialization == SourceMaterialization::Clean ==> steps.len() == 4
        }),
{
}

/// A repository can be the source of a build where it has a URL and, for a build of its last commit, no
/// changes; with changes it can be that of a build of them alone.
pub proof fn sources_have_a_url_and_no_changes(
    root: Seq<char>,
    entries: Seq<StatusEntry>,
    materialization: SourceMaterialization,
)
    ensures
        source_failure(root, entries, materialization) is None <==> urls::directory_url_of(
            root,
        ) is Some && (materialization == SourceMaterialization::Dirty || status::is_clean(entries)),
{
}

} // verus!
