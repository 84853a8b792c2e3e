//! What a run prepares before the site generator is called, and how it is called then.

use vstd::prelude::*;

use crate::cli::{Args, Operation};
use crate::config::{LoadedWorkspaceConfig, RepositoryUse, ServerBinding};
use crate::execution;
use crate::execution::{ExecutionError, ResolvedExecution};
use crate::git::SourceMaterialization;
use crate::layout;
use crate::layout::{CONTENT_DIR, OUTPUT_DIR, REPO_DIR};
use crate::only::OnlyRenderPlan;
use crate::path;
use crate::serve;
use crate::serve::{LocalThemeServeSync, ServeSyncConfig};
use crate::text;
use crate::zola;
use crate::zola::Invocation;

verus! {

/// A step of preparing a run.
#[derive(Debug, Clone, PartialEq, Eq)]
pub enum PrepareStep {
    /// Find the site generator.
    FindZola,
    /// Make the active repository the source.
    CloneSource { root: String, repo: String },
    /// Merge the siblings into it.
    MergeSiblings { repo: String },
    /// Find out what the selected proposals are.
    BuildPlan { content: String },
    /// Turn the proposals into pages.
    Preprocess { content: String },
    /// Remove the proposals that are not selected.
    Prune { content: String },
    /// Copy the theme, with its tracked changes.
    MaterializeTheme { from: String, to: String },
    /// Find the index of the theme's repository.
    FindThemeIndex { theme: String },
}

/// What a step stands for.
pub enum PrepareView {
    FindZola,
    CloneSource { root: Seq<char>, repo: Seq<char> },
    MergeSiblings { repo: Seq<char> },
    BuildPlan { content: Seq<char> },
    Preprocess { content: Seq<char> },
    Prune { content: Seq<char> },
    MaterializeTheme { from: Seq<char>, to: Seq<char> },
    FindThemeIndex { theme: Seq<char> },
}

impl View for PrepareStep {
    type V = PrepareView;

    open spec fn view(&self) -> PrepareView {
        match self {
            PrepareStep::FindZola => PrepareView::FindZola,
            PrepareStep::CloneSource { root, repo } => PrepareView::CloneSource {
                root: root@,
                repo: repo@,
            },
            PrepareStep::MergeSiblings { repo } => PrepareView::MergeSiblings { repo: repo@ },
            PrepareStep::BuildPlan { content } => PrepareView::BuildPlan { content: content@ },
            PrepareStep::Preprocess { content } => PrepareView::Preprocess { content: content@ },
            PrepareStep::Prune { content } => PrepareView::Prune { content: content@ },
            PrepareStep::MaterializeTheme { from, to } => PrepareView::MaterializeTheme {
                from: from@,
                to: to@,
            },
            PrepareStep::FindThemeIndex { theme } => PrepareView::FindThemeIndex { theme: theme@ },
        }
    }
}

/// What a list of steps stands for.
pub open spec fn prepare_views(list: Seq<PrepareStep>) -> Seq<PrepareView> {
    Seq::new(list.len(), |i: int| list[i]@)
}

/// The repository of a build.
pub open spec fn repo_of(build_path: Seq<char>) -> Seq<char> {
    path::path_joined(build_path, REPO_DIR@)
}

/// The content directory of a build's repository.
pub open spec fn content_of(build_path: Seq<char>) -> Seq<char> {
    path::path_joined(repo_of(build_path), CONTENT_DIR@)
}

/// The steps that make the source.
pub open spec fn source_phase(root: Seq<char>, build_path: Seq<char>) -> Seq<PrepareView> {
    seq![
        PrepareView::CloneSource { root, repo: repo_of(build_path) },
        PrepareView::MergeSiblings { repo: repo_of(build_path) },
    ]
}

/// The steps that make pages of the content, of selected proposals alone where there are some.
pub open spec fn content_phase(build_path: Seq<char>, selected: bool) -> Seq<PrepareView> {
    let content = content_of(build_path);
    if selected {
        seq![
            PrepareView::BuildPlan { content },
            PrepareView::Preprocess { content },
            PrepareView::Prune { content },
        ]
    } else {
        seq![PrepareView::Preprocess { content }]
    }
}

/// The steps that bring the theme.
pub open spec fn theme_phase(build_path: Seq<char>, theme: Seq<char>) -> Seq<PrepareView> {
    seq![
        PrepareView::MaterializeTheme { from: theme, to: zola::mounted(repo_of(build_path)) },
        PrepareView::FindThemeIndex { theme },
    ]
}

/// The steps that prepare a run.
pub open spec fn prepare_steps(resolved: ResolvedExecution) -> Seq<PrepareView> {
    match resolved.theme_path {
        None => seq![PrepareView::FindZola],
        Some(theme) => seq![PrepareView::FindZola] + source_phase(
            resolved.root_path@,
            resolved.build_path@,
        ) + content_phase(resolved.build_path@, resolved.only is Some) + theme_phase(
            resolved.build_path@,
            theme@,
        ),
    }
}

/// The steps that prepare a run, up to a failure that is known before.
#[derive(Debug)]
pub struct PreparePlan {
    pub steps: Vec<PrepareStep>,
    pub failure: Option<ExecutionError>,
}

/// A run that is prepared.
#[derive(Debug)]
pub struct Prepared {
    pub repo_path: String,
    pub output_path: String,
    pub repository_use: RepositoryUse,
    pub theme_path: String,
    pub local_theme_sync: Option<LocalThemeServeSync>,
    pub only_plan: Option<OnlyRenderPlan>,
    pub source_root: String,
    pub source_materialization: SourceMaterialization,
    pub server_binding: ServerBinding,
    pub base_url_override: Option<String>,
}

impl Prepared {
    /// The steps that prepare a run. Without a theme nothing is prepared, once the site generator is
    /// found.
    pub fn prepare(resolved: &ResolvedExecution) -> (out: PreparePlan)
        ensures
            prepare_views(out.steps@) == prepare_steps(*resolved),
            match resolved.theme_path {
                Some(_) => out.failure is None,
                None => out.failure == Some(ExecutionError::NoRuntimeTheme),
            },
    {
        let mut steps: Vec<PrepareStep> = Vec::new();
        steps.push(PrepareStep::FindZola);
        let theme = match &resolved.theme_path {
            Some(theme) => theme.clone(),
            None => {
                assert(prepare_views(steps@) =~= prepare_steps(*resolved));
                return PreparePlan { steps, failure: Some(ExecutionError::NoRuntimeTheme) };
            },
        };
        let repo = path::join(resolved.build_path.as_str(), REPO_DIR);
        let content = path::join(repo.as_str(), CONTENT_DIR);
        let mounted = layout::mounted_theme_path(repo.as_str());
        steps.push(
            PrepareStep::CloneSource { root: resolved.root_path.clone(), repo: repo.clone() },
        );
        steps.push(PrepareStep::MergeSiblings { repo });
        if resolved.only.is_some() {
            steps.push(PrepareStep::BuildPlan { content: content.clone() });
        }
        steps.push(PrepareStep::Preprocess { content: content.clone() });
        if resolved.only.is_some() {
            steps.push(PrepareStep::Prune { content });
        }
        steps.push(PrepareStep::MaterializeTheme { from: theme.clone(), to: mounted });
        steps.push(PrepareStep::FindThemeIndex { theme });
        assert(prepare_views(steps@) =~= prepare_steps(*resolved));
        PreparePlan { steps, failure: None }
    }

    /// Whether the theme stands where the site generator looks for it.
    pub open spec fn wf(&self) -> bool {
        self.theme_path@ == zola::mounted(self.repo_path@)
    }

    /// The prepared run, given what its preparation found out.
    pub fn new(
        resolved: ResolvedExecution,
        only_plan: Option<OnlyRenderPlan>,
        theme_index_path: String,
    ) -> (out: Result<Self, ExecutionError>)
        ensures
            match out {
                Ok(made) => {
                    &&& resolved.theme_path matches Some(theme)
                    &&& made.wf()
                    &&& made.repo_path@ == repo_of(resolved.build_path@)
                    &&& made.output_path@ == path::path_joined(resolved.build_path@, OUTPUT_DIR@)
                    &&& made.repository_use == resolved.repository_use
                    &&& made.local_theme_sync matches Some(sync)
                    &&& sync.theme_source_root@ == theme@
                    &&& sync.mounted_theme_dir@ == made.theme_path@
                    &&& sync.theme_index_path == theme_index_path
                    &&& made.only_plan == only_plan
                    &&& made.source_root == resolved.root_path
                    &&& made.source_materialization == resolved.source_materialization
                    &&& made.server_binding == resolved.server_binding
                    &&& made.base_url_override == resolved.base_url_override
                },
                Err(error) => resolved.theme_path is None && error == ExecutionError::NoRuntimeTheme,
            },
    {
        let theme = match resolved.theme_path {
            Some(theme) => theme,
            None => return Err(ExecutionError::NoRuntimeTheme),
        };
        let repo_path = path::join(resolved.build_path.as_str(), REPO_DIR);
        let theme_path = layout::mounted_theme_path(repo_path.as_str());
        let sync = LocalThemeServeSync {
            theme_source_root: theme,
            mounted_theme_dir: theme_path.clone(),
            theme_index_path,
        };
        Ok(
            Prepared {
                repo_path,
                output_path: layout::output_path(resolved.build_path.as_str()),
                repository_use: resolved.repository_use,
                theme_path,
                local_theme_sync: Some(sync),
                only_plan,
                source_root: resolved.root_path,
                source_materialization: resolved.source_materialization,
                server_binding: resolved.server_binding,
                base_url_override: resolved.base_url_override,
            },
        )
    }

    /// The address that links of a rendered site begin with: the one given for the run, or that of
    /// the active repository.
    pub open spec fn base_url(&self) -> Seq<char> {
        match self.base_url_override {
            Some(url) => url@,
            None => self.repository_use.location.base_url@,
        }
    }

    /// The call that renders the site.
    pub fn build(&self) -> (out: Invocation)
        ensures
            zola::invokes(
                out,
                self.theme_path@,
                self.repo_path@,
                seq!["build"@, "--drafts"@, "-u"@, self.base_url(), "-o"@, self.output_path@],
            ),
            text::optional(out.remove_output) == Some(self.output_path@),
    {
        let base_url = match &self.base_url_override {
            Some(url) => url.as_str(),
            None => self.repository_use.location.base_url.as_str(),
        };
        zola::build(
            self.theme_path.as_str(),
            self.repo_path.as_str(),
            self.output_path.as_str(),
            base_url,
        )
    }

    /// What is kept in step while the site is served, and the call that serves it.
    pub fn serve(self) -> (out: (ServeSyncConfig, Invocation))
        ensures
            zola::invokes(
                out.1,
                self.theme_path@,
                self.repo_path@,
                zola::serving_args(
                    self.server_binding,
                    self.output_path@,
                    Some(self.base_url()),
                ),
            ),
            text::optional(out.1.remove_output) == Some(self.output_path@),
            out.0.local_theme == self.local_theme_sync,
            match out.0.active_repo {
                Some(active) => {
                    &&& self.source_materialization == SourceMaterialization::Dirty
                    &&& active.source_root@ == self.source_root@
                    &&& active.build_repo_path@ == self.repo_path@
                    &&& active.only_plan == self.only_plan
                },
                None => self.source_materialization == SourceMaterialization::Clean,
            },
    {
        let base_url = match &self.base_url_override {
            Some(url) => Some(url.clone()),
            None => Some(self.repository_use.location.base_url.clone()),
        };
        let call = zola::serve(
            self.theme_path.as_str(),
            self.repo_path.as_str(),
            self.output_path.as_str(),
            &self.server_binding,
            &base_url,
        );
        let config = serve::serve_sync_config(
            self.source_materialization,
            self.source_root.as_str(),
            self.repo_path.as_str(),
            self.only_plan,
            self.local_theme_sync,
        );
        (config, call)
    }

    /// The call that checks the site.
    pub fn check(&self) -> (out: Invocation)
        ensures
            zola::invokes(
                out,
                self.theme_path@,
                self.repo_path@,
                seq!["check"@, "--drafts"@, "--skip-external-links"@],
            ),
            out.remove_output is None,
    {
        zola::check(self.theme_path.as_str(), self.repo_path.as_str())
    }
}

/// The copied theme of a prepared run is used as it stands: no call of the site generator puts a
/// link in its place.
pub proof fn copied_themes_stay(prepared: Prepared, call: Invocation, args: Seq<Seq<char>>)
    requires
        prepared.wf(),
        zola::invokes(call, prepared.theme_path@, prepared.repo_path@, args),
    ensures
        call.mount is InPlace,
{
}

/// The address that links of a rendered site begin with is that of the command line, else that of
/// the workspace, else that of the active repository in its manifest.
pub proof fn base_url_has_a_precedence(
    prepared: Prepared,
    args: Args,
    workspace: Option<&LoadedWorkspaceConfig>,
)
    requires
        text::optional(prepared.base_url_override) == execution::base_url_for(args, workspace),
    ensures
        prepared.base_url() == match args.operation.given_base_url() {
            Some(given) => given,
            None => match workspace {
                Some(workspace) => match workspace.settings().site.base_url {
                    Some(url) => url@,
                    None => prepared.repository_use.location.base_url@,
                },
                None => prepared.repository_use.location.base_url@,
            },
        },
{
}

/// The path that a step of the preparation writes to.
pub open spec fn written_path(step: PrepareView) -> Option<Seq<char>> {
    match step {
        PrepareView::FindZola => None,
        PrepareView::CloneSource { repo, .. } => Some(repo),
        PrepareView::MergeSiblings { repo } => Some(repo),
        PrepareView::BuildPlan { .. } => None,
        PrepareView::Preprocess { content } => Some(content),
        PrepareView::Prune { content } => Some(content),
        PrepareView::MaterializeTheme { to, .. } => Some(to),
        PrepareView::FindThemeIndex { .. } => None,
    }
}

/// Preparing a run writes below the repository of the build, and nowhere else: the active
/// repository and the theme are only read.
pub proof fn preparing_writes_to_the_build(resolved: ResolvedExecution, i: int)
    requires
        0 <= i < prepare_steps(resolved).len(),
    ensures
        written_path(prepare_steps(resolved)[i]) matches Some(at) ==> path::under(
            at,
            repo_of(resolved.build_path@),
        ),
{
    let repo = repo_of(resolved.build_path@);
    let first = path::components_of(repo);
    reveal_strlit("content");
    reveal_strlit("themes");
    reveal_strlit("eips-theme");
    path::word_is_one_component("content"@);
    path::word_is_one_component("themes"@);
    path::word_is_one_component("eips-theme"@);
    path::join_appends_components(repo, "content"@);
    path::join_appends_components(repo, "themes"@);
    path::join_appends_components(path::path_joined(repo, "themes"@), "eips-theme"@);
    assert(first.take(first.len() as int) =~= first);
    let content = path::components_of(path::path_joined(repo, "content"@));
    let themes = path::components_of(zola::mounted(repo));
    assert(content.take(first.len() as int) =~= first);
    assert(themes.take(first.len() as int) =~= first);
}

/// Siblings are merged before the selected proposals are looked for, pages are made of them before
/// the others are removed, and the theme comes last.
pub proof fn preparing_has_an_order(resolved: ResolvedExecution, i: int, j: int)
    requires
        0 <= i < prepare_steps(resolved).len(),
        0 <= j < prepare_steps(resolved).len(),
        ({
            let before = prepare_steps(resolved)[i];
            let after = prepare_steps(resolved)[j];
            ||| before is CloneSource && after is MergeSiblings
            ||| before is MergeSiblings && (after is BuildPlan || after is Preprocess)
            ||| before is BuildPlan && after is Preprocess
            ||| before is Preprocess && after is Prune
            ||| (before is Preprocess || before is Prune) && after is MaterializeTheme
        }),
    ensures
        i < j,
{
}

/// The base URL that the command line gives to `serve` or `build` is the one that the site generator
/// is called with, whatever the workspace and the manifest say; so is that of the workspace, and that
/// of the manifest, where nothing before it gives one.
pub proof fn the_site_gets_the_base_url_of_the_run(
    prepared: Prepared,
    resolved: ResolvedExecution,
    args: Args,
    repository_use: RepositoryUse,
    facts: execution::ExecutionFacts,
)
    requires
        execution::resolves(resolved, args, repository_use, facts),
        prepared.base_url_override == resolved.base_url_override,
        prepared.repository_use == resolved.repository_use,
    ensures
        args.operation matches Operation::Build { base_url: Some(url), .. } ==> prepared.base_url()
            == url@,
        args.operation matches Operation::Serve { base_url: Some(url), .. } ==> prepared.base_url()
            == url@,
        !(args.operation matches Operation::Build { base_url: Some(_), .. }) && !(
        args.operation matches Operation::Serve { base_url: Some(_), .. }) ==> prepared.base_url()
            == (match facts.workspace {
            Some(workspace) => match workspace.settings().site.base_url {
                Some(url) => url@,
                None => repository_use.location.base_url@,
            },
            None => repository_use.location.base_url@,
        }),
{
    execution::base_url_of_the_command_line_comes_first(resolved, args, repository_use, facts);
}

/// A run with a theme is prepared in full: the site generator is found, the source cloned into `repo`
/// of the build and siblings merged into it, pages made of its content, and the theme copied into it.
/// A selection is planned before pages are made and pruned to behind that; without one nothing is
/// pruned.
pub proof fn runs_are_prepared_in_full(resolved: ResolvedExecution)
    requires
        resolved.theme_path is Some,
    ensures
        ({
            let steps = prepare_steps(resolved);
            let repo = path::path_joined(resolved.build_path@, "repo"@);
            let content = path::path_joined(repo, "content"@);
            let n: int = if resolved.only is Some {
                1
            } else {
                0
            };
            &&& steps.len() == 6 + 2 * n
            &&& steps[0] is FindZola
            &&& steps[1] == (PrepareView::CloneSource { root: resolved.root_path@, repo })
            &&& steps[2] == (PrepareView::MergeSiblings { repo })
            &&& resolved.only is Some ==> steps[3] == (PrepareView::BuildPlan { content })
                && steps[5] == (PrepareView::Prune { content })
            &&& steps[3 + n] == (PrepareView::Preprocess { content })
            &&& steps[4 + 2 * n] == (PrepareView::MaterializeTheme {
                from: resolved.theme_path->0@,
                to: path::path_joined(path::path_joined(repo, "themes"@), "eips-theme"@),
            })
            &&& steps[5 + 2 * n] == (PrepareView::FindThemeIndex {
                theme: resolved.theme_path->0@,
            })
        }),
{
}

} // verus!
