//! How a local workspace is set up.

use vstd::prelude::*;

use crate::config;
use crate::config::ActiveRepo;
use crate::git::CloneOutcome;
use crate::path;
use crate::pattern;
use crate::text;

verus! {

/// Where the template of proposals comes from.
pub const PROPOSAL_TEMPLATE_URL: &'static str = "https://github.com/eips-wg/template.git";

/// The file that explains a workspace.
pub const WORKSPACE_DOC_FILE: &'static str = "WORKSPACE.md";

/// The directories of the optional repositories.
pub const TEMPLATE_DIR: &'static str = "template";

pub const PREPROCESSOR_DIR: &'static str = "preprocessor";

pub const EIPW_DIR: &'static str = "eipw";

/// Where the optional repositories come from.
#[derive(Debug, Clone, PartialEq, Eq)]
pub struct WorkspaceInitToolingRepositories {
    pub template: String,
    pub preprocessor: String,
    pub eipw: String,
}

/// A step of setting a workspace up.
#[derive(Debug, Clone, PartialEq, Eq)]
pub enum InitStep {
    /// Clone a repository to a path, or use the one that is there.
    Clone { url: String, path: String, context: String },
    /// Where the repository was cloned just now, check a commit out.
    PinFresh { url: String, path: String, commit: String, context: String },
    /// Make a directory.
    CreateDir { path: String },
    /// Write the configuration, unless there is one.
    WriteConfig { path: String },
    /// Write the file that explains the workspace.
    WriteDoc { path: String, context: String },
}

/// What a step stands for.
pub enum InitView {
    Clone { url: Seq<char>, path: Seq<char>, context: Seq<char> },
    PinFresh { url: Seq<char>, path: Seq<char>, commit: Seq<char>, context: Seq<char> },
    CreateDir { path: Seq<char> },
    WriteConfig { path: Seq<char> },
    WriteDoc { path: Seq<char>, context: Seq<char> },
}

impl View for InitStep {
    type V = InitView;

    open spec fn view(&self) -> InitView {
        match self {
            InitStep::Clone { url, path, context } => InitView::Clone {
                url: url@,
                path: path@,
                context: context@,
            },
            InitStep::PinFresh { url, path, commit, context } => InitView::PinFresh {
                url: url@,
                path: path@,
                commit: commit@,
                context: context@,
            },
            InitStep::CreateDir { path } => InitView::CreateDir { path: path@ },
            InitStep::WriteConfig { path } => InitView::WriteConfig { path: path@ },
            InitStep::WriteDoc { path, context } => InitView::WriteDoc {
                path: path@,
                context: context@,
            },
        }
    }
}

/// What a list of steps stands for.
pub open spec fn init_views(list: Seq<InitStep>) -> Seq<InitView> {
    Seq::new(list.len(), |i: int| list[i]@)
}

/// What a clone that failed says of itself.
pub open spec fn clone_context(what: Seq<char>, at: Seq<char>) -> Seq<char> {
    text::glued(
        seq![
            "unable to prepare workspace "@,
            what,
            " at `"@,
            at,
            "`; destination must be missing or a usable git repository"@,
        ],
    )
}

/// The clone of a repository into the workspace.
pub open spec fn clone_step(
    root: Seq<char>,
    dir: Seq<char>,
    url: Seq<char>,
    what: Seq<char>,
) -> InitView {
    let at = path::path_joined(root, dir);
    InitView::Clone { url, path: at, context: clone_context(what, at) }
}

/// The clones of the siblings.
pub open spec fn sibling_clones(root: Seq<char>, siblings: Seq<(String, String)>) -> Seq<InitView> {
    Seq::new(
        siblings.len(),
        |i: int|
            clone_step(
                root,
                siblings[i].0@,
                siblings[i].1@,
                text::glued(seq!["sibling repo `"@, siblings[i].0@, "`"@]),
            ),
    )
}

/// The steps that bring the theme.
pub open spec fn theme_steps(root: Seq<char>, url: Seq<char>, commit: Seq<char>) -> Seq<InitView> {
    seq![
        clone_step(root, config::DEFAULT_THEME_DIR@, url, "theme repo"@),
        InitView::PinFresh {
            url,
            path: path::path_joined(root, config::DEFAULT_THEME_DIR@),
            commit,
            context: text::glued(
                seq![
                    "unable to fetch or check out active Build.toml theme commit `"@,
                    commit,
                    "`"@,
                ],
            ),
        },
    ]
}

/// The clones of the optional repositories that were asked for.
pub open spec fn tooling_steps(
    root: Seq<char>,
    repositories: WorkspaceInitToolingRepositories,
    template: bool,
    platform_dev: bool,
) -> Seq<InitView> {
    let first = if template {
        seq![clone_step(root, TEMPLATE_DIR@, repositories.template@, "template repo"@)]
    } else {
        Seq::empty()
    };
    let more = if platform_dev {
        seq![
            clone_step(root, PREPROCESSOR_DIR@, repositories.preprocessor@, "preprocessor repo"@),
            clone_step(root, EIPW_DIR@, repositories.eipw@, "eipw repo"@),
        ]
    } else {
        Seq::empty()
    };
    first + more
}

/// The steps that write what belongs to the workspace itself.
pub open spec fn local_steps(root: Seq<char>) -> Seq<InitView> {
    let doc = path::path_joined(root, WORKSPACE_DOC_FILE@);
    seq![
        InitView::CreateDir { path: path::path_joined(root, config::DEFAULT_BUILD_ROOT_BASE@) },
        InitView::WriteConfig { path: path::path_joined(root, config::LOCAL_CONFIG_FILE@) },
        InitView::WriteDoc {
            path: doc,
            context: text::glued(seq!["unable to write workspace document `"@, doc, "`"@]),
        },
    ]
}

/// The steps that set a workspace up.
pub open spec fn init_steps(
    active: ActiveRepo,
    root: Seq<char>,
    repositories: WorkspaceInitToolingRepositories,
    template: bool,
    platform_dev: bool,
) -> Seq<InitView> {
    sibling_clones(root, active.repository_use.other_repos.list()) + theme_steps(
        root,
        active.theme.repository@,
        active.theme.commit@,
    ) + tooling_steps(root, repositories, template, platform_dev) + local_steps(root)
}

fn clone_into(root: &str, dir: &str, url: &str, what: &str) -> (out: InitStep)
    ensures
        out@ == clone_step(root@, dir@, url@, what@),
{
    let at = path::join(root, dir);
    let parts = vec![
        "unable to prepare workspace ",
        what,
        " at `",
        at.as_str(),
        "`; destination must be missing or a usable git repository",
    ];
    assert(text::str_views(parts@) =~= seq![
        "unable to prepare workspace "@,
        what@,
        " at `"@,
        at@,
        "`; destination must be missing or a usable git repository"@,
    ]);
    let context = text::glue(parts);
    InitStep::Clone { url: url.to_owned(), path: at, context }
}

/// The steps that set a workspace up: the siblings and the theme of the active repository, the
/// optional repositories that were asked for, and the files of the workspace itself.
pub fn init_workspace(
    active: &ActiveRepo,
    workspace_root: &str,
    repositories: &WorkspaceInitToolingRepositories,
    include_template: bool,
    platform_dev: bool,
) -> (out: Vec<InitStep>)
    ensures
        init_views(out@) == init_steps(
            *active,
            workspace_root@,
            *repositories,
            include_template,
            platform_dev,
        ),
{
    let ghost list = active.repository_use.other_repos.list();
    let ghost clones = sibling_clones(workspace_root@, list);
    let mut steps: Vec<InitStep> = Vec::new();
    let mut i: usize = 0;
    while i < active.repository_use.other_repos.len()
        invariant
            i <= list.len(),
            list == active.repository_use.other_repos.list(),
            clones == sibling_clones(workspace_root@, list),
            init_views(steps@) =~= clones.take(i as int),
        decreases list.len() - i,
    {
        let ghost before = steps@;
        let (id, url) = active.repository_use.other_repos.entry(i);
        let what = text::wrap("sibling repo `", id.as_str(), "`");
        let step = clone_into(workspace_root, id.as_str(), url.as_str(), what.as_str());
        assert(step@ == clones[i as int]);
        steps.push(step);
        assert(init_views(steps@) =~= init_views(before).push(step@));
        i += 1;
    }
    assert(clones.take(i as int) =~= clones);
    let ghost siblings = steps@;
    steps.push(
        clone_into(
            workspace_root,
            config::DEFAULT_THEME_DIR,
            active.theme.repository.as_str(),
            "theme repo",
        ),
    );
    let context = text::wrap(
        "unable to fetch or check out active Build.toml theme commit `",
        active.theme.commit.as_str(),
        "`",
    );
    steps.push(
        InitStep::PinFresh {
            url: active.theme.repository.clone(),
            path: path::join(workspace_root, config::DEFAULT_THEME_DIR),
            commit: active.theme.commit.clone(),
            context,
        },
    );
    if include_template {
        steps.push(
            clone_into(
                workspace_root,
                TEMPLATE_DIR,
                repositories.template.as_str(),
                "template repo",
            ),
        );
    }
    if platform_dev {
        steps.push(
            clone_into(
                workspace_root,
                PREPROCESSOR_DIR,
                repositories.preprocessor.as_str(),
                "preprocessor repo",
            ),
        );
        steps.push(
            clone_into(workspace_root, EIPW_DIR, repositories.eipw.as_str(), "eipw repo"),
        );
    }
    steps.push(
        InitStep::CreateDir { path: path::join(workspace_root, config::DEFAULT_BUILD_ROOT_BASE) },
    );
    steps.push(
        InitStep::WriteConfig { path: path::join(workspace_root, config::LOCAL_CONFIG_FILE) },
    );
    let doc = path::join(workspace_root, WORKSPACE_DOC_FILE);
    let context = text::wrap("unable to write workspace document `", doc.as_str(), "`");
    steps.push(InitStep::WriteDoc { path: doc, context });
    let ghost rest = theme_steps(
        workspace_root@,
        active.theme.repository@,
        active.theme.commit@,
    ) + tooling_steps(workspace_root@, *repositories, include_template, platform_dev)
        + local_steps(workspace_root@);
    proof {
        assert(init_views(siblings) =~= clones);
        assert(init_views(steps@) =~= clones + rest);
        assert(clones + rest =~= init_steps(
            *active,
            workspace_root@,
            *repositories,
            include_template,
            platform_dev,
        ));
    }
    steps
}

/// Whether the commit of the manifest is checked out: only in a clone made just now, an existing
/// checkout stays as it is.
pub fn pins_theme(outcome: CloneOutcome) -> (yes: bool)
    ensures
        yes == (outcome == CloneOutcome::Fresh),
{
    match outcome {
        CloneOutcome::Fresh => true,
        CloneOutcome::Existing => false,
    }
}

/// What making a new file gave.
#[derive(Debug, Clone, PartialEq, Eq)]
pub enum NewFile {
    Created,
    Exists,
    Failed(String),
}

/// Whether the configuration is written: an existing one stays as it is.
pub fn writes_config(file: &NewFile) -> (out: Result<bool, String>)
    ensures
        match *file {
            NewFile::Created => out == Ok::<bool, String>(true),
            NewFile::Exists => out == Ok::<bool, String>(false),
            NewFile::Failed(cause) => out matches Err(why) && why@ == cause@,
        },
{
    match file {
        NewFile::Created => Ok(true),
        NewFile::Exists => Ok(false),
        NewFile::Failed(cause) => Err(cause.clone()),
    }
}

/// The path that a step writes to.
pub open spec fn written_path(step: InitView) -> Seq<char> {
    match step {
        InitView::Clone { path, .. } => path,
        InitView::PinFresh { path, .. } => path,
        InitView::CreateDir { path } => path,
        InitView::WriteConfig { path } => path,
        InitView::WriteDoc { path, .. } => path,
    }
}

proof fn entry_is_below(root: Seq<char>, dir: Seq<char>)
    requires
        dir.len() > 0,
        dir != seq!['.'],
        forall|i: int| 0 <= i < dir.len() ==> dir[i] != '/',
    ensures
        path::under(path::path_joined(root, dir), root),
{
    path::piece_is_one_component(dir);
    path::join_appends_components(root, dir);
    let first = path::components_of(root);
    assert(path::components_of(path::path_joined(root, dir)).take(first.len() as int) =~= first);
}

/// Setting a workspace up writes below its root, and nowhere else, where the siblings have names of
/// locations.
pub proof fn setup_stays_in_the_workspace(
    active: ActiveRepo,
    root: Seq<char>,
    repositories: WorkspaceInitToolingRepositories,
    template: bool,
    platform_dev: bool,
    i: int,
)
    requires
        0 <= i < init_steps(active, root, repositories, template, platform_dev).len(),
        forall|k: int|
            0 <= k < active.repository_use.other_repos.list().len() ==> pattern::location_name(
                (#[trigger] active.repository_use.other_repos.list()[k]).0@,
            ),
    ensures
        path::under(
            written_path(init_steps(active, root, repositories, template, platform_dev)[i]),
            root,
        ),
{
    let list = active.repository_use.other_repos.list();
    assert(seq!['.'].len() == 1);
    if i < list.len() {
        let id = list[i].0@;
        assert(pattern::location_name(id));
        assert(seq!['.'][0] == '.');
        entry_is_below(root, id);
    } else {
        reveal_strlit("theme");
        reveal_strlit("template");
        reveal_strlit("preprocessor");
        reveal_strlit("eipw");
        reveal_strlit(".local-build");
        reveal_strlit(".build-eips.toml");
        reveal_strlit("WORKSPACE.md");
        entry_is_below(root, "theme"@);
        entry_is_below(root, "template"@);
        entry_is_below(root, "preprocessor"@);
        entry_is_below(root, "eipw"@);
        entry_is_below(root, ".local-build"@);
        entry_is_below(root, ".build-eips.toml"@);
        entry_is_below(root, "WORKSPACE.md"@);
    }
}

/// The warning for a checkout of the theme that differs from the pin of the manifest. A pin may be
/// the beginning of a commit.
pub open spec fn pin_warning(head: Seq<char>, pin: Seq<char>) -> Option<Seq<char>> {
    if text::has_prefix(head, pin) {
        None
    } else {
        Some(
            text::glued(
                seq!["theme checkout `"@, head, "` differs from the manifest pin `"@, pin, "`"@],
            ),
        )
    }
}

/// The warning for a checkout of the theme that differs from the pin of the manifest.
pub fn check_theme_pin(head: &str, pin: &str) -> (out: Option<String>)
    ensures
        text::optional(out) == pin_warning(head@, pin@),
{
    if text::starts_with(head, pin) {
        None
    } else {
        let parts = vec![
            "theme checkout `",
            head,
            "` differs from the manifest pin `",
            pin,
            "`",
        ];
        assert(text::str_views(parts@)
            =~= seq!["theme checkout `"@, head@, "` differs from the manifest pin `"@, pin@, "`"@]);
        Some(text::glue(parts))
    }
}

/// Setting a workspace up brings everything that it needs: each sibling into the directory of its name,
/// from the address of its manifest; the theme, which is pinned where it was cloned just now; the
/// optional repositories exactly where they are asked for; and the directory of builds, the
/// configuration and the guide.
#[verifier::rlimit(60)]
pub proof fn workspaces_get_what_they_need(
    active: ActiveRepo,
    root: Seq<char>,
    repositories: WorkspaceInitToolingRepositories,
    template: bool,
    platform_dev: bool,
    i: int,
)
    requires
        0 <= i < active.repository_use.other_repos.list().len(),
    ensures
        ({
            let steps = init_steps(active, root, repositories, template, platform_dev);
            let list = active.repository_use.other_repos.list();
            let n = list.len() as int;
            let extra: int = (if template {
                1int
            } else {
                0
            }) + (if platform_dev {
                2int
            } else {
                0
            });
            let last = steps.len() as int;
            &&& last == n + 5 + extra
            &&& steps[i] matches InitView::Clone { url, path, .. } && url == list[i].1@ && path
                == path::path_joined(root, list[i].0@)
            &&& steps[n] matches InitView::Clone { url, path, .. } && url
                == active.theme.repository@ && path == path::path_joined(root, "theme"@)
            &&& steps[n + 1] matches InitView::PinFresh { url, path, commit, .. } && url
                == active.theme.repository@ && path == path::path_joined(root, "theme"@) && commit
                == active.theme.commit@
            &&& template ==> (steps[n + 2] matches InitView::Clone { url, path, .. } && url
                == repositories.template@ && path == path::path_joined(root, "template"@))
            &&& platform_dev ==> (steps[n + extra] matches InitView::Clone { url, path, .. } && url
                == repositories.preprocessor@ && path == path::path_joined(root, "preprocessor"@))
            &&& platform_dev ==> (steps[n + extra + 1] matches InitView::Clone { url, path, .. }
                && url == repositories.eipw@ && path == path::path_joined(root, "eipw"@))
            &&& steps[last - 3] == (InitView::CreateDir {
                path: path::path_joined(root, ".local-build"@),
            })
            &&& steps[last - 2] == (InitView::WriteConfig {
                path: path::path_joined(root, ".build-eips.toml"@),
            })
            &&& steps[last - 1] matches InitView::WriteDoc { path, .. } && path
                == path::path_joined(root, "WORKSPACE.md"@)
        }),
{
}

/// A checkout of the theme is warned of exactly where it does not begin with the pin.
pub proof fn checkouts_off_their_pin_are_warned_of(head: Seq<char>, pin: Seq<char>)
    ensures
        pin_warning(head, pin) is None <==> pin.len() <= head.len() && head.take(pin.len() as int)
            == pin,
{
}

} // verus!
