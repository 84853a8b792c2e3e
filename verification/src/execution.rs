//! Execution source and path resolution.

use vstd::prelude::*;

use crate::cli::{Args, Operation, ServerCliArgs};
use crate::config;
use crate::config::{LoadedWorkspaceConfig, RepositoryUse, ServerBinding, ServerSettings};
use crate::git::SourceMaterialization;
use crate::layout::BUILD_DIR;
use crate::only;
use crate::path;
use crate::proposal::ProposalNumber;
use crate::status;
use crate::status::StatusEntry;
use crate::table::Table;
use crate::text;
use crate::urls;

verus! {

/// Where sibling repositories come from.
#[derive(Debug, Clone, Copy, PartialEq, Eq, Structural)]
pub enum SelectedSource {
    WorkspaceLocal,
    Remote,
}

/// What a run decides about its sources.
#[derive(Debug, Clone, PartialEq, Eq)]
pub struct ExecutionSettings {
    pub build_root: Option<String>,
    pub allow_dirty: bool,
    pub sibling: SelectedSource,
}

/// Why a run cannot be set up.
#[derive(Debug, Clone, PartialEq, Eq)]
pub enum ExecutionError {
    /// Flags for execution with `init` or `doctor`.
    LifecycleFlags,
    /// Flags for execution with `print`.
    PrintFlags,
    /// A selection where none applies.
    OnlyNotApplicable,
    /// No workspace for theme and siblings.
    MissingThemeAndSiblings,
    /// No workspace for siblings.
    MissingSiblingSources,
    /// No workspace for the theme.
    MissingThemeConfig,
    /// The theme is not there.
    MissingTheme(String),
    /// The theme cannot be examined.
    UnreadableTheme { path: String, cause: String },
    /// Siblings that are not there.
    MissingSiblings(Vec<String>),
    /// Siblings without a workspace.
    NoWorkspaceForSiblings,
    /// A sibling whose path has no URL.
    SiblingUrl(String),
    /// No theme where one is needed.
    NoTheme,
    /// No theme for the site generator.
    NoRuntimeTheme,
}

/// The message for a run that cannot be set up.
pub open spec fn execution_message(error: ExecutionError) -> Seq<char> {
    match error {
        ExecutionError::LifecycleFlags => {
            "execution override flags cannot be used with `init` or `doctor`"@
        },
        ExecutionError::PrintFlags => "execution override flags cannot be used with `print`"@,
        ExecutionError::OnlyNotApplicable => {
            "--only is supported only for local dirty build and serve commands"@
        },
        ExecutionError::MissingThemeAndSiblings => text::glued(
            seq![
                "the selected command requires a workspace config with local theme and sibling sources, but no `"@,
                config::LOCAL_CONFIG_FILE@,
                "` was found.\n\nRun:\n  build-eips init <workspace-root>\n\nThen retry from that workspace, or pass `--remote-siblings` if you intentionally want remote sibling proposal sources."@,
            ],
        ),
        ExecutionError::MissingSiblingSources => text::glued(
            seq![
                "the selected command requires workspace-local sibling sources, but no `"@,
                config::LOCAL_CONFIG_FILE@,
                "` was found to provide them.\nResolve this by doing one of the following:\n1. run `build-eips init <workspace-root>` so the workspace config supplies the local sources\n2. pass `--remote-siblings` for remote sibling source overrides"@,
            ],
        ),
        ExecutionError::MissingThemeConfig => text::glued(
            seq![
                "the selected command requires a workspace config with a local theme, but no `"@,
                config::LOCAL_CONFIG_FILE@,
                "` was found.\n\nRun:\n  build-eips init <workspace-root>\n\nThen retry from that workspace."@,
            ],
        ),
        ExecutionError::MissingTheme(theme) => text::glued(
            seq![
                "workspace-local theme path `"@,
                theme@,
                "` does not exist.\n\nRun `build-eips init <workspace-root>` to bootstrap the workspace, or\nclone/update the theme repository at the configured path."@,
            ],
        ),
        ExecutionError::UnreadableTheme { path, cause } => text::glued(
            seq!["unable to access workspace-local theme path `"@, path@, "`: "@ + cause@],
        ),
        ExecutionError::MissingSiblings(missing) => {
            "workspace-local sibling selection requires all declared sibling repos; missing or invalid sibling repo(s): "@
                + text::joined(text::views(missing@), ", "@)
        },
        ExecutionError::NoWorkspaceForSiblings => {
            "workspace-local sibling selection requires a workspace config"@
        },
        ExecutionError::SiblingUrl(_) => {
            "unable to convert local sibling repository path into a file URL"@
        },
        ExecutionError::NoTheme => {
            "the selected command requires a resolved workspace-local theme"@
        },
        ExecutionError::NoRuntimeTheme => "Zola runtime requires a workspace-local theme path"@,
    }
}

/// The names of siblings in a line.
pub fn format_sibling_ids(sibling_ids: &Vec<String>) -> (out: String)
    ensures
        out@ == text::joined(text::views(sibling_ids@), ", "@),
{
    text::join(sibling_ids, ", ")
}

impl ExecutionError {
    /// The message of the error.
    pub fn message(&self) -> (out: String)
        ensures
            out@ == execution_message(*self),
    {
        match self {
            ExecutionError::LifecycleFlags => {
                "execution override flags cannot be used with `init` or `doctor`".to_owned()
            },
            ExecutionError::PrintFlags => {
                "execution override flags cannot be used with `print`".to_owned()
            },
            ExecutionError::OnlyNotApplicable => {
                "--only is supported only for local dirty build and serve commands".to_owned()
            },
            ExecutionError::MissingThemeAndSiblings => text::wrap(
                "the selected command requires a workspace config with local theme and sibling sources, but no `",
                config::LOCAL_CONFIG_FILE,
                "` was found.\n\nRun:\n  build-eips init <workspace-root>\n\nThen retry from that workspace, or pass `--remote-siblings` if you intentionally want remote sibling proposal sources.",
            ),
            ExecutionError::MissingSiblingSources => text::wrap(
                "the selected command requires workspace-local sibling sources, but no `",
                config::LOCAL_CONFIG_FILE,
                "` was found to provide them.\nResolve this by doing one of the following:\n1. run `build-eips init <workspace-root>` so the workspace config supplies the local sources\n2. pass `--remote-siblings` for remote sibling source overrides",
            ),
            ExecutionError::MissingThemeConfig => text::wrap(
                "the selected command requires a workspace config with a local theme, but no `",
                config::LOCAL_CONFIG_FILE,
                "` was found.\n\nRun:\n  build-eips init <workspace-root>\n\nThen retry from that workspace.",
            ),
            ExecutionError::MissingTheme(theme) => text::wrap(
                "workspace-local theme path `",
                theme.as_str(),
                "` does not exist.\n\nRun `build-eips init <workspace-root>` to bootstrap the workspace, or\nclone/update the theme repository at the configured path.",
            ),
            ExecutionError::UnreadableTheme { path, cause } => {
                let mut tail = "`: ".to_owned();
                tail.append(cause.as_str());
                text::wrap(
                    "unable to access workspace-local theme path `",
                    path.as_str(),
                    tail.as_str(),
                )
            },
            ExecutionError::MissingSiblings(missing) => {
                let mut out = "workspace-local sibling selection requires all declared sibling repos; missing or invalid sibling repo(s): ".to_owned();
                let names = format_sibling_ids(missing);
                out.append(names.as_str());
                out
            },
            ExecutionError::NoWorkspaceForSiblings => {
                "workspace-local sibling selection requires a workspace config".to_owned()
            },
            ExecutionError::SiblingUrl(_) => {
                "unable to convert local sibling repository path into a file URL".to_owned()
            },
            ExecutionError::NoTheme => {
                "the selected command requires a resolved workspace-local theme".to_owned()
            },
            ExecutionError::NoRuntimeTheme => {
                "Zola runtime requires a workspace-local theme path".to_owned()
            },
        }
    }
}

/// Whether flags for execution are given.
pub open spec fn overrides_execution(args: Args) -> bool {
    args.remote_siblings || args.build_root is Some
}

/// Whether flags for execution are given.
pub fn has_execution_override_flags(args: &Args) -> (yes: bool)
    ensures
        yes == overrides_execution(*args),
{
    args.remote_siblings || args.build_root.is_some()
}

/// Whether the flags go with the command: flags for execution need one that executes something.
pub open spec fn flags_fit(args: Args) -> bool {
    overrides_execution(args) ==> !args.operation.manages_workspace() && !(args.operation is Print)
}

/// What is wrong with flags for execution.
pub open spec fn misplaced_flags(args: Args) -> ExecutionError {
    if args.operation.manages_workspace() {
        ExecutionError::LifecycleFlags
    } else {
        ExecutionError::PrintFlags
    }
}

/// Rejects flags for execution with commands that execute nothing.
pub fn validate_non_execution_command_flags(args: &Args) -> (out: Result<(), ExecutionError>)
    ensures
        match out {
            Ok(_) => flags_fit(*args),
            Err(error) => !flags_fit(*args) && error == misplaced_flags(*args),
        },
{
    if args.operation.is_workspace_lifecycle_command() && has_execution_override_flags(args) {
        return Err(ExecutionError::LifecycleFlags);
    }
    if args.operation.is_print_command() && has_execution_override_flags(args) {
        return Err(ExecutionError::PrintFlags);
    }
    Ok(())
}

/// The source of siblings that the command line asks for.
pub fn remote_source_override(force_remote: bool) -> (out: Option<SelectedSource>)
    ensures
        out == (if force_remote {
            Some(SelectedSource::Remote)
        } else {
            None
        }),
{
    if force_remote {
        Some(SelectedSource::Remote)
    } else {
        None
    }
}

/// Whether the command line selects proposals.
pub fn cli_only_requested(args: &Args) -> (yes: bool)
    ensures
        yes == (args.operation.selected().len() > 0),
{
    match args.operation.only_cli_args() {
        Some(numbers) => {
            assert(only::values(numbers@).len() == numbers@.len());
            numbers.len() > 0
        },
        None => false,
    }
}

/// Whether a selection on the command line applies: to local builds with changes.
pub open spec fn only_applies(args: Args) -> bool {
    (args.operation is Build || args.operation is Serve) && !args.clean && !args.remote_siblings
}

/// Whether a selection on the command line applies.
pub fn only_cli_is_applicable(args: &Args) -> (yes: bool)
    ensures
        yes == only_applies(*args),
{
    matches!(args.operation, Operation::Build { .. } | Operation::Serve { .. }) && !args.clean
        && !args.remote_siblings
}

/// Whether the command needs a theme.
pub open spec fn needs_theme(operation: Operation) -> bool {
    operation.makes_site() || operation is Editorial
}

/// Whether the command needs a theme.
pub fn operation_requires_theme(operation: &Operation) -> (yes: bool)
    ensures
        yes == needs_theme(*operation),
{
    matches!(
        operation,
        Operation::Build { .. } | Operation::Serve { .. } | Operation::Check | Operation::Editorial {
            ..
        }
    )
}

/// Where siblings come from: where the manifest says, unless a command that works on the site or on
/// proposals takes them from the workspace.
pub open spec fn sibling_source(args: Args) -> SelectedSource {
    if args.remote_siblings || !(args.operation.makes_site() || args.operation is Editorial) {
        SelectedSource::Remote
    } else {
        SelectedSource::WorkspaceLocal
    }
}

/// Whether changes of the active repository are built.
pub open spec fn builds_changes(args: Args) -> bool {
    (args.operation.makes_site() || args.operation is Editorial) && !args.clean
}

/// What a run decides about its sources. The build root is the given one, already resolved.
pub fn resolve_execution_settings(
    args: &Args,
    build_root: Option<String>,
    sibling_ids: &Vec<String>,
    has_workspace: bool,
) -> (out: Result<ExecutionSettings, ExecutionError>)
    ensures
        ({
            let rejected = args.operation.selected().len() > 0 && !only_applies(*args);
            let no_siblings = sibling_source(*args) == SelectedSource::WorkspaceLocal
                && sibling_ids@.len() > 0 && !has_workspace;
            match out {
                Ok(settings) => !rejected && !no_siblings && settings.build_root == build_root
                    && settings.allow_dirty == builds_changes(*args) && settings.sibling
                    == sibling_source(*args),
                Err(error) => if rejected {
                    error == ExecutionError::OnlyNotApplicable
                } else {
                    no_siblings && error == (if needs_theme(args.operation) {
                        ExecutionError::MissingThemeAndSiblings
                    } else {
                        ExecutionError::MissingSiblingSources
                    })
                },
            }
        }),
{
    let sibling_override = remote_source_override(args.remote_siblings);
    if cli_only_requested(args) && !only_cli_is_applicable(args) {
        return Err(ExecutionError::OnlyNotApplicable);
    }
    let local_first = args.operation.is_plain_site_command()
        || args.operation.is_editorial_command();
    let allow_dirty = local_first && !args.clean;
    let sibling = match sibling_override {
        Some(source) => source,
        None => if local_first {
            SelectedSource::WorkspaceLocal
        } else {
            SelectedSource::Remote
        },
    };
    let missing_theme = operation_requires_theme(&args.operation) && !has_workspace;
    let missing_sibling = sibling == SelectedSource::WorkspaceLocal && sibling_ids.len() > 0
        && !has_workspace;
    if missing_sibling {
        if missing_theme {
            return Err(ExecutionError::MissingThemeAndSiblings);
        }
        return Err(ExecutionError::MissingSiblingSources);
    }
    Ok(ExecutionSettings { build_root, allow_dirty, sibling })
}

/// Whether numbers ascend.
pub open spec fn numbers_ascend(list: Seq<u32>) -> bool {
    forall|i: int, j: int| 0 <= i < j < list.len() ==> #[trigger] list[i] < #[trigger] list[j]
}

/// Whether two lists have the same numbers.
pub open spec fn same_numbers(a: Seq<u32>, b: Seq<u32>) -> bool {
    forall|n: u32| #[trigger] a.contains(n) <==> b.contains(n)
}

/// Puts a number into its place, unless it is there.
fn insert_number(list: &mut Vec<ProposalNumber>, number: ProposalNumber)
    requires
        numbers_ascend(only::values(old(list)@)),
    ensures
        numbers_ascend(only::values(final(list)@)),
        forall|n: u32| #[trigger]
            only::values(final(list)@).contains(n) <==> only::values(old(list)@).contains(n) || n
                == number.value(),
{
    let ghost before = only::values(list@);
    let wanted = number.get();
    let mut at: usize = 0;
    while at < list.len() && list[at].get() < wanted
        invariant
            at <= list@.len(),
            before == only::values(list@),
            wanted == number.value(),
            forall|i: int| 0 <= i < at ==> #[trigger] before[i] < wanted,
        decreases list.len() - at,
    {
        assert(before[at as int] == list@[at as int].value());
        at += 1;
    }
    if at < list.len() && list[at].get() == wanted {
        assert(before[at as int] == wanted);
        return ;
    }
    proof {
        if at < list@.len() {
            assert(before[at as int] == list@[at as int].value());
        }
    }
    list.insert(at, number);
    proof {
        let after = only::values(list@);
        assert(after =~= before.insert(at as int, wanted));
        assert forall|i: int, j: int| 0 <= i < j < after.len() implies #[trigger] after[i]
            < #[trigger] after[j] by {
            let left = if i < at {
                i
            } else {
                i - 1
            };
            let right = if j < at {
                j
            } else {
                j - 1
            };
            if i == at {
                assert(after[j] == before[right]);
                if right > at {
                    assert(before[at as int] < before[right]);
                }
            } else if j == at {
                assert(after[i] == before[left]);
            } else {
                assert(after[i] == before[left] && after[j] == before[right]);
            }
        }
        assert forall|n: u32| #[trigger] after.contains(n) <==> before.contains(n) || n == wanted by {
            if before.contains(n) {
                let i = choose|i: int| 0 <= i < before.len() && before[i] == n;
                assert(after[if i < at {
                    i
                } else {
                    i + 1
                }] == n);
            }
            if n == wanted {
                assert(after[at as int] == n);
            }
            if after.contains(n) {
                let i = choose|i: int| 0 <= i < after.len() && after[i] == n;
                if i < at {
                    assert(before[i] == n);
                } else if i > at {
                    assert(before[i - 1] == n);
                }
            }
        }
    }
}

/// The numbers in order, each once; none where there are none.
pub fn dedupe_only_numbers(numbers: &Vec<ProposalNumber>) -> (out: Option<Vec<ProposalNumber>>)
    ensures
        match out {
            Some(list) => numbers@.len() > 0 && list@.len() > 0 && numbers_ascend(
                only::values(list@),
            ) && same_numbers(only::values(list@), only::values(numbers@)),
            None => numbers@.len() == 0,
        },
{
    let ghost all = only::values(numbers@);
    let mut list: Vec<ProposalNumber> = Vec::new();
    let mut i: usize = 0;
    while i < numbers.len()
        invariant
            i <= numbers@.len(),
            all == only::values(numbers@),
            numbers_ascend(only::values(list@)),
            forall|n: u32| #[trigger]
                only::values(list@).contains(n) <==> all.take(i as int).contains(n),
        decreases numbers.len() - i,
    {
        let ghost before = only::values(list@);
        insert_number(&mut list, numbers[i]);
        proof {
            let next = all.take(i + 1);
            assert(next =~= all.take(i as int).push(all[i as int]));
            assert forall|n: u32| #[trigger] only::values(list@).contains(n) <==> next.contains(n) by {
                if all.take(i as int).contains(n) {
                    let k = choose|k: int|
                        0 <= k < all.take(i as int).len() && all.take(i as int)[k] == n;
                    assert(next[k] == n);
                }
                if n == all[i as int] {
                    assert(next[i as int] == n);
                }
                if next.contains(n) {
                    let k = choose|k: int| 0 <= k < next.len() && next[k] == n;
                    if k < i {
                        assert(all.take(i as int)[k] == n);
                    }
                }
            }
        }
        i += 1;
    }
    assert(all.take(i as int) =~= all);
    if list.len() == 0 {
        proof {
            if numbers@.len() > 0 {
                assert(all.contains(all[0]));
                assert(only::values(list@).contains(all[0]));
            }
        }
        None
    } else {
        proof {
            let n = only::values(list@)[0];
            assert(only::values(list@).contains(n));
            assert(all.contains(n));
        }
        Some(list)
    }
}

/// The numbers that a run renders, before they are put in order: those of the command line, else
/// those of the workspace where a selection applies.
pub open spec fn chosen_numbers(
    args: Args,
    settings: ExecutionSettings,
    workspace: Option<&LoadedWorkspaceConfig>,
) -> Result<Seq<u32>, ExecutionError> {
    let applies = (args.operation is Build || args.operation is Serve) && settings.allow_dirty
        && settings.sibling == SelectedSource::WorkspaceLocal;
    if args.operation.selected().len() > 0 {
        if applies {
            Ok(args.operation.selected())
        } else {
            Err(ExecutionError::OnlyNotApplicable)
        }
    } else if applies {
        match workspace {
            Some(workspace) => Ok(only::values(workspace.settings().render.only@)),
            None => Ok(Seq::empty()),
        }
    } else {
        Ok(Seq::empty())
    }
}

/// The numbers that a run renders, in order and each once; none where all are rendered.
pub fn resolve_only_selection(
    args: &Args,
    settings: &ExecutionSettings,
    workspace_config: Option<&LoadedWorkspaceConfig>,
) -> (out: Result<Option<Vec<ProposalNumber>>, ExecutionError>)
    ensures
        match chosen_numbers(*args, *settings, workspace_config) {
            Err(error) => out == Err::<Option<Vec<ProposalNumber>>, ExecutionError>(error),
            Ok(numbers) => match out {
                Ok(Some(list)) => numbers.len() > 0 && list@.len() > 0 && numbers_ascend(
                    only::values(list@),
                ) && same_numbers(only::values(list@), numbers),
                Ok(None) => numbers.len() == 0,
                Err(_) => false,
            },
        },
{
    let applicable = matches!(args.operation, Operation::Build { .. } | Operation::Serve { .. })
        && settings.allow_dirty && settings.sibling == SelectedSource::WorkspaceLocal;
    if let Some(numbers) = args.operation.only_cli_args() {
        assert(only::values(numbers@).len() == numbers@.len());
        if let Some(list) = dedupe_only_numbers(numbers) {
            if !applicable {
                return Err(ExecutionError::OnlyNotApplicable);
            }
            return Ok(Some(list));
        }
    }
    if !applicable {
        return Ok(None);
    }
    match workspace_config {
        Some(workspace) => {
            let numbers = &workspace.render_settings().only;
            assert(only::values(numbers@).len() == numbers@.len());
            Ok(dedupe_only_numbers(numbers))
        },
        None => Ok(None),
    }
}

/// Where a run prepares and builds: at the given place, else in the workspace, else in the
/// repository.
pub open spec fn build_path_of(
    root: Seq<char>,
    title: Seq<char>,
    workspace: Option<&LoadedWorkspaceConfig>,
    build_root: Option<Seq<char>>,
) -> Seq<char> {
    match (build_root, workspace) {
        (Some(given), _) => given,
        (None, Some(workspace)) => path::path_joined(
            path::path_joined(workspace.root(), config::DEFAULT_BUILD_ROOT_BASE@),
            title,
        ),
        (None, None) => path::path_joined(root, BUILD_DIR@),
    }
}

/// Where a run prepares and builds.
pub fn build_path(
    root_path: &str,
    title: &str,
    workspace_config: Option<&LoadedWorkspaceConfig>,
    build_root: &Option<String>,
) -> (out: String)
    ensures
        out@ == build_path_of(root_path@, title@, workspace_config, text::optional(*build_root)),
{
    match build_root {
        Some(given) => given.clone(),
        None => match workspace_config {
            Some(workspace) => workspace.workspace_build_root(title),
            None => path::join(root_path, BUILD_DIR),
        },
    }
}

/// What stands at the path of the theme.
#[derive(Debug, Clone, PartialEq, Eq)]
pub enum ThemeProbe {
    Present,
    Missing,
    Unreadable(String),
}

/// The path of the theme that a command uses.
pub open spec fn theme_for(
    workspace: Option<&LoadedWorkspaceConfig>,
    operation: Operation,
) -> Result<Option<Seq<char>>, ExecutionError> {
    if !needs_theme(operation) {
        Ok(None)
    } else {
        match workspace {
            None => Err(ExecutionError::MissingThemeConfig),
            Some(workspace) => Ok(
                Some(path::path_joined(workspace.root(), config::DEFAULT_THEME_DIR@)),
            ),
        }
    }
}

/// The theme that a command uses, given what stands at its path.
pub fn resolve_theme_path(
    workspace_config: Option<&LoadedWorkspaceConfig>,
    operation: &Operation,
    probe: &ThemeProbe,
) -> (out: Result<Option<String>, ExecutionError>)
    ensures
        match theme_for(workspace_config, *operation) {
            Ok(None) => out == Ok::<Option<String>, ExecutionError>(None),
            Err(error) => out == Err::<Option<String>, ExecutionError>(error),
            Ok(Some(theme)) => match *probe {
                ThemeProbe::Present => out matches Ok(Some(found)) && found@ == theme,
                ThemeProbe::Missing => out matches Err(ExecutionError::MissingTheme(found))
                    && found@ == theme,
                ThemeProbe::Unreadable(why) => out matches Err(
                    ExecutionError::UnreadableTheme { path, cause },
                ) && path@ == theme && cause@ == why@,
            },
        },
{
    if !operation_requires_theme(operation) {
        return Ok(None);
    }
    let workspace = match workspace_config {
        Some(workspace) => workspace,
        None => return Err(ExecutionError::MissingThemeConfig),
    };
    let theme_path = workspace.local_theme_path();
    match probe {
        ThemeProbe::Present => Ok(Some(theme_path)),
        ThemeProbe::Missing => Err(ExecutionError::MissingTheme(theme_path)),
        ThemeProbe::Unreadable(cause) => Err(
            ExecutionError::UnreadableTheme { path: theme_path, cause: cause.clone() },
        ),
    }
}

/// The interface that a server binds to.
pub open spec fn interface_for(
    workspace: Option<&LoadedWorkspaceConfig>,
    cli: Option<&ServerCliArgs>,
) -> Seq<char> {
    match (cli, workspace) {
        (Some(ServerCliArgs { interface: Some(interface), .. }), _) => interface@,
        (_, Some(workspace)) => workspace.settings().server.interface@,
        (_, None) => config::DEFAULT_SERVER_INTERFACE@,
    }
}

/// The port that a server binds to.
pub open spec fn port_for(
    workspace: Option<&LoadedWorkspaceConfig>,
    cli: Option<&ServerCliArgs>,
) -> u16 {
    match (cli, workspace) {
        (Some(ServerCliArgs { port: Some(port), .. }), _) => *port,
        (_, Some(workspace)) => workspace.settings().server.port,
        (_, None) => config::DEFAULT_SERVER_PORT,
    }
}

/// The address that a server binds to: each part from the command line, else from the workspace,
/// else the default.
pub fn resolve_server_binding(
    workspace_config: Option<&LoadedWorkspaceConfig>,
    server_cli: Option<&ServerCliArgs>,
) -> (out: ServerBinding)
    ensures
        out.interface@ == interface_for(workspace_config, server_cli),
        out.port == port_for(workspace_config, server_cli),
{
    let mut binding = match workspace_config {
        Some(workspace) => ServerBinding::from_settings(workspace.server_settings()),
        None => ServerBinding::from_settings(&ServerSettings::new()),
    };
    if let Some(cli) = server_cli {
        if let Some(interface) = &cli.interface {
            binding.interface = interface.clone();
        }
        if let Some(port) = cli.port {
            binding.port = port;
        }
    }
    binding
}

/// The base URL that replaces the manifest's: that of the command line, else that of the workspace.
pub open spec fn base_url_for(args: Args, workspace: Option<&LoadedWorkspaceConfig>) -> Option<
    Seq<char>,
> {
    match args.operation.given_base_url() {
        Some(url) => Some(url),
        None => match workspace {
            Some(workspace) => text::optional(workspace.settings().site.base_url),
            None => None,
        },
    }
}

/// The base URL that replaces the manifest's.
pub fn resolve_base_url_override(
    args: &Args,
    workspace_config: Option<&LoadedWorkspaceConfig>,
) -> (out: Option<String>)
    ensures
        text::optional(out) == base_url_for(*args, workspace_config),
{
    if let Some(url) = args.operation.base_url_cli_args() {
        return Some(url);
    }
    match workspace_config {
        Some(workspace) => match &workspace.site_settings().base_url {
            Some(url) => Some(url.clone()),
            None => None,
        },
        None => None,
    }
}

/// Whether the active repository must have no changes.
pub open spec fn demands_clean(args: Args) -> bool {
    args.clean || args.operation is Changed
}

/// Whether the active repository must have no changes.
pub fn clean_active_source_requested(args: &Args) -> (yes: bool)
    ensures
        yes == demands_clean(*args),
{
    args.clean || matches!(args.operation, Operation::Changed { .. })
}

/// What a run says of an active repository with changes where it must have none.
pub const CLEAN_SOURCE_MESSAGE: &'static str =
    "clean active-source mode requires a clean active checkout";

/// Rejects an active repository with changes where the run must have one without.
pub fn check_active_source(args: &Args, entries: &Vec<StatusEntry>) -> (out: Result<
    (),
    crate::git::Error,
>)
    ensures
        match out {
            Ok(_) => demands_clean(*args) ==> status::is_clean(entries@),
            Err(error) => demands_clean(*args) && !status::is_clean(entries@) && error@
                == status::rejection(entries@),
        },
{
    if clean_active_source_requested(args) {
        status::check_dirty(entries)
    } else {
        Ok(())
    }
}

/// The siblings that are not available, in their order.
pub open spec fn missing_siblings(ids: Seq<Seq<char>>, available: Seq<bool>) -> Seq<Seq<char>>
    decreases ids.len(),
{
    if ids.len() == 0 {
        Seq::empty()
    } else {
        let before = missing_siblings(ids.drop_last(), available);
        if available[ids.len() - 1] {
            before
        } else {
            before.push(ids.last())
        }
    }
}

/// The repositories with each sibling taken from the workspace.
pub open spec fn localized(
    repos: Map<Seq<char>, Seq<char>>,
    ids: Seq<Seq<char>>,
    workspace_root: Seq<char>,
) -> Map<Seq<char>, Seq<char>>
    decreases ids.len(),
{
    if ids.len() == 0 {
        repos
    } else {
        localized(repos, ids.drop_last(), workspace_root).insert(
            ids.last(),
            urls::directory_url_of(path::path_joined(workspace_root, ids.last()))->0,
        )
    }
}

/// The first of the available siblings whose path in the workspace has no URL.
pub open spec fn sibling_without_url(
    ids: Seq<Seq<char>>,
    available: Seq<bool>,
    workspace_root: Seq<char>,
) -> Option<Seq<char>>
    decreases ids.len(),
{
    if ids.len() == 0 {
        None
    } else {
        match sibling_without_url(ids.drop_last(), available, workspace_root) {
            Some(at) => Some(at),
            None => {
                let at = path::path_joined(workspace_root, ids.last());
                if available[ids.len() - 1] && urls::directory_url_of(at) is None {
                    Some(at)
                } else {
                    None
                }
            },
        }
    }
}

proof fn sibling_without_url_stays(
    ids: Seq<Seq<char>>,
    available: Seq<bool>,
    workspace_root: Seq<char>,
    n: int,
)
    requires
        0 <= n <= ids.len(),
        sibling_without_url(ids.take(n), available, workspace_root) is Some,
    ensures
        sibling_without_url(ids, available, workspace_root) == sibling_without_url(
            ids.take(n),
            available,
            workspace_root,
        ),
    decreases ids.len() - n,
{
    if n == ids.len() {
        assert(ids.take(n) =~= ids);
    } else {
        assert(ids.drop_last().take(n) =~= ids.take(n));
        sibling_without_url_stays(ids.drop_last(), available, workspace_root, n);
    }
}

/// The repositories of a build, with its siblings where they are to come from. Whether a repository
/// stands in the workspace is given for each sibling. An available sibling without a URL comes before
/// those that are missing.
pub fn apply_sibling_sources(
    other_repos: Table<String>,
    sibling_ids: &Vec<String>,
    workspace_config: Option<&LoadedWorkspaceConfig>,
    available: &Vec<bool>,
    sibling: SelectedSource,
) -> (out: Result<Table<String>, ExecutionError>)
    requires
        other_repos.wf(),
        available@.len() == sibling_ids@.len(),
    ensures
        if sibling == SelectedSource::Remote || sibling_ids@.len() == 0 {
            out matches Ok(repos) && repos == other_repos
        } else {
            match workspace_config {
                None => out == Err::<Table<String>, ExecutionError>(
                    ExecutionError::NoWorkspaceForSiblings,
                ),
                Some(workspace) => {
                    let missing = missing_siblings(text::views(sibling_ids@), available@);
                    match sibling_without_url(
                        text::views(sibling_ids@),
                        available@,
                        workspace.root(),
                    ) {
                        Some(at) => out matches Err(ExecutionError::SiblingUrl(found)) && found@
                            == at,
                        None => if missing.len() > 0 {
                            out matches Err(ExecutionError::MissingSiblings(found)) && text::views(
                                found@,
                            ) == missing
                        } else {
                            out matches Ok(repos) && repos.wf() && repos.map() == localized(
                                other_repos.map(),
                                text::views(sibling_ids@),
                                workspace.root(),
                            )
                        },
                    }
                },
            }
        },
{
    if matches!(sibling, SelectedSource::Remote) || sibling_ids.len() == 0 {
        return Ok(other_repos);
    }
    let workspace = match workspace_config {
        Some(workspace) => workspace,
        None => return Err(ExecutionError::NoWorkspaceForSiblings),
    };
    let ghost all = text::views(sibling_ids@);
    let ghost start = other_repos.map();
    let mut repos = other_repos;
    let mut missing: Vec<String> = Vec::new();
    let mut i: usize = 0;
    assert(all.take(0) =~= Seq::empty());
    assert(text::views(missing@) =~= Seq::empty());
    while i < sibling_ids.len()
        invariant
            i <= sibling_ids@.len(),
            available@.len() == sibling_ids@.len(),
            all == text::views(sibling_ids@),
            workspace_config == Some(workspace),
            sibling != SelectedSource::Remote,
            sibling_ids@.len() > 0,
            start == other_repos.map(),
            repos.wf(),
            text::views(missing@) == missing_siblings(all.take(i as int), available@),
            missing@.len() == 0 ==> repos.map() == localized(
                start,
                all.take(i as int),
                workspace.root(),
            ),
            sibling_without_url(all.take(i as int), available@, workspace.root()) is None,
        decreases sibling_ids.len() - i,
    {
        let ghost before = missing@;
        proof {
            assert(all.take(i + 1).drop_last() =~= all.take(i as int));
            assert(all.take(i + 1).last() == sibling_ids@[i as int]@);
            assert(text::views(before).len() == before.len());
        }
        let local = workspace.local_repo_path(sibling_ids[i].as_str());
        if available[i] {
            match urls::directory_url(local.as_str()) {
                Some(url) => repos.insert(sibling_ids[i].clone(), url),
                None => {
                    proof {
                        sibling_without_url_stays(all, available@, workspace.root(), i + 1);
                    }
                    return Err(ExecutionError::SiblingUrl(local));
                },
            }
        } else {
            let id = sibling_ids[i].clone();
            assert(text::views(before.push(id)) =~= text::views(before).push(id@));
            missing.push(id);
        }
        i += 1;
    }
    assert(all.take(i as int) =~= all);
    assert(text::views(missing@).len() == missing@.len());
    if missing.len() > 0 {
        return Err(ExecutionError::MissingSiblings(missing));
    }
    Ok(repos)
}

/// All that a run needs to know.
#[derive(Debug, Clone)]
pub struct ResolvedExecution {
    pub root_path: String,
    pub build_path: String,
    pub repository_use: RepositoryUse,
    pub theme_path: Option<String>,
    pub only: Option<Vec<ProposalNumber>>,
    pub source_materialization: SourceMaterialization,
    pub server_binding: ServerBinding,
    pub base_url_override: Option<String>,
}

impl ResolvedExecution {
    /// The theme, where there is one.
    pub fn theme_path(&self) -> (out: Result<&str, ExecutionError>)
        ensures
            match self.theme_path {
                Some(theme) => out matches Ok(found) && found@ == theme@,
                None => out == Err::<&str, ExecutionError>(ExecutionError::NoTheme),
            },
    {
        match &self.theme_path {
            Some(theme) => Ok(theme.as_str()),
            None => Err(ExecutionError::NoTheme),
        }
    }
}

/// The facts that a run is resolved from.
pub struct ExecutionFacts<'a> {
    /// The root of the active repository.
    pub root_path: &'a str,
    /// The build root of the command line, seen from the current directory.
    pub build_root: Option<String>,
    /// The names of the siblings.
    pub sibling_ids: &'a Vec<String>,
    /// Whether each sibling is a repository of the workspace.
    pub available: &'a Vec<bool>,
    pub workspace: Option<&'a LoadedWorkspaceConfig>,
    pub theme: &'a ThemeProbe,
}

/// What an error stands for.
pub enum ExecutionFault {
    LifecycleFlags,
    PrintFlags,
    OnlyNotApplicable,
    MissingThemeAndSiblings,
    MissingSiblingSources,
    MissingThemeConfig,
    MissingTheme(Seq<char>),
    UnreadableTheme { path: Seq<char>, cause: Seq<char> },
    MissingSiblings(Seq<Seq<char>>),
    NoWorkspaceForSiblings,
    SiblingUrl(Seq<char>),
    NoTheme,
    NoRuntimeTheme,
}

impl View for ExecutionError {
    type V = ExecutionFault;

    open spec fn view(&self) -> ExecutionFault {
        match self {
            ExecutionError::LifecycleFlags => ExecutionFault::LifecycleFlags,
            ExecutionError::PrintFlags => ExecutionFault::PrintFlags,
            ExecutionError::OnlyNotApplicable => ExecutionFault::OnlyNotApplicable,
            ExecutionError::MissingThemeAndSiblings => ExecutionFault::MissingThemeAndSiblings,
            ExecutionError::MissingSiblingSources => ExecutionFault::MissingSiblingSources,
            ExecutionError::MissingThemeConfig => ExecutionFault::MissingThemeConfig,
            ExecutionError::MissingTheme(path) => ExecutionFault::MissingTheme(path@),
            ExecutionError::UnreadableTheme { path, cause } => ExecutionFault::UnreadableTheme {
                path: path@,
                cause: cause@,
            },
            ExecutionError::MissingSiblings(ids) => ExecutionFault::MissingSiblings(
                text::views(ids@),
            ),
            ExecutionError::NoWorkspaceForSiblings => ExecutionFault::NoWorkspaceForSiblings,
            ExecutionError::SiblingUrl(path) => ExecutionFault::SiblingUrl(path@),
            ExecutionError::NoTheme => ExecutionFault::NoTheme,
            ExecutionError::NoRuntimeTheme => ExecutionFault::NoRuntimeTheme,
        }
    }
}

/// What is wrong with a run, in the order in which it is looked for: a selection that does not
/// apply, no workspace for siblings, none for a theme, no theme there, siblings without a URL,
/// siblings not there.
pub open spec fn fault_in(args: Args, facts: ExecutionFacts) -> Option<ExecutionFault> {
    let ids = text::views(facts.sibling_ids@);
    let local = sibling_source(args) == SelectedSource::WorkspaceLocal && ids.len() > 0;
    let themed = needs_theme(args.operation);
    if args.operation.selected().len() > 0 && !only_applies(args) {
        Some(ExecutionFault::OnlyNotApplicable)
    } else {
        match facts.workspace {
            None => if local && themed {
                Some(ExecutionFault::MissingThemeAndSiblings)
            } else if local {
                Some(ExecutionFault::MissingSiblingSources)
            } else if themed {
                Some(ExecutionFault::MissingThemeConfig)
            } else {
                None
            },
            Some(workspace) => {
                let theme = path::path_joined(workspace.root(), config::DEFAULT_THEME_DIR@);
                let missing = missing_siblings(ids, facts.available@);
                match *facts.theme {
                    ThemeProbe::Missing if themed => Some(ExecutionFault::MissingTheme(theme)),
                    ThemeProbe::Unreadable(cause) if themed => Some(
                        ExecutionFault::UnreadableTheme { path: theme, cause: cause@ },
                    ),
                    _ => if local {
                        match sibling_without_url(ids, facts.available@, workspace.root()) {
                            Some(at) => Some(ExecutionFault::SiblingUrl(at)),
                            None => if missing.len() > 0 {
                                Some(ExecutionFault::MissingSiblings(missing))
                            } else {
                                None
                            },
                        }
                    } else {
                        None
                    },
                }
            },
        }
    }
}

/// What a run without a fault is given: its paths, its repositories with siblings from the workspace
/// where they are taken from there, the theme, whether changes are built, the base URL, the address
/// to serve at and the selected proposals.
pub open spec fn resolves(
    resolved: ResolvedExecution,
    args: Args,
    repository_use: RepositoryUse,
    facts: ExecutionFacts,
) -> bool {
    &&& resolved.root_path@ == facts.root_path@
    &&& resolved.build_path@ == build_path_of(
        facts.root_path@,
        repository_use.title@,
        facts.workspace,
        text::optional(facts.build_root),
    )
    &&& resolved.repository_use.title@ == repository_use.title@
    &&& resolved.repository_use.location@ == repository_use.location@
    &&& resolved.repository_use.other_repos.wf()
    &&& resolved.repository_use.other_repos.map() == (if sibling_source(args)
        == SelectedSource::Remote {
        repository_use.other_repos.map()
    } else {
        match facts.workspace {
            Some(workspace) => localized(
                repository_use.other_repos.map(),
                text::views(facts.sibling_ids@),
                workspace.root(),
            ),
            None => repository_use.other_repos.map(),
        }
    })
    &&& text::optional(resolved.theme_path) == (if needs_theme(args.operation) {
        Some(path::path_joined(facts.workspace->0.root(), config::DEFAULT_THEME_DIR@))
    } else {
        None
    })
    &&& (resolved.source_materialization == SourceMaterialization::Dirty
        <==> builds_changes(args))
    &&& text::optional(resolved.base_url_override) == base_url_for(args, facts.workspace)
    &&& resolved.server_binding.interface@ == interface_for(
        facts.workspace,
        args.operation.given_server(),
    )
    &&& resolved.server_binding.port == port_for(
        facts.workspace,
        args.operation.given_server(),
    )
    &&& match resolved.only {
        Some(list) => list@.len() > 0 && numbers_ascend(only::values(list@)) && (
        if args.operation.selected().len() > 0 {
            same_numbers(only::values(list@), args.operation.selected())
        } else {
            facts.workspace is Some && same_numbers(
                only::values(list@),
                only::values(facts.workspace->0.settings().render.only@),
            )
        }) && only_applies(args),
        None => args.operation.selected().len() == 0 && (only_applies(args)
            && facts.workspace is Some ==> facts.workspace->0.settings().render.only@.len()
            == 0),
    }
}

/// All that a run needs to know.
pub fn resolve_execution(
    args: &Args,
    repository_use: RepositoryUse,
    facts: ExecutionFacts,
) -> (out: Result<ResolvedExecution, ExecutionError>)
    requires
        repository_use.other_repos.wf(),
        facts.available@.len() == facts.sibling_ids@.len(),
    ensures
        match out {
            Ok(resolved) => fault_in(*args, facts) is None && resolves(
                resolved,
                *args,
                repository_use,
                facts,
            ),
            Err(error) => fault_in(*args, facts) == Some(error@),
        },
{
    let settings = match resolve_execution_settings(
        args,
        facts.build_root,
        facts.sibling_ids,
        facts.workspace.is_some(),
    ) {
        Ok(settings) => settings,
        Err(error) => return Err(error),
    };
    let only = match resolve_only_selection(args, &settings, facts.workspace) {
        Ok(only) => only,
        Err(error) => return Err(error),
    };
    let theme_path = match resolve_theme_path(facts.workspace, &args.operation, facts.theme) {
        Ok(theme_path) => theme_path,
        Err(error) => return Err(error),
    };
    let other_repos = match apply_sibling_sources(
        repository_use.other_repos,
        facts.sibling_ids,
        facts.workspace,
        facts.available,
        settings.sibling,
    ) {
        Ok(other_repos) => other_repos,
        Err(error) => return Err(error),
    };
    let build_path = build_path(
        facts.root_path,
        repository_use.title.as_str(),
        facts.workspace,
        &settings.build_root,
    );
    let source_materialization = if settings.allow_dirty {
        SourceMaterialization::Dirty
    } else {
        SourceMaterialization::Clean
    };
    Ok(
        ResolvedExecution {
            root_path: facts.root_path.to_owned(),
            build_path,
            repository_use: RepositoryUse {
                title: repository_use.title,
                location: repository_use.location,
                other_repos,
            },
            theme_path,
            only,
            source_materialization,
            server_binding: resolve_server_binding(
                facts.workspace,
                args.operation.server_cli_args(),
            ),
            base_url_override: resolve_base_url_override(args, facts.workspace),
        },
    )
}

/// Why a run cannot start from the active repository.
pub enum CheckoutError<E> {
    /// The repository has changes where the run demands one without.
    Dirty { message: String, cause: crate::git::Error },
    /// The manifest of the repository or the settings of the workspace could not be read.
    Unread(E),
    /// Something is wrong with the run itself.
    Execution(ExecutionError),
}

/// Whether a run is refused for the changes of the active repository.
pub open spec fn refuses_changes(args: Args, entries: Seq<StatusEntry>) -> bool {
    demands_clean(args) && !status::is_clean(entries)
}

/// All that a run needs to know, from an active repository with the given changes. Changes are
/// refused before anything that was read from the repository is looked at.
pub fn resolve_checkout<'a, E>(
    args: &Args,
    entries: &Vec<StatusEntry>,
    read: Result<(RepositoryUse, ExecutionFacts<'a>), E>,
) -> (out: Result<ResolvedExecution, CheckoutError<E>>)
    requires
        read matches Ok((repository_use, facts)) ==> repository_use.other_repos.wf()
            && facts.available@.len() == facts.sibling_ids@.len(),
    ensures
        match out {
            Ok(resolved) => !refuses_changes(*args, entries@) && match read {
                Ok((repository_use, facts)) => fault_in(*args, facts) is None && resolves(
                    resolved,
                    *args,
                    repository_use,
                    facts,
                ),
                Err(_) => false,
            },
            Err(CheckoutError::Dirty { message, cause }) => refuses_changes(*args, entries@)
                && message@ == CLEAN_SOURCE_MESSAGE@ && cause@ == status::rejection(entries@),
            Err(CheckoutError::Unread(error)) => !refuses_changes(*args, entries@) && read
                == Err::<(RepositoryUse, ExecutionFacts), E>(error),
            Err(CheckoutError::Execution(error)) => !refuses_changes(*args, entries@)
                && match read {
                Ok((_, facts)) => fault_in(*args, facts) == Some(error@),
                Err(_) => false,
            },
        },
{
    match check_active_source(args, entries) {
        Err(cause) => return Err(
            CheckoutError::Dirty { message: CLEAN_SOURCE_MESSAGE.to_owned(), cause },
        ),
        Ok(_) => {},
    }
    match read {
        Err(error) => Err(CheckoutError::Unread(error)),
        Ok((repository_use, facts)) => match resolve_execution(args, repository_use, facts) {
            Ok(resolved) => Ok(resolved),
            Err(error) => Err(CheckoutError::Execution(error)),
        },
    }
}

/// A run that demands a repository without changes never builds changes.
pub proof fn clean_runs_never_build_changes(args: Args)
    requires
        demands_clean(args),
    ensures
        !builds_changes(args),
{
}

/// Taking siblings from where the manifest says changes nothing else about the sources of a run:
/// neither whether changes are built or allowed, nor the theme, nor the base URL.
pub proof fn remote_siblings_only_change_siblings(
    args: Args,
    other: Args,
    workspace: Option<&LoadedWorkspaceConfig>,
)
    requires
        other == (Args { remote_siblings: other.remote_siblings, ..args }),
    ensures
        builds_changes(args) == builds_changes(other),
        demands_clean(args) == demands_clean(other),
        theme_for(workspace, args.operation) == theme_for(workspace, other.operation),
        base_url_for(args, workspace) == base_url_for(other, workspace),
{
}

/// Taking siblings from the workspace replaces the repositories of siblings alone.
pub proof fn localizing_keeps_other_repositories(
    repos: Map<Seq<char>, Seq<char>>,
    ids: Seq<Seq<char>>,
    workspace_root: Seq<char>,
    key: Seq<char>,
)
    requires
        !ids.contains(key),
    ensures
        localized(repos, ids, workspace_root).dom().contains(key) == repos.dom().contains(key),
        repos.dom().contains(key) ==> localized(repos, ids, workspace_root)[key] == repos[key],
    decreases ids.len(),
{
    if ids.len() > 0 {
        let before = ids.drop_last();
        assert(!before.contains(key)) by {
            if before.contains(key) {
                let k = choose|k: int| 0 <= k < before.len() && before[k] == key;
                assert(ids[k] == key);
            }
        }
        assert(ids[ids.len() - 1] != key);
        localizing_keeps_other_repositories(repos, before, workspace_root, key);
    }
}

/// With siblings from the workspace, each of them is the directory of its name there.
pub proof fn localized_siblings_stand_in_the_workspace(
    repos: Map<Seq<char>, Seq<char>>,
    ids: Seq<Seq<char>>,
    workspace_root: Seq<char>,
    i: int,
)
    requires
        0 <= i < ids.len(),
    ensures
        localized(repos, ids, workspace_root).dom().contains(ids[i]),
        localized(repos, ids, workspace_root)[ids[i]] == urls::directory_url_of(
            path::path_joined(workspace_root, ids[i]),
        )->0,
    decreases ids.len(),
{
    if i < ids.len() - 1 {
        let before = ids.drop_last();
        assert(before[i] == ids[i]);
        localized_siblings_stand_in_the_workspace(repos, before, workspace_root, i);
    }
}

/// The base URL that the command line gives to `build` or `serve` comes before every other; without
/// one, that of the workspace replaces the manifest's, whatever the command; and without either the
/// manifest's stays.
pub proof fn base_url_of_the_command_line_comes_first(
    resolved: ResolvedExecution,
    args: Args,
    repository_use: RepositoryUse,
    facts: ExecutionFacts,
)
    requires
        resolves(resolved, args, repository_use, facts),
    ensures
        args.operation matches Operation::Build { base_url: Some(url), .. } ==> (
        resolved.base_url_override matches Some(found) && found@ == url@),
        args.operation matches Operation::Serve { base_url: Some(url), .. } ==> (
        resolved.base_url_override matches Some(found) && found@ == url@),
        !(args.operation matches Operation::Build { base_url: Some(_), .. }) && !(
        args.operation matches Operation::Serve { base_url: Some(_), .. }) ==> (
        match facts.workspace {
            Some(workspace) => match workspace.settings().site.base_url {
                Some(url) => resolved.base_url_override matches Some(found) && found@ == url@,
                None => resolved.base_url_override is None,
            },
            None => resolved.base_url_override is None,
        }),
{
}

/// The port and the interface that the command line gives to `serve` or `preview` are bound to; each
/// that it does not give is that of the workspace, or else port 1111 and the local interface.
pub proof fn servers_bind_where_they_are_told(
    resolved: ResolvedExecution,
    args: Args,
    repository_use: RepositoryUse,
    facts: ExecutionFacts,
    server: ServerCliArgs,
)
    requires
        resolves(resolved, args, repository_use, facts),
        args.operation == (Operation::Preview { server }) || (
        args.operation matches Operation::Serve { server: given, .. } && given == server),
    ensures
        match server.port {
            Some(port) => resolved.server_binding.port == port,
            None => match facts.workspace {
                Some(workspace) => resolved.server_binding.port == workspace.settings().server.port,
                None => resolved.server_binding.port == 1111,
            },
        },
        match server.interface {
            Some(interface) => resolved.server_binding.interface@ == interface@,
            None => match facts.workspace {
                Some(workspace) => resolved.server_binding.interface@
                    == workspace.settings().server.interface@,
                None => resolved.server_binding.interface@ == "127.0.0.1"@,
            },
        },
{
}

/// A run builds at the given place; without one, below `.local-build` of the workspace in a directory
/// with the name of the repository; and without a workspace in `build` of the repository.
pub proof fn builds_have_their_place(
    resolved: ResolvedExecution,
    args: Args,
    repository_use: RepositoryUse,
    facts: ExecutionFacts,
)
    requires
        resolves(resolved, args, repository_use, facts),
    ensures
        resolved.root_path@ == facts.root_path@,
        match (facts.build_root, facts.workspace) {
            (Some(given), _) => resolved.build_path@ == given@,
            (None, Some(workspace)) => resolved.build_path@ == path::path_joined(
                path::path_joined(workspace.root(), ".local-build"@),
                repository_use.title@,
            ),
            (None, None) => resolved.build_path@ == path::path_joined(facts.root_path@, "build"@),
        },
{
}

/// Exactly the commands that make or check the site, and those that validate proposals, use the theme
/// of the workspace. They build the changes of the active repository unless a clean one is asked for,
/// and take siblings from the workspace unless remote ones are asked for. All others build the last
/// commit and leave the repositories as the manifest names them.
#[verifier::rlimit(60)]
pub proof fn commands_have_their_sources(
    resolved: ResolvedExecution,
    args: Args,
    repository_use: RepositoryUse,
    facts: ExecutionFacts,
    i: int,
)
    requires
        resolves(resolved, args, repository_use, facts),
        fault_in(args, facts) is None,
        0 <= i < facts.sibling_ids@.len(),
        forall|j: int|
            i < j < facts.sibling_ids@.len() ==> (#[trigger] facts.sibling_ids@[j])@
                != facts.sibling_ids@[i]@,
    ensures
        ({
            let local = args.operation is Build || args.operation is Serve || args.operation is Check
                || args.operation is Editorial;
            &&& local ==> facts.workspace is Some && (resolved.theme_path matches Some(theme)
                && theme@ == path::path_joined(facts.workspace->0.root(), "theme"@))
            &&& !local ==> resolved.theme_path is None
            &&& (resolved.source_materialization == SourceMaterialization::Dirty) <==> local
                && !args.clean
            &&& local && !args.remote_siblings ==> urls::directory_url_of(
                path::path_joined(facts.workspace->0.root(), facts.sibling_ids@[i]@),
            ) == Some(resolved.repository_use.other_repos.map()[facts.sibling_ids@[i]@])
            &&& !local || args.remote_siblings ==> resolved.repository_use.other_repos.map()
                == repository_use.other_repos.map()
        }),
{
    let ids = text::views(facts.sibling_ids@);
    if let Some(workspace) = facts.workspace {
        let local = args.operation is Build || args.operation is Serve || args.operation is Check
            || args.operation is Editorial;
        if local && !args.remote_siblings {
            assert forall|j: int| i < j < ids.len() implies #[trigger] ids[j] != ids[i] by {
                assert(ids[j] == facts.sibling_ids@[j]@);
            }
            last_localized_counts(
                repository_use.other_repos.map(),
                ids,
                facts.available@,
                workspace.root(),
                i,
            );
        }
    }
}

proof fn last_localized_counts(
    repos: Map<Seq<char>, Seq<char>>,
    ids: Seq<Seq<char>>,
    available: Seq<bool>,
    workspace_root: Seq<char>,
    i: int,
)
    requires
        0 <= i < ids.len(),
        forall|j: int| i < j < ids.len() ==> #[trigger] ids[j] != ids[i],
        missing_siblings(ids, available).len() == 0,
        sibling_without_url(ids, available, workspace_root) is None,
    ensures
        urls::directory_url_of(path::path_joined(workspace_root, ids[i])) == Some(
            localized(repos, ids, workspace_root)[ids[i]],
        ),
    decreases ids.len(),
{
    if i < ids.len() - 1 {
        assert(ids[ids.len() - 1] != ids[i]);
        let before = ids.drop_last();
        assert forall|j: int| i < j < before.len() implies #[trigger] before[j] != before[i] by {
            assert(before[j] == ids[j]);
        }
        last_localized_counts(repos, before, available, workspace_root, i);
    }
}

/// The numbers that the command line gives to `build` or `serve` are rendered, and where it gives
/// none, those of the workspace, in a build of the changes with siblings from the workspace; in every
/// other run all proposals are.
#[verifier::rlimit(60)]
pub proof fn selections_are_taken_from_the_nearest(
    resolved: ResolvedExecution,
    args: Args,
    repository_use: RepositoryUse,
    facts: ExecutionFacts,
)
    requires
        resolves(resolved, args, repository_use, facts),
        fault_in(args, facts) is None,
    ensures
        args.operation matches Operation::Build { only: given, .. } ==> (given@.len() > 0 ==> (
        resolved.only matches Some(list) && forall|n: u32| #[trigger]
            only::values(list@).contains(n) <==> only::values(given@).contains(n)) && !args.clean && !args.remote_siblings),
        args.operation matches Operation::Serve { only: given, .. } ==> (given@.len() > 0 ==> (
        resolved.only matches Some(list) && forall|n: u32| #[trigger]
            only::values(list@).contains(n) <==> only::values(given@).contains(n)) && !args.clean && !args.remote_siblings),
        args.operation.selected().len() == 0 && (args.operation is Build || args.operation is Serve)
            && !args.clean && !args.remote_siblings ==> (match facts.workspace {
            Some(workspace) => if workspace.settings().render.only@.len() > 0 {
                resolved.only matches Some(list) && forall|n: u32| #[trigger]
                    only::values(list@).contains(n) <==> only::values(
                        workspace.settings().render.only@,
                    ).contains(n)
            } else {
                resolved.only is None
            },
            None => resolved.only is None,
        }),
        args.clean || args.remote_siblings || !(args.operation is Build || args.operation is Serve)
            ==> resolved.only is None,
{
    if let Some(list) = resolved.only {
        if args.operation.selected().len() == 0 && facts.workspace is Some {
            let wanted = only::values(facts.workspace->0.settings().render.only@);
            assert(only::values(list@).contains(only::values(list@)[0]));
            assert(wanted.contains(only::values(list@)[0]));
        }
    }
}

/// A run that has what it needs has no fault: a workspace with a theme for the commands that make or
/// check the site or validate proposals, and every sibling in it with a URL unless remote ones are
/// asked for; the other commands need nothing.
pub proof fn runs_with_their_needs_have_no_fault(args: Args, facts: ExecutionFacts)
    requires
        facts.available@.len() == facts.sibling_ids@.len(),
        args.operation.selected().len() > 0 ==> !args.clean && !args.remote_siblings,
        args.operation is Build || args.operation is Serve || args.operation is Check
            || args.operation is Editorial ==> (facts.workspace matches Some(workspace)
            && *facts.theme is Present && (args.remote_siblings || forall|i: int|
            0 <= i < facts.sibling_ids@.len() ==> facts.available@[i] && urls::directory_url_of(
                path::path_joined(workspace.root(), (#[trigger] facts.sibling_ids@[i])@),
            ) is Some)),
    ensures
        fault_in(args, facts) is None,
{
    let ids = text::views(facts.sibling_ids@);
    let local = args.operation is Build || args.operation is Serve || args.operation is Check
        || args.operation is Editorial;
    if local && !args.remote_siblings {
        let root = facts.workspace->0.root();
        assert forall|i: int| 0 <= i < ids.len() implies facts.available@[i]
            && urls::directory_url_of(path::path_joined(root, #[trigger] ids[i])) is Some by {
            assert(ids[i] == facts.sibling_ids@[i]@);
        }
        available_siblings_are_complete(ids, facts.available@, root);
    }
}

proof fn available_siblings_are_complete(
    ids: Seq<Seq<char>>,
    available: Seq<bool>,
    workspace_root: Seq<char>,
)
    requires
        forall|i: int|
            0 <= i < ids.len() ==> available[i] && urls::directory_url_of(
                path::path_joined(workspace_root, #[trigger] ids[i]),
            ) is Some,
    ensures
        missing_siblings(ids, available).len() == 0,
        sibling_without_url(ids, available, workspace_root) is None,
    decreases ids.len(),
{
    if ids.len() > 0 {
        let before = ids.drop_last();
        assert forall|i: int| 0 <= i < before.len() implies available[i] && urls::directory_url_of(
            path::path_joined(workspace_root, #[trigger] before[i]),
        ) is Some by {
            assert(before[i] == ids[i]);
        }
        available_siblings_are_complete(before, available, workspace_root);
        assert(available[ids.len() - 1] && urls::directory_url_of(
            path::path_joined(workspace_root, ids[ids.len() - 1]),
        ) is Some);
    }
}

/// What a run needs and does not have is its fault: a selection is refused in a clean build and with
/// remote siblings; without a workspace, commands that make or check the site or validate proposals
/// are; so are they without a theme; and a sibling that is not in the workspace is named.
#[verifier::rlimit(60)]
pub proof fn missing_needs_are_faults(args: Args, facts: ExecutionFacts, i: int)
    requires
        facts.available@.len() == facts.sibling_ids@.len(),
    ensures
        ({
            let local = args.operation is Build || args.operation is Serve || args.operation is Check
                || args.operation is Editorial;
            let selected = args.operation.selected().len() > 0;
            &&& selected && (args.clean || args.remote_siblings) ==> fault_in(args, facts) == Some(
                ExecutionFault::OnlyNotApplicable,
            )
            &&& !selected && local && facts.workspace is None ==> fault_in(args, facts) == Some(
                if args.remote_siblings || facts.sibling_ids@.len() == 0 {
                    ExecutionFault::MissingThemeConfig
                } else {
                    ExecutionFault::MissingThemeAndSiblings
                },
            )
            &&& !selected && local && facts.workspace is Some && *facts.theme is Missing
                ==> fault_in(args, facts) == Some(
                ExecutionFault::MissingTheme(
                    path::path_joined(facts.workspace->0.root(), "theme"@),
                ),
            )
            &&& !selected && local && facts.workspace is Some ==> (*facts.theme matches
                ThemeProbe::Unreadable(cause) ==> fault_in(args, facts) == Some(
                ExecutionFault::UnreadableTheme {
                    path: path::path_joined(facts.workspace->0.root(), "theme"@),
                    cause: cause@,
                },
            ))
            &&& !selected && local && !args.remote_siblings && 0 <= i < facts.sibling_ids@.len()
                && !facts.available@[i] ==> fault_in(args, facts) is Some
            &&& !selected && local && !args.remote_siblings && facts.workspace is Some
                && *facts.theme is Present && 0 <= i < facts.sibling_ids@.len()
                && !facts.available@[i] && sibling_without_url(
                text::views(facts.sibling_ids@),
                facts.available@,
                facts.workspace->0.root(),
            ) is None ==> (fault_in(args, facts) matches Some(
                ExecutionFault::MissingSiblings(missing),
            ) && missing.contains(facts.sibling_ids@[i]@))
        }),
{
    let ids = text::views(facts.sibling_ids@);
    if 0 <= i < ids.len() && !facts.available@[i] {
        missing_siblings_are_named(ids, facts.available@, i);
    }
}

proof fn missing_siblings_are_named(ids: Seq<Seq<char>>, available: Seq<bool>, i: int)
    requires
        0 <= i < ids.len(),
        !available[i],
    ensures
        missing_siblings(ids, available).contains(ids[i]),
    decreases ids.len(),
{
    let all = missing_siblings(ids, available);
    if i == ids.len() - 1 {
        assert(all[all.len() - 1] == ids[i]);
    } else {
        missing_siblings_are_named(ids.drop_last(), available, i);
        let before = missing_siblings(ids.drop_last(), available);
        let k = choose|k: int| 0 <= k < before.len() && before[k] == ids[i];
        assert(all[k] == ids[i]);
    }
}

/// An active repository with changes is refused by every run that asks for a clean one and by
/// `changed`, and by no other; one without changes is never refused.
pub proof fn changes_are_refused_where_a_clean_source_is_asked_for(
    args: Args,
    entries: Seq<StatusEntry>,
)
    ensures
        refuses_changes(args, entries) <==> (args.clean || args.operation is Changed)
            && !status::is_clean(entries),
{
}

/// Flags for a build go with every command but those that set a workspace up, examine one or print
/// something.
pub proof fn build_flags_need_a_build(args: Args)
    ensures
        flags_fit(args) <==> !(args.operation is Init || args.operation is Doctor
            || args.operation is Print) || (args.build_root is None && !args.remote_siblings),
        args.operation is Init || args.operation is Doctor ==> misplaced_flags(args)
            == ExecutionError::LifecycleFlags,
        args.operation is Print ==> misplaced_flags(args) == ExecutionError::PrintFlags,
{
}

} // verus!
