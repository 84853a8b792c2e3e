//! The command line, as far as commands are decided by it.

use vstd::prelude::*;

use crate::only;
use crate::path;
use crate::proposal;
use crate::proposal::ProposalNumber;
use crate::text;

verus! {

/// The arguments of a run.
#[derive(Debug, Clone, PartialEq, Eq)]
pub struct Args {
    /// The base directory, where it is not to be found.
    pub root: Option<String>,
    /// Where to prepare and build, in place of the default.
    pub build_root: Option<String>,
    /// Whether sibling repositories are taken from where the manifest says.
    pub remote_siblings: bool,
    /// Whether the active repository must have no changes.
    pub clean: bool,
    pub operation: Operation,
}

/// What is to be done.
#[derive(Debug, Clone, PartialEq, Eq)]
pub enum Operation {
    /// Print various useful things, like available lints.
    Print,
    /// Build the project and output HTML.
    Build { only: Vec<ProposalNumber>, base_url: Option<String> },
    /// Build the project and launch a web server to preview it.
    Serve { only: Vec<ProposalNumber>, base_url: Option<String>, server: ServerCliArgs },
    /// Remove temporary and output files.
    Clean,
    /// Analyze the repository and report errors, but don't build HTML files.
    Check,
    /// List files changed since the last commit common to both the local and upstream repositories.
    Changed { all: bool, format: ChangedFormat },
    /// Create workspace config, docs, build root, and missing local repos.
    Init { path: String, template: bool, platform_dev: bool },
    /// Examine the workspace.
    Doctor,
    /// Serve what was built.
    Preview { server: ServerCliArgs },
    /// Validate proposals.
    Editorial { command: EditorialCommand },
}

/// How proposals are validated.
#[derive(Debug, Clone, PartialEq, Eq)]
pub enum EditorialCommand {
    Lint(EditorialSelectorArgs),
    Check(EditorialSelectorArgs),
}

/// Which proposals are validated.
#[derive(Debug, Clone, PartialEq, Eq)]
pub struct EditorialSelectorArgs {
    /// Numbers or paths.
    pub paths: Vec<EditorialSelector>,
    /// A file that lists them.
    pub batch: Option<String>,
    /// Those with changes.
    pub working_tree: bool,
    /// Those that differ from upstream.
    pub against_upstream: bool,
}

/// A selector of a proposal, as it was given.
#[derive(Debug, Clone, PartialEq, Eq)]
pub enum EditorialSelector {
    /// Valid text.
    Text(String),
    /// A path that is no valid text, in a form that can be shown.
    Opaque(String),
}

/// Where a local server is to bind, as far as the command line says.
#[derive(Debug, Clone, PartialEq, Eq)]
pub struct ServerCliArgs {
    pub interface: Option<String>,
    pub port: Option<u16>,
}

/// How changed files are listed.
#[derive(Debug, Clone, Copy, PartialEq, Eq, Structural)]
pub enum ChangedFormat {
    Newline,
    Nul,
    Json,
}

/// A path that has the separator in it.
#[derive(Debug, Clone, PartialEq, Eq)]
pub struct SeparatorError {
    pub path: String,
}

impl Operation {
    /// Whether the command sets a workspace up or examines it.
    pub open spec fn manages_workspace(&self) -> bool {
        self is Init || self is Doctor
    }

    /// Whether the command makes or checks the site.
    pub open spec fn makes_site(&self) -> bool {
        self is Build || self is Serve || self is Check
    }

    /// The numbers that the command line selects.
    pub open spec fn selected(&self) -> Seq<u32> {
        match *self {
            Operation::Build { only: numbers, .. } => only::values(numbers@),
            Operation::Serve { only: numbers, .. } => only::values(numbers@),
            _ => Seq::empty(),
        }
    }

    /// The base URL that the command line gives.
    pub open spec fn given_base_url(&self) -> Option<Seq<char>> {
        match *self {
            Operation::Build { base_url, .. } => text::optional(base_url),
            Operation::Serve { base_url, .. } => text::optional(base_url),
            _ => None,
        }
    }

    /// Where a local server is to bind, as far as the command line says.
    pub open spec fn given_server(&self) -> Option<&ServerCliArgs> {
        match self {
            Operation::Serve { server, .. } => Some(server),
            Operation::Preview { server } => Some(server),
            _ => None,
        }
    }

    /// Whether the command sets a workspace up or examines it.
    pub fn is_workspace_lifecycle_command(&self) -> (yes: bool)
        ensures
            yes == self.manages_workspace(),
    {
        matches!(self, Operation::Init { .. } | Operation::Doctor)
    }

    /// Whether the command prints something.
    pub fn is_print_command(&self) -> (yes: bool)
        ensures
            yes == (self is Print),
    {
        matches!(self, Operation::Print)
    }

    /// Whether the command makes or checks the site.
    pub fn is_plain_site_command(&self) -> (yes: bool)
        ensures
            yes == self.makes_site(),
    {
        matches!(self, Operation::Build { .. } | Operation::Serve { .. } | Operation::Check)
    }

    /// Whether the command validates proposals.
    pub fn is_editorial_command(&self) -> (yes: bool)
        ensures
            yes == (self is Editorial),
    {
        matches!(self, Operation::Editorial { .. })
    }

    /// The numbers that the command line selects.
    pub fn only_cli_args(&self) -> (out: Option<&Vec<ProposalNumber>>)
        ensures
            match out {
                Some(numbers) => only::values(numbers@) == self.selected() && (self is Build
                    || self is Serve),
                None => !(self is Build) && !(self is Serve),
            },
    {
        match self {
            Operation::Build { only, .. } => Some(only),
            Operation::Serve { only, .. } => Some(only),
            _ => None,
        }
    }

    /// The base URL that the command line gives.
    pub fn base_url_cli_args(&self) -> (out: Option<String>)
        ensures
            text::optional(out) == self.given_base_url(),
    {
        match self {
            Operation::Build { base_url: Some(url), .. } => Some(url.clone()),
            Operation::Serve { base_url: Some(url), .. } => Some(url.clone()),
            _ => None,
        }
    }

    /// Where a local server is to bind, as far as the command line says.
    pub fn server_cli_args(&self) -> (out: Option<&ServerCliArgs>)
        ensures
            out == self.given_server(),
    {
        match self {
            Operation::Serve { server, .. } => Some(server),
            Operation::Preview { server } => Some(server),
            _ => None,
        }
    }
}

impl EditorialSelectorArgs {
    /// How many ways of selecting are used.
    pub open spec fn ways(&self) -> int {
        (if self.paths@.len() > 0 {
            1int
        } else {
            0
        }) + (if self.batch is Some {
            1int
        } else {
            0
        }) + (if self.working_tree {
            1int
        } else {
            0
        }) + (if self.against_upstream {
            1int
        } else {
            0
        })
    }

    /// How many ways of selecting are used.
    pub fn selector_count(&self) -> (count: usize)
        ensures
            count == self.ways(),
    {
        let mut count: usize = 0;
        if self.paths.len() > 0 {
            count += 1;
        }
        if self.batch.is_some() {
            count += 1;
        }
        if self.working_tree {
            count += 1;
        }
        if self.against_upstream {
            count += 1;
        }
        count
    }
}

/// A JSON list of texts, written over several lines.
pub uninterp spec fn json_list(items: Seq<Seq<char>>) -> Seq<char>;

/// `to_string_pretty` of the crate `serde_json`, on a list of strings, which it always can write.
#[verifier::external_body]
fn write_json(items: &Vec<String>) -> (out: String)
    ensures
        out@ == json_list(text::views(items@)),
{
    serde_json::to_string_pretty(items).unwrap()
}

/// A file as it is listed: from the repository, where it is in it.
pub open spec fn listed_file(file: Seq<char>, repo: Seq<char>) -> Seq<char> {
    match path::stripped(file, repo) {
        Some(relative) => relative,
        None => file,
    }
}

/// Files as they are listed.
pub open spec fn listed_files(files: Seq<Seq<char>>, repo: Seq<char>) -> Seq<Seq<char>> {
    Seq::new(files.len(), |i: int| listed_file(files[i], repo))
}

/// The first of the texts that has the separator.
pub open spec fn offender(files: Seq<Seq<char>>, separator: Seq<char>) -> Option<Seq<char>>
    decreases files.len(),
{
    if files.len() == 0 {
        None
    } else {
        match offender(files.drop_last(), separator) {
            Some(file) => Some(file),
            None => if text::occurs_in(files.last(), separator) {
                Some(files.last())
            } else {
                None
            },
        }
    }
}

/// The first text that has the separator stays the first when more texts follow.
proof fn offender_stays(files: Seq<Seq<char>>, separator: Seq<char>, count: int)
    requires
        0 <= count <= files.len(),
        offender(files.take(count), separator) is Some,
    ensures
        offender(files, separator) == offender(files.take(count), separator),
    decreases files.len(),
{
    if count < files.len() {
        assert(files.drop_last().take(count) =~= files.take(count));
        offender_stays(files.drop_last(), separator, count);
    } else {
        assert(files.take(count) =~= files);
    }
}

/// The list with a separator, unless an item has it.
fn separated(files: &Vec<String>, separator: &str) -> (out: Result<String, SeparatorError>)
    ensures
        match offender(text::views(files@), separator@) {
            Some(file) => out matches Err(error) && error.path@ == file,
            None => out matches Ok(text) && text@ == text::joined(
                text::views(files@),
                separator@,
            ) + "\n"@,
        },
{
    let ghost all = text::views(files@);
    let mut i: usize = 0;
    assert(all.take(0) =~= Seq::empty());
    while i < files.len()
        invariant
            i <= files@.len(),
            all == text::views(files@),
            offender(all.take(i as int), separator@) is None,
        decreases files.len() - i,
    {
        proof {
            assert(all.take(i + 1).drop_last() =~= all.take(i as int));
            assert(all.take(i + 1).last() == files@[i as int]@);
        }
        if text::contains(files[i].as_str(), separator) {
            proof {
                offender_stays(all, separator@, i + 1);
            }
            return Err(SeparatorError { path: files[i].clone() });
        }
        i += 1;
    }
    assert(all.take(i as int) =~= all);
    let mut out = text::join(files, separator);
    out.append("\n");
    Ok(out)
}

impl ChangedFormat {
    /// The separator between files.
    pub open spec fn separator(&self) -> Option<Seq<char>> {
        match *self {
            ChangedFormat::Newline => Some("\n"@),
            ChangedFormat::Nul => Some("\0"@),
            ChangedFormat::Json => None,
        }
    }

    /// What is printed for the changed files of a repository; nothing can be where the separator
    /// stands in one of them.
    pub fn print(&self, files: &Vec<String>, repo_path: &str) -> (out: Result<String, SeparatorError>)
        ensures
            ({
                let listed = listed_files(text::views(files@), repo_path@);
                match self.separator() {
                    None => out matches Ok(text) && text@ == json_list(listed),
                    Some(separator) => match offender(listed, separator) {
                        Some(file) => out matches Err(error) && error.path@ == file,
                        None => out matches Ok(text) && text@ == text::joined(listed, separator)
                            + "\n"@,
                    },
                }
            }),
    {
        let mut listed: Vec<String> = Vec::new();
        let mut i: usize = 0;
        while i < files.len()
            invariant
                i <= files@.len(),
                listed@.len() == i,
                forall|k: int|
                    0 <= k < i ==> (#[trigger] listed@[k])@ == listed_file(
                        files@[k]@,
                        repo_path@,
                    ),
            decreases files.len() - i,
        {
            match path::strip_prefix(files[i].as_str(), repo_path) {
                Some(relative) => listed.push(relative),
                None => listed.push(files[i].clone()),
            }
            i += 1;
        }
        assert(text::views(listed@) =~= listed_files(text::views(files@), repo_path@));
        match self {
            ChangedFormat::Newline => separated(&listed, "\n"),
            ChangedFormat::Nul => separated(&listed, "\0"),
            ChangedFormat::Json => Ok(write_json(&listed)),
        }
    }
}

/// The changed files that are listed, as paths of the build: all, or those of proposals.
pub open spec fn chosen_files(files: Seq<Seq<char>>, repo: Seq<char>, all: bool) -> Seq<Seq<char>>
    decreases files.len(),
{
    if files.len() == 0 {
        Seq::empty()
    } else {
        let before = chosen_files(files.drop_last(), repo, all);
        if all || proposal::proposal_path(files.last()) {
            before.push(path::path_joined(repo, files.last()))
        } else {
            before
        }
    }
}

/// The changed files that are listed, as paths of the build.
pub fn choose_changed(files: &Vec<String>, repo_path: &str, all: bool) -> (out: Vec<String>)
    ensures
        text::views(out@) == chosen_files(text::views(files@), repo_path@, all),
{
    let ghost wanted = text::views(files@);
    let mut out: Vec<String> = Vec::new();
    let mut i: usize = 0;
    assert(wanted.take(0) =~= Seq::empty());
    assert(text::views(out@) =~= Seq::empty());
    while i < files.len()
        invariant
            i <= files@.len(),
            wanted == text::views(files@),
            text::views(out@) == chosen_files(wanted.take(i as int), repo_path@, all),
        decreases files.len() - i,
    {
        let ghost before = out@;
        proof {
            assert(wanted.take(i + 1).drop_last() =~= wanted.take(i as int));
            assert(wanted.take(i + 1).last() == files@[i as int]@);
        }
        if all || proposal::is_proposal_path(files[i].as_str()) {
            let file = path::join(repo_path, files[i].as_str());
            assert(text::views(before.push(file)) =~= text::views(before).push(file@));
            out.push(file);
        }
        i += 1;
    }
    assert(wanted.take(i as int) =~= wanted);
    out
}

/// A changed file of the repository, once it is chosen as a path of the build, is listed as the path
/// of the repository that it was.
pub proof fn changed_files_are_listed_by_their_path(file: Seq<char>, repo: Seq<char>)
    requires
        !path::has_start_component(file),
    ensures
        listed_file(path::path_joined(repo, file), repo) == path::text_from(file, 0),
{
    path::joined_path_strips_back(repo, file);
}

/// Of the changed files, those of proposals are listed, and all of them where all are asked for; each
/// as its path in the build, and nothing else.
pub proof fn changed_proposals_are_listed(
    files: Seq<Seq<char>>,
    repo: Seq<char>,
    all: bool,
    i: int,
)
    requires
        0 <= i < files.len(),
        all || proposal::proposal_path(files[i]),
    ensures
        chosen_files(files, repo, all).contains(path::path_joined(repo, files[i])),
    decreases files.len(),
{
    let out = chosen_files(files, repo, all);
    let wanted = path::path_joined(repo, files[i]);
    if i == files.len() - 1 {
        assert(out[out.len() - 1] == wanted);
    } else {
        changed_proposals_are_listed(files.drop_last(), repo, all, i);
        let before = chosen_files(files.drop_last(), repo, all);
        let k = choose|k: int| 0 <= k < before.len() && before[k] == wanted;
        assert(out[k] == wanted);
    }
}

/// What is listed of the changed files is one of them, and one of a proposal unless all are asked for.
pub proof fn listed_changes_are_changed(
    files: Seq<Seq<char>>,
    repo: Seq<char>,
    all: bool,
    k: int,
) -> (i: int)
    requires
        0 <= k < chosen_files(files, repo, all).len(),
    ensures
        0 <= i < files.len(),
        chosen_files(files, repo, all)[k] == path::path_joined(repo, files[i]),
        all || proposal::proposal_path(files[i]),
    decreases files.len(),
{
    let before = chosen_files(files.drop_last(), repo, all);
    if k < before.len() {
        listed_changes_are_changed(files.drop_last(), repo, all, k)
    } else {
        files.len() - 1
    }
}

/// With the flag for all of them, the changed files are listed one by one, in their order.
pub proof fn all_changes_are_listed(files: Seq<Seq<char>>, repo: Seq<char>)
    ensures
        chosen_files(files, repo, true).len() == files.len(),
        forall|i: int|
            0 <= i < files.len() ==> #[trigger] chosen_files(files, repo, true)[i]
                == path::path_joined(repo, files[i]),
    decreases files.len(),
{
    if files.len() > 0 {
        all_changes_are_listed(files.drop_last(), repo);
    }
}

/// A list on lines has line ends between its files, and one of bytes has zeros; a list as JSON has no
/// separator that a file could hold.
pub proof fn formats_have_their_separator(format: ChangedFormat)
    ensures
        format is Newline ==> (format.separator() matches Some(separator) && separator == seq!['\n']),
        format is Nul ==> (format.separator() matches Some(separator) && separator == seq!['\0']),
        format is Json ==> format.separator() is None,
{
    reveal_strlit("\n");
    reveal_strlit("\0");
    assert("\n"@ =~= seq!['\n']);
    assert("\0"@ =~= seq!['\0']);
}

/// Files that cannot be told apart are refused: there is an offender exactly where a file holds the
/// separator.
pub proof fn ambiguous_lists_are_refused(files: Seq<Seq<char>>, separator: Seq<char>, i: int)
    requires
        0 <= i < files.len(),
    ensures
        text::occurs_in(files[i], separator) ==> offender(files, separator) is Some,
        offender(files, separator) matches Some(file) ==> files.contains(file) && text::occurs_in(
            file,
            separator,
        ),
    decreases files.len(),
{
    let before = files.drop_last();
    if before.len() > 0 {
        ambiguous_lists_are_refused(before, separator, if i < before.len() {
            i
        } else {
            0
        });
        if offender(before, separator) is Some {
            let file = offender(before, separator)->0;
            let k = choose|k: int| 0 <= k < before.len() && before[k] == file;
            assert(files[k] == file);
        }
    }
    assert(files[files.len() - 1] == files.last());
}

} // verus!
