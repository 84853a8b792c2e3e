//! Repositories: what can go wrong with them, and how they are opened, cloned and fetched.

use vstd::prelude::*;

use crate::text;

verus! {

/// What can go wrong with a repository.
#[derive(Debug, Clone, PartialEq, Eq)]
pub enum Error {
    PathUrl { path: String },
    Io { path: String, cause: String },
    Git { what: String, cause: String },
    Dirty { message: String },
    DirtyConflict { path: String },
    DirtyUnsupportedPath { path: String },
    UpdateTree { msg: String },
    ExistingWorkspacePath { path: String },
    UnusableWorkspaceRepository { path: String, reason: String },
    MissingFreshWorkspaceRepository { path: String },
}

/// What an error stands for.
pub enum Failure {
    PathUrl(Seq<char>),
    Io { path: Seq<char>, cause: Seq<char> },
    Git { what: Seq<char>, cause: Seq<char> },
    Dirty(Seq<char>),
    DirtyConflict(Seq<char>),
    DirtyUnsupportedPath(Seq<char>),
    UpdateTree(Seq<char>),
    ExistingWorkspacePath(Seq<char>),
    UnusableWorkspaceRepository { path: Seq<char>, reason: Seq<char> },
    MissingFreshWorkspaceRepository(Seq<char>),
}

impl View for Error {
    type V = Failure;

    open spec fn view(&self) -> Failure {
        match self {
            Error::PathUrl { path } => Failure::PathUrl(path@),
            Error::Io { path, cause } => Failure::Io { path: path@, cause: cause@ },
            Error::Git { what, cause } => Failure::Git { what: what@, cause: cause@ },
            Error::Dirty { message } => Failure::Dirty(message@),
            Error::DirtyConflict { path } => Failure::DirtyConflict(path@),
            Error::DirtyUnsupportedPath { path } => Failure::DirtyUnsupportedPath(path@),
            Error::UpdateTree { msg } => Failure::UpdateTree(msg@),
            Error::ExistingWorkspacePath { path } => Failure::ExistingWorkspacePath(path@),
            Error::UnusableWorkspaceRepository { path, reason } => {
                Failure::UnusableWorkspaceRepository { path: path@, reason: reason@ }
            },
            Error::MissingFreshWorkspaceRepository { path } => {
                Failure::MissingFreshWorkspaceRepository(path@)
            },
        }
    }
}

/// The message of a failure.
pub open spec fn message_of(failure: Failure) -> Seq<char> {
    match failure {
        Failure::PathUrl(path) => text::glued(
            seq!["cannot convert path into URL (`"@, path, "`)"@],
        ),
        Failure::Io { path, .. } => text::glued(seq!["i/o error accessing `"@, path, "`"@]),
        Failure::Git { what, .. } => text::glued(seq!["unable to "@, what, ""@]),
        Failure::Dirty(message) => message,
        Failure::DirtyConflict(path) => text::glued(
            seq![
                "dirty mode cannot materialize conflicted path `"@,
                path,
                "`; resolve the conflict and try again"@,
            ],
        ),
        Failure::DirtyUnsupportedPath(path) => text::glued(
            seq![
                "dirty mode cannot materialize `"@,
                path,
                "` because it is not a tracked file or symlink in the working tree"@,
            ],
        ),
        Failure::UpdateTree(msg) => text::glued(seq!["unable to update tree ("@, msg, ")"@]),
        Failure::ExistingWorkspacePath(path) => text::glued(
            seq![
                "workspace path `"@,
                path,
                "` already exists but is not a usable git repository"@,
            ],
        ),
        Failure::UnusableWorkspaceRepository { path, reason } => text::glued(
            seq!["workspace repository `"@, path, "` is unusable: "@ + reason],
        ),
        Failure::MissingFreshWorkspaceRepository(path) => text::glued(
            seq!["fresh workspace repository `"@, path, "` was missing before checkout"@],
        ),
    }
}

impl Error {
    /// The message of the error, without its cause.
    pub fn message(&self) -> (out: String)
        ensures
            out@ == message_of(self@),
    {
        match self {
            Error::PathUrl { path } => text::wrap(
                "cannot convert path into URL (`",
                path.as_str(),
                "`)",
            ),
            Error::Io { path, .. } => text::wrap("i/o error accessing `", path.as_str(), "`"),
            Error::Git { what, .. } => text::wrap("unable to ", what.as_str(), ""),
            Error::Dirty { message } => message.clone(),
            Error::DirtyConflict { path } => text::wrap(
                "dirty mode cannot materialize conflicted path `",
                path.as_str(),
                "`; resolve the conflict and try again",
            ),
            Error::DirtyUnsupportedPath { path } => text::wrap(
                "dirty mode cannot materialize `",
                path.as_str(),
                "` because it is not a tracked file or symlink in the working tree",
            ),
            Error::UpdateTree { msg } => text::wrap("unable to update tree (", msg.as_str(), ")"),
            Error::ExistingWorkspacePath { path } => text::wrap(
                "workspace path `",
                path.as_str(),
                "` already exists but is not a usable git repository",
            ),
            Error::UnusableWorkspaceRepository { path, reason } => {
                let mut tail = "` is unusable: ".to_owned();
                tail.append(reason.as_str());
                text::wrap("workspace repository `", path.as_str(), tail.as_str())
            },
            Error::MissingFreshWorkspaceRepository { path } => text::wrap(
                "fresh workspace repository `",
                path.as_str(),
                "` was missing before checkout",
            ),
        }
    }
}

/// Which state of the active repository is built.
#[derive(Debug, Clone, Copy, PartialEq, Eq, Structural)]
pub enum SourceMaterialization {
    /// The last commit, of a repository without changes.
    Clean,
    /// The last commit with the tracked changes of the working tree.
    Dirty,
}

/// Whether a repository was cloned or there before.
#[derive(Debug, Clone, Copy, PartialEq, Eq, Structural)]
pub enum CloneOutcome {
    Fresh,
    Existing,
}

/// What opening a repository gave.
#[derive(Debug, Clone, PartialEq, Eq)]
pub enum Opened {
    /// There is one; whether it has a working tree, and whether it has a commit.
    Repository { has_workdir: bool, has_head: bool },
    /// There is none.
    NotFound,
    /// There may be one, but it cannot be opened.
    Failed(String),
}

/// What stands at a path.
#[derive(Debug, Clone, PartialEq, Eq)]
pub enum Presence {
    Present,
    Missing,
    Unreadable(String),
}

/// Whether a repository can be worked with, or why not.
pub open spec fn usable(path: Seq<char>, has_workdir: bool, has_head: bool) -> Result<(), Failure> {
    if !has_workdir {
        Err(Failure::UnusableWorkspaceRepository { path, reason: "it is bare"@ })
    } else if !has_head {
        Err(Failure::UnusableWorkspaceRepository { path, reason: "it has no HEAD commit"@ })
    } else {
        Ok(())
    }
}

/// Whether a repository stands at the path, where nothing is wrong with what does.
pub open spec fn existing(path: Seq<char>, opened: Opened, presence: Presence) -> Result<
    bool,
    Failure,
> {
    match (opened, presence) {
        (Opened::Repository { has_workdir, has_head }, _) => match usable(
            path,
            has_workdir,
            has_head,
        ) {
            Ok(_) => Ok(true),
            Err(failure) => Err(failure),
        },
        (_, Presence::Present) => Err(Failure::ExistingWorkspacePath(path)),
        (_, Presence::Unreadable(cause)) => Err(Failure::Io { path, cause: cause@ }),
        (Opened::NotFound, Presence::Missing) => Ok(false),
        (Opened::Failed(cause), Presence::Missing) => Err(
            Failure::Git { what: "open existing workspace repository"@, cause: cause@ },
        ),
    }
}

/// Whether a result is the wanted one.
pub open spec fn result_is<T>(out: Result<T, Error>, wanted: Result<T, Failure>) -> bool {
    match out {
        Ok(value) => wanted == Ok::<T, Failure>(value),
        Err(error) => wanted == Err::<T, Failure>(error@),
    }
}

/// Whether a repository can be worked with: it has a working tree and a commit.
pub fn ensure_usable_workspace_repository(
    path: &str,
    has_workdir: bool,
    has_head: bool,
) -> (out: Result<(), Error>)
    ensures
        result_is(out, usable(path@, has_workdir, has_head)),
{
    if !has_workdir {
        return Err(
            Error::UnusableWorkspaceRepository {
                path: path.to_owned(),
                reason: "it is bare".to_owned(),
            },
        );
    }
    if !has_head {
        return Err(
            Error::UnusableWorkspaceRepository {
                path: path.to_owned(),
                reason: "it has no HEAD commit".to_owned(),
            },
        );
    }
    Ok(())
}

/// Whether a repository stands at the path, given what opening it gave and what stands there.
pub fn open_existing_workspace_repository(
    destination: &str,
    opened: &Opened,
    presence: &Presence,
) -> (out: Result<bool, Error>)
    ensures
        result_is(out, existing(destination@, *opened, *presence)),
{
    match opened {
        Opened::Repository { has_workdir, has_head } => {
            match ensure_usable_workspace_repository(destination, *has_workdir, *has_head) {
                Ok(_) => Ok(true),
                Err(error) => Err(error),
            }
        },
        Opened::NotFound => match presence {
            Presence::Present => Err(Error::ExistingWorkspacePath { path: destination.to_owned() }),
            Presence::Missing => Ok(false),
            Presence::Unreadable(cause) => Err(
                Error::Io { path: destination.to_owned(), cause: cause.clone() },
            ),
        },
        Opened::Failed(cause) => match presence {
            Presence::Present => Err(Error::ExistingWorkspacePath { path: destination.to_owned() }),
            Presence::Missing => Err(
                Error::Git {
                    what: "open existing workspace repository".to_owned(),
                    cause: cause.clone(),
                },
            ),
            Presence::Unreadable(cause) => Err(
                Error::Io { path: destination.to_owned(), cause: cause.clone() },
            ),
        },
    }
}

/// What cloning a repository gave.
#[derive(Debug, Clone, PartialEq, Eq)]
pub enum Cloned {
    /// The clone; whether it has a working tree, and whether it has a commit.
    Repository { has_workdir: bool, has_head: bool },
    Failed(String),
}

/// What is done about a repository that may be missing.
#[derive(Debug, Clone, Copy, PartialEq, Eq, Structural)]
pub enum CloneStep {
    /// It is there.
    Done(CloneOutcome),
    /// It has to be cloned.
    Clone,
}

/// What is done about a repository that may be missing: one that is there is used, and only where
/// nothing stands at the path is one cloned.
pub fn clone_missing_repo(destination: &str, opened: &Opened, presence: &Presence) -> (out: Result<
    CloneStep,
    Error,
>)
    ensures
        match out {
            Ok(CloneStep::Done(outcome)) => outcome == CloneOutcome::Existing && existing(
                destination@,
                *opened,
                *presence,
            ) == Ok::<bool, Failure>(true),
            Ok(CloneStep::Clone) => existing(destination@, *opened, *presence) == Ok::<
                bool,
                Failure,
            >(false),
            Err(error) => existing(destination@, *opened, *presence) == Err::<bool, Failure>(
                error@,
            ),
        },
{
    match open_existing_workspace_repository(destination, opened, presence) {
        Ok(true) => Ok(CloneStep::Done(CloneOutcome::Existing)),
        Ok(false) => Ok(CloneStep::Clone),
        Err(error) => Err(error),
    }
}

/// What a clone is worth.
pub fn finish_clone(destination: &str, cloned: &Cloned) -> (out: Result<CloneOutcome, Error>)
    ensures
        match *cloned {
            Cloned::Failed(cause) => out matches Err(error) && error@ == (Failure::Git {
                what: "clone workspace repository"@,
                cause: cause@,
            }),
            Cloned::Repository { has_workdir, has_head } => match out {
                Ok(outcome) => outcome == CloneOutcome::Fresh && usable(
                    destination@,
                    has_workdir,
                    has_head,
                ) is Ok,
                Err(error) => usable(destination@, has_workdir, has_head) == Err::<(), Failure>(
                    error@,
                ),
            },
        },
{
    match cloned {
        Cloned::Failed(cause) => Err(
            Error::Git { what: "clone workspace repository".to_owned(), cause: cause.clone() },
        ),
        Cloned::Repository { has_workdir, has_head } => {
            match ensure_usable_workspace_repository(destination, *has_workdir, *has_head) {
                Ok(_) => Ok(CloneOutcome::Fresh),
                Err(error) => Err(error),
            }
        },
    }
}

/// What resolving a revision gave.
#[derive(Debug, Clone, PartialEq, Eq)]
pub enum Resolved {
    /// It is the commit with this id.
    Commit(String),
    /// It is not there, or is no revision.
    Unknown,
    Failed(String),
}

/// How the commit that a fresh clone is pinned to is found.
#[derive(Debug, Clone, PartialEq, Eq)]
pub enum PinStep {
    /// It is there, with this id.
    Use(String),
    /// It has to be fetched with this refspec.
    Fetch(String),
}

/// The refspec for a commit that a theme is pinned to.
pub open spec fn pin_refspec(commit: Seq<char>) -> Seq<char> {
    text::glued(seq!["+"@, commit, ":refs/build-eips/theme-pin"@])
}

/// How the commit that a fresh clone is pinned to is found, given whether the clone is there and
/// what resolving the commit gave.
pub fn checkout_fresh_clone_at_commit(
    destination: &str,
    opened: &Opened,
    presence: &Presence,
    commit: &str,
    resolved: &Resolved,
) -> (out: Result<PinStep, Error>)
    ensures
        match existing(destination@, *opened, *presence) {
            Err(failure) => out matches Err(error) && error@ == failure,
            Ok(false) => out matches Err(error) && error@
                == Failure::MissingFreshWorkspaceRepository(destination@),
            Ok(true) => match *resolved {
                Resolved::Commit(id) => out matches Ok(PinStep::Use(found)) && found@ == id@,
                Resolved::Unknown => out matches Ok(PinStep::Fetch(refspec)) && refspec@
                    == pin_refspec(commit@),
                Resolved::Failed(cause) => out matches Err(error) && error@ == (Failure::Git {
                    what: "resolve manifest theme commit"@,
                    cause: cause@,
                }),
            },
        },
{
    match open_existing_workspace_repository(destination, opened, presence) {
        Err(error) => Err(error),
        Ok(false) => Err(Error::MissingFreshWorkspaceRepository { path: destination.to_owned() }),
        Ok(true) => match resolved {
            Resolved::Commit(id) => Ok(PinStep::Use(id.clone())),
            Resolved::Unknown => Ok(
                PinStep::Fetch(text::wrap("+", commit, ":refs/build-eips/theme-pin")),
            ),
            Resolved::Failed(cause) => Err(
                Error::Git {
                    what: "resolve manifest theme commit".to_owned(),
                    cause: cause.clone(),
                },
            ),
        },
    }
}

/// The reference that a refspec fetches into.
pub open spec fn fetched_into(refspec: Seq<char>) -> Seq<char> {
    let colon = text::first_index(refspec, ':');
    if colon + 1 < refspec.len() {
        refspec.skip(colon + 1)
    } else {
        "FETCH_HEAD"@
    }
}

/// The reference that a refspec fetches into.
pub fn fetched_ref(refspec: &str) -> (out: String)
    ensures
        out@ == fetched_into(refspec@),
{
    let chars = text::chars_of(refspec);
    let colon = text::find_char(&chars, 0, ':');
    assert(refspec@.skip(0) =~= refspec@);
    proof {
        text::first_index_is_first(refspec@, ':');
    }
    let total: usize = chars.len();
    if colon < total && colon + 1 < total {
        text::substring(&chars, colon + 1, total)
    } else {
        "FETCH_HEAD".to_owned()
    }
}

/// The refspec that fetches the active repository.
pub const SOURCE_REFSPEC: &'static str = "+HEAD:refs/build-eips/source-head";

/// The refspec that fetches the upstream of the active repository.
pub const UPSTREAM_REFSPEC: &'static str = "+master:refs/build-eips/upstream-head";

/// The remote that fetches go through.
pub const FETCH_REMOTE: &'static str = "__build_eips_fetch";

/// A step of fetching a commit.
#[derive(Debug, Clone, Copy, PartialEq, Eq, Structural)]
pub enum FetchStep {
    /// Remove a remote that an earlier run left.
    ClearRemote,
    /// Make the remote.
    MakeRemote,
    /// Fetch through it.
    Fetch,
    /// Remove the remote.
    RemoveRemote,
    /// Find what was fetched.
    FindFetched,
    /// Find its commit.
    FindCommit,
}

/// What a step of fetching gave.
#[derive(Debug, Clone, PartialEq, Eq)]
pub enum FetchOutcome {
    Done,
    /// There is no such thing.
    NotFound(String),
    Failed(String),
}

/// What a step of fetching is called when it fails.
pub open spec fn fetch_action(step: FetchStep) -> Seq<char> {
    match step {
        FetchStep::ClearRemote => "deleting temporary remote"@,
        FetchStep::MakeRemote => "creating remote"@,
        FetchStep::Fetch => "fetching repo"@,
        FetchStep::RemoveRemote => "deleting temporary remote"@,
        FetchStep::FindFetched => "revparse fetched ref"@,
        FetchStep::FindCommit => "peel fetched ref"@,
    }
}

/// What comes after a step of fetching; nothing after the last.
pub open spec fn after_fetch_step(step: FetchStep) -> Option<FetchStep> {
    match step {
        FetchStep::ClearRemote => Some(FetchStep::MakeRemote),
        FetchStep::MakeRemote => Some(FetchStep::Fetch),
        FetchStep::Fetch => Some(FetchStep::RemoveRemote),
        FetchStep::RemoveRemote => Some(FetchStep::FindFetched),
        FetchStep::FindFetched => Some(FetchStep::FindCommit),
        FetchStep::FindCommit => None,
    }
}

/// What comes after a step of fetching, given what it gave: a remote that is to be cleared may be
/// missing, everything else must work.
pub open spec fn fetched_step(step: FetchStep, outcome: FetchOutcome) -> Result<
    Option<FetchStep>,
    Failure,
> {
    match outcome {
        FetchOutcome::Done => Ok(after_fetch_step(step)),
        FetchOutcome::NotFound(cause) => if step == FetchStep::ClearRemote {
            Ok(after_fetch_step(step))
        } else {
            Err(Failure::Git { what: fetch_action(step), cause: cause@ })
        },
        FetchOutcome::Failed(cause) => Err(
            Failure::Git { what: fetch_action(step), cause: cause@ },
        ),
    }
}

/// What comes after a step of fetching, given what it gave.
pub fn fetch(step: FetchStep, outcome: &FetchOutcome) -> (out: Result<Option<FetchStep>, Error>)
    ensures
        result_is(out, fetched_step(step, *outcome)),
{
    let cause = match outcome {
        FetchOutcome::Done => None,
        FetchOutcome::NotFound(cause) => match step {
            FetchStep::ClearRemote => None,
            _ => Some(cause.clone()),
        },
        FetchOutcome::Failed(cause) => Some(cause.clone()),
    };
    let (what, next) = match step {
        FetchStep::ClearRemote => ("deleting temporary remote", Some(FetchStep::MakeRemote)),
        FetchStep::MakeRemote => ("creating remote", Some(FetchStep::Fetch)),
        FetchStep::Fetch => ("fetching repo", Some(FetchStep::RemoveRemote)),
        FetchStep::RemoveRemote => ("deleting temporary remote", Some(FetchStep::FindFetched)),
        FetchStep::FindFetched => ("revparse fetched ref", Some(FetchStep::FindCommit)),
        FetchStep::FindCommit => ("peel fetched ref", None),
    };
    match cause {
        None => Ok(next),
        Some(cause) => Err(Error::Git { what: what.to_owned(), cause }),
    }
}

/// How the working repository of a build comes by.
#[derive(Debug, Clone, PartialEq, Eq)]
pub enum WorkingRepo {
    Open,
    Init,
}

/// Whether the working repository of a build is there or has to be made.
pub fn open_or_init(opened: &Opened) -> (out: Result<WorkingRepo, Error>)
    ensures
        match *opened {
            Opened::Repository { .. } => out == Ok::<WorkingRepo, Error>(WorkingRepo::Open),
            Opened::NotFound => out == Ok::<WorkingRepo, Error>(WorkingRepo::Init),
            Opened::Failed(cause) => out matches Err(error) && error@ == (Failure::Git {
                what: "open repo"@,
                cause: cause@,
            }),
        },
{
    match opened {
        Opened::Repository { .. } => Ok(WorkingRepo::Open),
        Opened::NotFound => Ok(WorkingRepo::Init),
        Opened::Failed(cause) => Err(
            Error::Git { what: "open repo".to_owned(), cause: cause.clone() },
        ),
    }
}

/// A repository that is there and usable is never cloned over, and nothing is cloned to a path at
/// which something else stands.
pub proof fn clones_never_replace(path: Seq<char>, opened: Opened, presence: Presence)
    requires
        existing(path, opened, presence) == Ok::<bool, Failure>(false),
    ensures
        opened == Opened::NotFound,
        presence == Presence::Missing,
{
}

/// Fetching goes through a remote of its own: one that an earlier run left is cleared, which may find
/// none, then the remote is made, fetched through and removed, and only then is the commit looked up.
/// Any other failure ends it.
pub proof fn fetching_has_an_order(step: FetchStep, outcome: FetchOutcome)
    ensures
        outcome is Done ==> fetched_step(step, outcome) == Ok::<Option<FetchStep>, Failure>(
            match step {
                FetchStep::ClearRemote => Some(FetchStep::MakeRemote),
                FetchStep::MakeRemote => Some(FetchStep::Fetch),
                FetchStep::Fetch => Some(FetchStep::RemoveRemote),
                FetchStep::RemoveRemote => Some(FetchStep::FindFetched),
                FetchStep::FindFetched => Some(FetchStep::FindCommit),
                FetchStep::FindCommit => None,
            },
        ),
        step == FetchStep::ClearRemote && outcome is NotFound ==> fetched_step(step, outcome)
            == Ok::<Option<FetchStep>, Failure>(Some(FetchStep::MakeRemote)),
        outcome is Failed ==> fetched_step(step, outcome) is Err,
        step != FetchStep::ClearRemote && outcome is NotFound ==> fetched_step(step, outcome) is Err,
{
}

/// What is fetched is found under the reference behind the colon of its refspec.
pub proof fn fetches_are_found_where_they_went(source: Seq<char>, target: Seq<char>)
    requires
        forall|i: int| 0 <= i < source.len() ==> source[i] != ':',
        target.len() > 0,
    ensures
        fetched_into(source.push(':') + target) == target,
{
    let refspec = source.push(':') + target;
    text::first_index_unique(refspec, ':', source.len() as int);
    assert(refspec.skip(source.len() as int + 1) =~= target);
}

/// A commit that a theme is pinned to is fetched into a reference of its own.
pub proof fn pins_are_fetched_by_commit(commit: Seq<char>)
    ensures
        pin_refspec(commit) == "+"@ + commit + ":refs/build-eips/theme-pin"@,
{
    text::three_are_glued("+"@, commit, ":refs/build-eips/theme-pin"@);
}

/// A repository with a working tree and a commit is used as it is, and one is cloned where nothing
/// stands; a bare repository, one without a commit, and anything else at the path is an error.
pub proof fn usable_repositories_are_used(path: Seq<char>, opened: Opened, presence: Presence)
    ensures
        opened == (Opened::Repository { has_workdir: true, has_head: true }) ==> existing(
            path,
            opened,
            presence,
        ) == Ok::<bool, Failure>(true),
        opened is NotFound && presence is Missing ==> existing(path, opened, presence) == Ok::<
            bool,
            Failure,
        >(false),
        opened matches Opened::Repository { has_workdir, has_head } ==> (!has_workdir || !has_head
            ==> existing(path, opened, presence) is Err),
        !(opened is Repository) && !(presence is Missing) ==> existing(path, opened, presence) is Err,
{
}

/// The source is what is checked out, the upstream is the branch `master`, and each is fetched into a
/// reference of its own, where it is found.
pub proof fn sources_and_upstreams_are_fetched_apart()
    ensures
        SOURCE_REFSPEC@ == "+HEAD:refs/build-eips/source-head"@,
        UPSTREAM_REFSPEC@ == "+master:refs/build-eips/upstream-head"@,
        fetched_into(SOURCE_REFSPEC@) == "refs/build-eips/source-head"@,
        fetched_into(UPSTREAM_REFSPEC@) == "refs/build-eips/upstream-head"@,
{
    reveal_strlit("+HEAD:refs/build-eips/source-head");
    reveal_strlit("refs/build-eips/source-head");
    reveal_strlit("+master:refs/build-eips/upstream-head");
    reveal_strlit("refs/build-eips/upstream-head");
    assert(SOURCE_REFSPEC@ =~= SOURCE_REFSPEC@.take(5).push(':') + "refs/build-eips/source-head"@);
    fetches_are_found_where_they_went(
        SOURCE_REFSPEC@.take(5),
        "refs/build-eips/source-head"@,
    );
    assert(UPSTREAM_REFSPEC@ =~= UPSTREAM_REFSPEC@.take(7).push(':')
        + "refs/build-eips/upstream-head"@);
    fetches_are_found_where_they_went(
        UPSTREAM_REFSPEC@.take(7),
        "refs/build-eips/upstream-head"@,
    );
}

} // verus!
