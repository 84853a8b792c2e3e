//! Editorial target selection.

use vstd::prelude::*;

use crate::cli::{EditorialSelector, EditorialSelectorArgs};
use crate::execution::ResolvedExecution;
use crate::git::SourceMaterialization;
use crate::path;
use crate::path_set;
use crate::proposal;
use crate::proposal::{
    ContentEntry, EditorialNumberSelector, LookupFailure, NumberLookupError,
};
use crate::text;

verus! {

/// Why no targets come out of selectors.
#[derive(Debug, Clone, PartialEq, Eq)]
pub enum EditorialError {
    /// More than one way of selecting, or none.
    ChooseOne,
    /// A selector that tries to be a number.
    InvalidNumber(String),
    /// A number whose Markdown is not found.
    Lookup(NumberLookupError),
    /// The content directory cannot be read.
    UnreadableContent(String),
    /// A path from the root of the file system.
    AbsolutePath(String),
    /// A target that has no canonical form.
    Unresolved { path: String, cause: String },
    /// A target outside the repository.
    Escapes(String),
    /// A target that is no proposal.
    NotProposal(String),
    /// No target at all.
    NoTargets,
    /// A target that is not in the prepared repository.
    NotMaterialized(String),
    /// A target of the prepared repository that cannot be opened.
    CannotOpen { path: String, cause: String },
    /// A target of the prepared repository that cannot be examined.
    CannotInspect { path: String, cause: String },
    /// A target of the prepared repository that is no file.
    NotFile(String),
}

/// What an editorial error stands for.
pub enum EditorialFailure {
    ChooseOne,
    InvalidNumber(Seq<char>),
    Lookup(LookupFailure),
    UnreadableContent(Seq<char>),
    AbsolutePath(Seq<char>),
    Unresolved { path: Seq<char>, cause: Seq<char> },
    Escapes(Seq<char>),
    NotProposal(Seq<char>),
    NoTargets,
    NotMaterialized(Seq<char>),
    CannotOpen { path: Seq<char>, cause: Seq<char> },
    CannotInspect { path: Seq<char>, cause: Seq<char> },
    NotFile(Seq<char>),
}

impl View for EditorialError {
    type V = EditorialFailure;

    open spec fn view(&self) -> EditorialFailure {
        match self {
            EditorialError::ChooseOne => EditorialFailure::ChooseOne,
            EditorialError::InvalidNumber(text) => EditorialFailure::InvalidNumber(text@),
            EditorialError::Lookup(error) => EditorialFailure::Lookup(error@),
            EditorialError::UnreadableContent(path) => EditorialFailure::UnreadableContent(path@),
            EditorialError::AbsolutePath(path) => EditorialFailure::AbsolutePath(path@),
            EditorialError::Unresolved { path, cause } => EditorialFailure::Unresolved {
                path: path@,
                cause: cause@,
            },
            EditorialError::Escapes(path) => EditorialFailure::Escapes(path@),
            EditorialError::NotProposal(path) => EditorialFailure::NotProposal(path@),
            EditorialError::NoTargets => EditorialFailure::NoTargets,
            EditorialError::NotMaterialized(path) => EditorialFailure::NotMaterialized(path@),
            EditorialError::CannotOpen { path, cause } => EditorialFailure::CannotOpen {
                path: path@,
                cause: cause@,
            },
            EditorialError::CannotInspect { path, cause } => EditorialFailure::CannotInspect {
                path: path@,
                cause: cause@,
            },
            EditorialError::NotFile(path) => EditorialFailure::NotFile(path@),
        }
    }
}

/// The message for a failure.
pub open spec fn editorial_message(failure: EditorialFailure) -> Seq<char> {
    match failure {
        EditorialFailure::ChooseOne => {
            "choose exactly one editorial selector: explicit proposal targets, `--batch`, `--working-tree`, or `--against-upstream`"@
        },
        EditorialFailure::InvalidNumber(selector) => text::glued(
            seq![
                "editorial number selector `"@,
                selector,
                "` is invalid; expected a positive proposal number that fits in u32, without signs or commas"@,
            ],
        ),
        EditorialFailure::Lookup(failure) => proposal::lookup_message(failure),
        EditorialFailure::UnreadableContent(path) => text::glued(
            seq!["unable to read active repository content directory `"@, path, "`"@],
        ),
        EditorialFailure::AbsolutePath(path) => text::glued(
            seq!["editorial selectors require repo-relative proposal paths, got `"@, path, "`"@],
        ),
        EditorialFailure::Unresolved { path, .. } => text::glued(
            seq!["unable to resolve editorial target `"@, path, "`"@],
        ),
        EditorialFailure::Escapes(path) => text::glued(
            seq!["editorial target `"@, path, "` escapes the active repository root"@],
        ),
        EditorialFailure::NotProposal(path) => text::glued(
            seq!["editorial target `"@, path, "` is not a supported proposal path"@],
        ),
        EditorialFailure::NoTargets => "editorial selector resolved no proposal files"@,
        EditorialFailure::NotMaterialized(path) => text::glued(
            seq![
                "editorial target `"@,
                path,
                "` exists in the active repo but was not materialized into the prepared source tree; untracked files are not supported"@,
            ],
        ),
        EditorialFailure::CannotOpen { path, .. } => text::glued(
            seq!["unable to open prepared editorial target `"@, path, "`"@],
        ),
        EditorialFailure::CannotInspect { path, .. } => text::glued(
            seq!["unable to inspect prepared editorial target `"@, path, "`"@],
        ),
        EditorialFailure::NotFile(path) => text::glued(
            seq!["prepared editorial target `"@, path, "` is not a file"@],
        ),
    }
}

impl EditorialError {
    /// The message of the error.
    pub fn message(&self) -> (out: String)
        ensures
            out@ == editorial_message(self@),
    {
        match self {
            EditorialError::ChooseOne => {
                "choose exactly one editorial selector: explicit proposal targets, `--batch`, `--working-tree`, or `--against-upstream`".to_owned()
            },
            EditorialError::InvalidNumber(selector) => text::wrap(
                "editorial number selector `",
                selector.as_str(),
                "` is invalid; expected a positive proposal number that fits in u32, without signs or commas",
            ),
            EditorialError::Lookup(error) => error.message(),
            EditorialError::UnreadableContent(path) => text::wrap(
                "unable to read active repository content directory `",
                path.as_str(),
                "`",
            ),
            EditorialError::AbsolutePath(path) => text::wrap(
                "editorial selectors require repo-relative proposal paths, got `",
                path.as_str(),
                "`",
            ),
            EditorialError::Unresolved { path, .. } => text::wrap(
                "unable to resolve editorial target `",
                path.as_str(),
                "`",
            ),
            EditorialError::Escapes(path) => text::wrap(
                "editorial target `",
                path.as_str(),
                "` escapes the active repository root",
            ),
            EditorialError::NotProposal(path) => text::wrap(
                "editorial target `",
                path.as_str(),
                "` is not a supported proposal path",
            ),
            EditorialError::NoTargets => "editorial selector resolved no proposal files".to_owned(),
            EditorialError::NotMaterialized(path) => text::wrap(
                "editorial target `",
                path.as_str(),
                "` exists in the active repo but was not materialized into the prepared source tree; untracked files are not supported",
            ),
            EditorialError::CannotOpen { path, .. } => text::wrap(
                "unable to open prepared editorial target `",
                path.as_str(),
                "`",
            ),
            EditorialError::CannotInspect { path, .. } => text::wrap(
                "unable to inspect prepared editorial target `",
                path.as_str(),
                "`",
            ),
            EditorialError::NotFile(path) => text::wrap(
                "prepared editorial target `",
                path.as_str(),
                "` is not a file",
            ),
        }
    }
}

/// Where targets come from.
#[derive(Debug, Clone, Copy, PartialEq, Eq, Structural)]
pub enum RawSource {
    Explicit,
    Batch,
    WorkingTree,
    Upstream,
}

/// Where targets come from: exactly one way of selecting is to be used.
pub fn raw_editorial_source(selectors: &EditorialSelectorArgs) -> (out: Result<
    RawSource,
    EditorialError,
>)
    ensures
        match out {
            Err(error) => error == EditorialError::ChooseOne && selectors.ways() != 1,
            Ok(RawSource::Explicit) => selectors.ways() == 1 && selectors.paths@.len() > 0,
            Ok(RawSource::Batch) => selectors.ways() == 1 && selectors.batch is Some,
            Ok(RawSource::WorkingTree) => selectors.ways() == 1 && selectors.working_tree,
            Ok(RawSource::Upstream) => selectors.ways() == 1 && selectors.against_upstream,
        },
{
    if selectors.selector_count() != 1 {
        return Err(EditorialError::ChooseOne);
    }
    if selectors.paths.len() > 0 {
        Ok(RawSource::Explicit)
    } else if selectors.batch.is_some() {
        Ok(RawSource::Batch)
    } else if selectors.working_tree {
        Ok(RawSource::WorkingTree)
    } else {
        Ok(RawSource::Upstream)
    }
}

/// Whether each target must be there and be a proposal: where targets are named.
pub open spec fn is_strict(selectors: EditorialSelectorArgs) -> bool {
    selectors.paths@.len() > 0 || selectors.batch is Some
}

/// Whether each target must be there and be a proposal.
pub fn strict_selection(selectors: &EditorialSelectorArgs) -> (yes: bool)
    ensures
        yes == is_strict(*selectors),
{
    selectors.paths.len() > 0 || selectors.batch.is_some()
}

/// Whether a line of a batch file names a target.
pub open spec fn is_batch_entry(line: Seq<char>) -> bool {
    line.len() > 0 && line[0] != '#'
}

/// The targets that lines of a batch file name.
pub open spec fn batch_entries(lines: Seq<Seq<char>>) -> Seq<Seq<char>>
    decreases lines.len(),
{
    if lines.len() == 0 {
        Seq::empty()
    } else {
        let before = batch_entries(lines.drop_last());
        let line = text::trimmed(lines.last());
        if is_batch_entry(line) {
            before.push(line)
        } else {
            before
        }
    }
}

/// The targets that a batch file names: one for each line that is neither empty nor a comment.
pub fn read_editorial_batch(contents: &str) -> (out: Vec<String>)
    ensures
        text::views(out@) == batch_entries(text::lines_of(contents@)),
{
    let lines = text::lines(contents);
    let ghost all = text::lines_of(contents@);
    let mut out: Vec<String> = Vec::new();
    let mut i: usize = 0;
    assert(text::views(lines@).len() == lines@.len());
    assert(all.take(0) =~= Seq::empty());
    assert(text::views(out@) =~= Seq::empty());
    while i < lines.len()
        invariant
            i <= lines@.len(),
            all == text::lines_of(contents@),
            text::views(lines@) == all,
            all.len() == lines@.len(),
            text::views(out@) == batch_entries(all.take(i as int)),
        decreases lines.len() - i,
    {
        let ghost before = out@;
        proof {
            assert(all.take(i + 1).drop_last() =~= all.take(i as int));
            assert(all.take(i + 1).last() == text::views(lines@)[i as int]);
        }
        let line = text::trim(lines[i].as_str());
        let chars = text::chars_of(line.as_str());
        if chars.len() > 0 && chars[0] != '#' {
            assert(text::views(before.push(line)) =~= text::views(before).push(line@));
            out.push(line);
        }
        i += 1;
    }
    assert(all.take(i as int) =~= all);
    out
}

/// The entries of the content directory, or why they cannot be read.
#[derive(Debug, Clone, PartialEq, Eq)]
pub enum ContentListing {
    Entries(Vec<ContentEntry>),
    Unreadable(String),
}

/// What a target stands for: its text, and whether it is valid text.
pub struct TargetView {
    pub text: Seq<char>,
    pub opaque: bool,
}

impl View for EditorialSelector {
    type V = TargetView;

    open spec fn view(&self) -> TargetView {
        match self {
            EditorialSelector::Text(text) => TargetView { text: text@, opaque: false },
            EditorialSelector::Opaque(shown) => TargetView { text: shown@, opaque: true },
        }
    }
}

/// The target that a selector becomes: a number becomes the path of its Markdown, and a path stays
/// what it is.
pub open spec fn normalized(
    root: Seq<char>,
    selector: TargetView,
    listing: ContentListing,
) -> Result<TargetView, EditorialFailure> {
    let content = path::path_joined(root, crate::layout::CONTENT_DIR@);
    if selector.opaque {
        Ok(selector)
    } else {
        match proposal::selector_number(selector.text) {
            Ok(number) => match listing {
                ContentListing::Unreadable(_) => Err(EditorialFailure::UnreadableContent(content)),
                ContentListing::Entries(entries) => match proposal::lookup_of(
                    content,
                    entries@,
                    number,
                ) {
                    Ok(file) => Ok(TargetView { text: file, opaque: false }),
                    Err(failure) => Err(EditorialFailure::Lookup(failure)),
                },
            },
            Err(_) => if proposal::number_like(selector.text) {
                Err(EditorialFailure::InvalidNumber(selector.text))
            } else {
                Ok(selector)
            },
        }
    }
}

/// The target that a selector becomes.
pub fn normalize_editorial_selector(
    root_path: &str,
    selector: &EditorialSelector,
    listing: &ContentListing,
) -> (out: Result<EditorialSelector, EditorialError>)
    ensures
        match out {
            Ok(target) => normalized(root_path@, selector@, *listing) == Ok::<
                TargetView,
                EditorialFailure,
            >(target@),
            Err(error) => normalized(root_path@, selector@, *listing) == Err::<
                TargetView,
                EditorialFailure,
            >(error@),
        },
{
    let text = match selector {
        EditorialSelector::Opaque(shown) => {
            return Ok(EditorialSelector::Opaque(shown.clone()));
        },
        EditorialSelector::Text(text) => text,
    };
    let number = match proposal::classify_editorial_number_selector(text.as_str()) {
        EditorialNumberSelector::Number(number) => number,
        EditorialNumberSelector::InvalidNumberLike(_) => {
            return Err(EditorialError::InvalidNumber(text.clone()));
        },
        EditorialNumberSelector::PathLike => {
            return Ok(EditorialSelector::Text(text.clone()));
        },
    };
    let entries = match listing {
        ContentListing::Unreadable(_) => {
            let content = path::join(root_path, crate::layout::CONTENT_DIR);
            return Err(EditorialError::UnreadableContent(content));
        },
        ContentListing::Entries(entries) => entries,
    };
    match proposal::resolve_proposal_number_markdown_path(root_path, entries, number) {
        Ok(file) => Ok(EditorialSelector::Text(file)),
        Err(error) => Err(EditorialError::Lookup(error)),
    }
}

/// The targets that selectors become, in their order, up to the first that fails.
pub fn normalize_editorial_selectors(
    root_path: &str,
    selectors: &Vec<EditorialSelector>,
    listing: &ContentListing,
) -> (out: Result<Vec<EditorialSelector>, EditorialError>)
    ensures
        match out {
            Ok(targets) => targets@.len() == selectors@.len() && forall|i: int|
                0 <= i < targets@.len() ==> normalized(root_path@, selectors@[i]@, *listing)
                    == Ok::<TargetView, EditorialFailure>((#[trigger] targets@[i])@),
            Err(error) => exists|i: int|
                #![trigger selectors@[i]]
                0 <= i < selectors@.len() && normalized(root_path@, selectors@[i]@, *listing)
                    == Err::<TargetView, EditorialFailure>(error@) && forall|k: int|
                    0 <= k < i ==> normalized(
                        root_path@,
                        (#[trigger] selectors@[k])@,
                        *listing,
                    ) is Ok,
        },
{
    let mut targets: Vec<EditorialSelector> = Vec::new();
    let mut i: usize = 0;
    while i < selectors.len()
        invariant
            i <= selectors@.len(),
            targets@.len() == i,
            forall|k: int|
                0 <= k < i ==> normalized(root_path@, (#[trigger] selectors@[k])@, *listing)
                    == Ok::<TargetView, EditorialFailure>(targets@[k]@),
        decreases selectors.len() - i,
    {
        match normalize_editorial_selector(root_path, &selectors[i], listing) {
            Ok(target) => targets.push(target),
            Err(error) => return Err(error),
        }
        i += 1;
    }
    Ok(targets)
}

/// What asking for the canonical form of a target gave.
#[derive(Debug, Clone, PartialEq, Eq)]
pub enum TargetProbe {
    Found(String),
    Missing(String),
    Failed(String),
}

/// The path from the repository that a canonical target has.
pub open spec fn relative_target(
    root: Seq<char>,
    target: Seq<char>,
    canonical: Seq<char>,
) -> Result<Seq<char>, EditorialFailure> {
    if path::absolute(target) {
        Err(EditorialFailure::AbsolutePath(target))
    } else {
        match path::stripped(canonical, root) {
            Some(relative) => Ok(relative),
            None => Err(EditorialFailure::Escapes(target)),
        }
    }
}

/// What a target adds to the list: nothing where it is left out.
pub open spec fn validated(
    root: Seq<char>,
    target: Seq<char>,
    probe: TargetProbe,
    strict: bool,
) -> Result<Option<Seq<char>>, EditorialFailure> {
    let full = path::path_joined(root, target);
    if path::absolute(target) {
        Err(EditorialFailure::AbsolutePath(target))
    } else {
        match probe {
            TargetProbe::Missing(cause) => if strict {
                Err(EditorialFailure::Unresolved { path: full, cause: cause@ })
            } else {
                Ok(None)
            },
            TargetProbe::Failed(cause) => Err(
                EditorialFailure::Unresolved { path: full, cause: cause@ },
            ),
            TargetProbe::Found(canonical) => match relative_target(root, target, canonical@) {
                Err(failure) => Err(failure),
                Ok(relative) => if proposal::proposal_path(relative) {
                    Ok(Some(relative))
                } else if strict {
                    Err(EditorialFailure::NotProposal(relative))
                } else {
                    Ok(None)
                },
            },
        }
    }
}

/// The targets in their order, each once, or why the first that fails does.
pub open spec fn validated_all(
    root: Seq<char>,
    targets: Seq<Seq<char>>,
    probes: Seq<TargetProbe>,
    strict: bool,
) -> Result<Seq<Seq<char>>, EditorialFailure>
    decreases targets.len(),
{
    if targets.len() == 0 {
        Ok(Seq::empty())
    } else {
        match validated_all(root, targets.drop_last(), probes, strict) {
            Err(failure) => Err(failure),
            Ok(before) => match validated(
                root,
                targets.last(),
                probes[targets.len() - 1],
                strict,
            ) {
                Err(failure) => Err(failure),
                Ok(None) => Ok(before),
                Ok(Some(relative)) => if path_set::holds_path(
                    before,
                    path::components_of(relative),
                ) {
                    Ok(before)
                } else {
                    Ok(before.push(relative))
                },
            },
        }
    }
}

/// What the selectors of a strict selection come to.
pub open spec fn strict_targets(found: Result<Seq<Seq<char>>, EditorialFailure>, strict: bool) -> Result<
    Seq<Seq<char>>,
    EditorialFailure,
> {
    match found {
        Ok(targets) => if strict && targets.len() == 0 {
            Err(EditorialFailure::NoTargets)
        } else {
            Ok(targets)
        },
        Err(failure) => Err(failure),
    }
}

/// The path from the repository that a canonical target has.
fn repo_relative_canonical_path(root_path: &str, target: &str, canonical_path: &str) -> (out: Result<
    String,
    EditorialError,
>)
    ensures
        match out {
            Ok(relative) => relative_target(root_path@, target@, canonical_path@) == Ok::<
                Seq<char>,
                EditorialFailure,
            >(relative@),
            Err(error) => relative_target(root_path@, target@, canonical_path@) == Err::<
                Seq<char>,
                EditorialFailure,
            >(error@),
        },
{
    if path::is_absolute(target) {
        return Err(EditorialError::AbsolutePath(target.to_owned()));
    }
    match path::strip_prefix(canonical_path, root_path) {
        Some(relative) => Ok(relative),
        None => Err(EditorialError::Escapes(target.to_owned())),
    }
}

/// What a target adds to the list.
fn validate_target(root_path: &str, target: &str, probe: &TargetProbe, strict: bool) -> (out: Result<
    Option<String>,
    EditorialError,
>)
    ensures
        match out {
            Ok(found) => validated(root_path@, target@, *probe, strict) == Ok::<
                Option<Seq<char>>,
                EditorialFailure,
            >(text::optional(found)),
            Err(error) => validated(root_path@, target@, *probe, strict) == Err::<
                Option<Seq<char>>,
                EditorialFailure,
            >(error@),
        },
{
    if path::is_absolute(target) {
        return Err(EditorialError::AbsolutePath(target.to_owned()));
    }
    let full = path::join(root_path, target);
    match probe {
        TargetProbe::Missing(cause) => {
            if strict {
                Err(EditorialError::Unresolved { path: full, cause: cause.clone() })
            } else {
                Ok(None)
            }
        },
        TargetProbe::Failed(cause) => Err(
            EditorialError::Unresolved { path: full, cause: cause.clone() },
        ),
        TargetProbe::Found(canonical) => {
            match repo_relative_canonical_path(root_path, target, canonical.as_str()) {
                Err(error) => Err(error),
                Ok(relative) => {
                    if proposal::is_proposal_path(relative.as_str()) {
                        Ok(Some(relative))
                    } else if strict {
                        Err(EditorialError::NotProposal(relative))
                    } else {
                        Ok(None)
                    }
                },
            }
        },
    }
}

/// Whether a path is among others, by its components.
fn is_listed(list: &Vec<String>, file: &str) -> (yes: bool)
    ensures
        yes == path_set::holds_path(text::views(list@), path::components_of(file@)),
{
    let ghost all = text::views(list@);
    let mut i: usize = 0;
    while i < list.len()
        invariant
            i <= list@.len(),
            all == text::views(list@),
            forall|k: int|
                0 <= k < i ==> path::components_of(#[trigger] all[k]) != path::components_of(
                    file@,
                ),
        decreases list.len() - i,
    {
        assert(all[i as int] == list@[i as int]@);
        if path::equal(list[i].as_str(), file) {
            return true;
        }
        i += 1;
    }
    false
}

proof fn validation_stays_failed(
    root: Seq<char>,
    targets: Seq<Seq<char>>,
    probes: Seq<TargetProbe>,
    strict: bool,
    n: int,
)
    requires
        0 <= n <= targets.len(),
        validated_all(root, targets.take(n), probes, strict) is Err,
    ensures
        validated_all(root, targets, probes, strict) == validated_all(
            root,
            targets.take(n),
            probes,
            strict,
        ),
    decreases targets.len(),
{
    if n == targets.len() {
        assert(targets.take(n) =~= targets);
    } else {
        assert(targets.drop_last().take(n) =~= targets.take(n));
        validation_stays_failed(root, targets.drop_last(), probes, strict, n);
    }
}

/// The proposals among targets, as paths of the repository, in order and each once. With `strict`
/// each target must be there and be a proposal, and there must be one.
pub fn validate_editorial_targets(
    root_path: &str,
    targets: &Vec<String>,
    probes: &Vec<TargetProbe>,
    strict: bool,
) -> (out: Result<Vec<String>, EditorialError>)
    requires
        probes@.len() == targets@.len(),
    ensures
        match out {
            Ok(list) => strict_targets(
                validated_all(root_path@, text::views(targets@), probes@, strict),
                strict,
            ) == Ok::<Seq<Seq<char>>, EditorialFailure>(text::views(list@)),
            Err(error) => strict_targets(
                validated_all(root_path@, text::views(targets@), probes@, strict),
                strict,
            ) == Err::<Seq<Seq<char>>, EditorialFailure>(error@),
        },
{
    let ghost all = text::views(targets@);
    let mut list: Vec<String> = Vec::new();
    let mut i: usize = 0;
    assert(all.take(0) =~= Seq::empty());
    assert(text::views(list@) =~= Seq::empty());
    while i < targets.len()
        invariant
            i <= targets@.len(),
            probes@.len() == targets@.len(),
            all == text::views(targets@),
            validated_all(root_path@, all.take(i as int), probes@, strict) == Ok::<
                Seq<Seq<char>>,
                EditorialFailure,
            >(text::views(list@)),
        decreases targets.len() - i,
    {
        let ghost before = list@;
        proof {
            assert(all.take(i + 1).drop_last() =~= all.take(i as int));
            assert(all.take(i + 1).last() == targets@[i as int]@);
        }
        match validate_target(root_path, targets[i].as_str(), &probes[i], strict) {
            Err(error) => {
                proof {
                    validation_stays_failed(root_path@, all, probes@, strict, i + 1);
                }
                return Err(error);
            },
            Ok(None) => {},
            Ok(Some(relative)) => {
                if !is_listed(&list, relative.as_str()) {
                    assert(text::views(before.push(relative)) =~= text::views(before).push(
                        relative@,
                    ));
                    list.push(relative);
                }
            },
        }
        i += 1;
    }
    assert(all.take(i as int) =~= all);
    assert(text::views(list@).len() == list@.len());
    if strict && list.len() == 0 {
        return Err(EditorialError::NoTargets);
    }
    Ok(list)
}

/// What stands at a target of the prepared repository.
#[derive(Debug, Clone, PartialEq, Eq)]
pub enum PreparedProbe {
    File,
    NotFile,
    Missing,
    CannotOpen(String),
    CannotInspect(String),
}

/// Why a target of the prepared repository cannot be used.
pub open spec fn prepared_failure(
    prepared: Seq<char>,
    target: Seq<char>,
    probe: PreparedProbe,
) -> Option<EditorialFailure> {
    let full = path::path_joined(prepared, target);
    if path::absolute(target) {
        Some(EditorialFailure::AbsolutePath(target))
    } else {
        match probe {
            PreparedProbe::File => None,
            PreparedProbe::NotFile => Some(EditorialFailure::NotFile(target)),
            PreparedProbe::Missing => Some(EditorialFailure::NotMaterialized(target)),
            PreparedProbe::CannotOpen(cause) => Some(
                EditorialFailure::CannotOpen { path: full, cause: cause@ },
            ),
            PreparedProbe::CannotInspect(cause) => Some(
                EditorialFailure::CannotInspect { path: full, cause: cause@ },
            ),
        }
    }
}

/// Rejects targets that are no files of the prepared repository: the first that is none.
pub fn validate_prepared_editorial_targets(
    prepared_repo_path: &str,
    targets: &Vec<String>,
    probes: &Vec<PreparedProbe>,
) -> (out: Result<(), EditorialError>)
    requires
        probes@.len() == targets@.len(),
    ensures
        match out {
            Ok(_) => forall|i: int|
                0 <= i < targets@.len() ==> prepared_failure(
                    prepared_repo_path@,
                    (#[trigger] targets@[i])@,
                    probes@[i],
                ) is None,
            Err(error) => exists|i: int|
                #![trigger targets@[i]]
                0 <= i < targets@.len() && prepared_failure(
                    prepared_repo_path@,
                    targets@[i]@,
                    probes@[i],
                ) == Some(error@) && forall|k: int|
                    0 <= k < i ==> prepared_failure(
                        prepared_repo_path@,
                        (#[trigger] targets@[k])@,
                        probes@[k],
                    ) is None,
        },
{
    let mut i: usize = 0;
    while i < targets.len()
        invariant
            i <= targets@.len(),
            probes@.len() == targets@.len(),
            forall|k: int|
                0 <= k < i ==> prepared_failure(
                    prepared_repo_path@,
                    (#[trigger] targets@[k])@,
                    probes@[k],
                ) is None,
        decreases targets.len() - i,
    {
        let target = targets[i].as_str();
        if path::is_absolute(target) {
            return Err(EditorialError::AbsolutePath(target.to_owned()));
        }
        let full = path::join(prepared_repo_path, target);
        match &probes[i] {
            PreparedProbe::File => {},
            PreparedProbe::NotFile => {
                return Err(EditorialError::NotFile(target.to_owned()));
            },
            PreparedProbe::Missing => {
                return Err(EditorialError::NotMaterialized(target.to_owned()));
            },
            PreparedProbe::CannotOpen(cause) => {
                return Err(EditorialError::CannotOpen { path: full, cause: cause.clone() });
            },
            PreparedProbe::CannotInspect(cause) => {
                return Err(EditorialError::CannotInspect { path: full, cause: cause.clone() });
            },
        }
        i += 1;
    }
    Ok(())
}

/// A step of editorial lint.
#[derive(Debug, Clone, Copy, PartialEq, Eq, Structural)]
pub enum LintStep {
    /// Bring the active repository into the build.
    PrepareSource,
    /// Fetch its upstream.
    FetchUpstream,
    /// Find the targets; without any, nothing is left to do.
    ResolveTargets,
    /// Merge the siblings.
    MergeSiblings,
    /// Look for the targets in the build.
    ValidateTargets,
    /// Run the linter.
    Lint,
}

/// The steps up to the targets: targets that differ from upstream need the upstream first.
pub open spec fn steps_to_targets(against_upstream: bool) -> Seq<LintStep> {
    if against_upstream {
        seq![LintStep::PrepareSource, LintStep::FetchUpstream, LintStep::ResolveTargets]
    } else {
        seq![LintStep::ResolveTargets]
    }
}

/// The steps behind the targets: none without a target.
pub open spec fn steps_from_targets(against_upstream: bool, found: bool) -> Seq<LintStep> {
    if !found {
        Seq::empty()
    } else if against_upstream {
        seq![LintStep::MergeSiblings, LintStep::ValidateTargets, LintStep::Lint]
    } else {
        seq![
            LintStep::PrepareSource,
            LintStep::MergeSiblings,
            LintStep::ValidateTargets,
            LintStep::Lint,
        ]
    }
}

/// All steps of a run of editorial lint that finds targets or none.
pub open spec fn lint_order(against_upstream: bool, found: bool) -> Seq<LintStep> {
    steps_to_targets(against_upstream) + steps_from_targets(against_upstream, found)
}

/// The steps of editorial lint up to its targets.
pub fn prepare_editorial_lint(selectors: &EditorialSelectorArgs) -> (out: Vec<LintStep>)
    ensures
        out@ == steps_to_targets(selectors.against_upstream),
{
    let mut steps: Vec<LintStep> = Vec::new();
    if selectors.against_upstream {
        steps.push(LintStep::PrepareSource);
        steps.push(LintStep::FetchUpstream);
    }
    steps.push(LintStep::ResolveTargets);
    assert(steps@ =~= steps_to_targets(selectors.against_upstream));
    steps
}

/// Whether editorial lint runs on the targets, and its steps from there on. Without a target it
/// stops: nothing is merged and nothing linted.
pub fn run_editorial_lint(selectors: &EditorialSelectorArgs, targets: &Vec<String>) -> (out: (
    bool,
    Vec<LintStep>,
))
    ensures
        out.0 == (targets@.len() > 0),
        out.1@ == steps_from_targets(selectors.against_upstream, targets@.len() > 0),
        targets@.len() == 0 ==> !out.1@.contains(LintStep::MergeSiblings) && !out.1@.contains(
            LintStep::Lint,
        ),
{
    let mut steps: Vec<LintStep> = Vec::new();
    if targets.len() == 0 {
        assert(steps@ =~= steps_from_targets(selectors.against_upstream, false));
        return (false, steps);
    }
    if !selectors.against_upstream {
        steps.push(LintStep::PrepareSource);
    }
    steps.push(LintStep::MergeSiblings);
    steps.push(LintStep::ValidateTargets);
    steps.push(LintStep::Lint);
    assert(steps@ =~= steps_from_targets(selectors.against_upstream, true));
    (true, steps)
}

/// A run that finds no target neither merges siblings nor lints.
pub proof fn lint_without_targets_stops(against_upstream: bool)
    ensures
        !lint_order(against_upstream, false).contains(LintStep::MergeSiblings),
        !lint_order(against_upstream, false).contains(LintStep::ValidateTargets),
        !lint_order(against_upstream, false).contains(LintStep::Lint),
{
}

/// A run that finds targets prepares the source once, merges siblings once behind that, and lints
/// once, behind everything else.
pub proof fn lint_follows_the_merge(against_upstream: bool, prepare: int, merge: int, lint: int)
    requires
        0 <= prepare < lint_order(against_upstream, true).len(),
        0 <= merge < lint_order(against_upstream, true).len(),
        0 <= lint < lint_order(against_upstream, true).len(),
        lint_order(against_upstream, true)[prepare] == LintStep::PrepareSource,
        lint_order(against_upstream, true)[merge] == LintStep::MergeSiblings,
        lint_order(against_upstream, true)[lint] == LintStep::Lint,
    ensures
        prepare < merge < lint,
        lint == lint_order(against_upstream, true).len() - 1,
        forall|i: int|
            0 <= i < lint_order(against_upstream, true).len() && (
            #[trigger] lint_order(against_upstream, true)[i]) == LintStep::PrepareSource ==> i
                == prepare,
        forall|i: int|
            0 <= i < lint_order(against_upstream, true).len() && (
            #[trigger] lint_order(against_upstream, true)[i]) == LintStep::MergeSiblings ==> i
                == merge,
{
}

/// Whether or not there are targets, the upstream is fetched only where the selection is made
/// against it.
pub proof fn only_upstream_selections_fetch(against_upstream: bool, found: bool)
    ensures
        lint_order(against_upstream, found).contains(LintStep::FetchUpstream) == against_upstream,
{
    if against_upstream {
        assert(lint_order(against_upstream, found)[1] == LintStep::FetchUpstream);
    }
}

/// A selection that names its targets is refused rather than left without any: it never comes to
/// nothing being linted.
pub proof fn named_targets_are_linted(
    selectors: EditorialSelectorArgs,
    found: Result<Seq<Seq<char>>, EditorialFailure>,
)
    requires
        selectors.paths@.len() > 0 || selectors.batch is Some,
    ensures
        strict_targets(found, is_strict(selectors)) matches Ok(list) ==> list.len() > 0,
{
}

/// The run behind editorial lint: a selection of changed files builds the changes.
pub fn editorial_runtime_execution(
    resolved: ResolvedExecution,
    selectors: &EditorialSelectorArgs,
) -> (out: ResolvedExecution)
    ensures
        out == (ResolvedExecution {
            source_materialization: if selectors.working_tree {
                SourceMaterialization::Dirty
            } else {
                resolved.source_materialization
            },
            ..resolved
        }),
{
    let mut resolved = resolved;
    if selectors.working_tree {
        resolved.source_materialization = SourceMaterialization::Dirty;
    }
    resolved
}

/// Every target that comes out of a selection is a proposal of the repository, and none is there
/// twice.
pub proof fn targets_are_proposals(
    root: Seq<char>,
    targets: Seq<Seq<char>>,
    probes: Seq<TargetProbe>,
    strict: bool,
)
    ensures
        validated_all(root, targets, probes, strict) matches Ok(list) ==> (forall|i: int|
            0 <= i < list.len() ==> proposal::proposal_path(#[trigger] list[i])) && (forall|
            i: int,
            j: int,
        |
            0 <= i < j < list.len() ==> !path::same_path(#[trigger] list[i], #[trigger] list[j])),
    decreases targets.len(),
{
    if targets.len() > 0 {
        targets_are_proposals(root, targets.drop_last(), probes, strict);
    }
}

proof fn validated_prefix(
    root: Seq<char>,
    targets: Seq<Seq<char>>,
    probes: Seq<TargetProbe>,
    strict: bool,
    i: int,
)
    requires
        0 <= i < targets.len(),
        validated_all(root, targets, probes, strict) is Ok,
    ensures
        validated(root, targets[i], probes[i], strict) is Ok,
        validated(root, targets[i], probes[i], strict) matches Ok(Some(relative))
            ==> path_set::holds_path(
            validated_all(root, targets, probes, strict)->Ok_0,
            path::components_of(relative),
        ),
    decreases targets.len(),
{
    let before = validated_all(root, targets.drop_last(), probes, strict)->Ok_0;
    let list = validated_all(root, targets, probes, strict)->Ok_0;
    assert(targets[targets.len() - 1] == targets.last());
    if i == targets.len() - 1 {
        if let Ok(Some(relative)) = validated(root, targets[i], probes[i], strict) {
            let key = path::components_of(relative);
            if !path_set::holds_path(before, key) {
                assert(path::components_of(list[list.len() - 1]) == key);
            }
        }
    } else {
        assert(targets.drop_last()[i] == targets[i]);
        validated_prefix(root, targets.drop_last(), probes, strict, i);
        if let Ok(Some(relative)) = validated(root, targets[i], probes[i], strict) {
            let key = path::components_of(relative);
            let k = choose|k: int|
                0 <= k < before.len() && path::components_of(#[trigger] before[k]) == key;
            assert(path::components_of(list[k]) == key);
        }
    }
}

/// Every target that is a proposal is linted: where a selection succeeds, strict or not, each target
/// that is found in the repository at the path of a proposal is in the list.
pub proof fn found_proposals_are_targets(
    root: Seq<char>,
    targets: Seq<Seq<char>>,
    probes: Seq<TargetProbe>,
    strict: bool,
    i: int,
    canonical: String,
    relative: Seq<char>,
)
    requires
        strict_targets(validated_all(root, targets, probes, strict), strict) is Ok,
        0 <= i < targets.len(),
        probes[i] == TargetProbe::Found(canonical),
        path::stripped(canonical@, root) == Some(relative),
        proposal::proposal_path(relative),
    ensures
        path_set::holds_path(
            strict_targets(validated_all(root, targets, probes, strict), strict)->Ok_0,
            path::components_of(relative),
        ),
{
    validated_prefix(root, targets, probes, strict, i);
}

/// A strict selection that succeeds found every target, in the repository, as a proposal; and no
/// selection succeeds with a target that is absolute, stands outside the repository, or could not be
/// looked at.
pub proof fn bad_targets_are_refused(
    root: Seq<char>,
    targets: Seq<Seq<char>>,
    probes: Seq<TargetProbe>,
    strict: bool,
    i: int,
)
    requires
        strict_targets(validated_all(root, targets, probes, strict), strict) is Ok,
        0 <= i < targets.len(),
    ensures
        targets[i].len() > 0 ==> targets[i][0] != '/',
        !(probes[i] is Failed),
        probes[i] matches TargetProbe::Found(canonical) ==> path::under(canonical@, root),
        strict ==> probes[i] is Found && proposal::proposal_path(
            path::stripped(probes[i]->Found_0@, root)->0,
        ),
{
    validated_prefix(root, targets, probes, strict, i);
}

/// A selection that is not strict fails for nothing else: targets that are gone, or are no
/// proposals, are passed over.
pub proof fn other_files_are_passed_over(
    root: Seq<char>,
    targets: Seq<Seq<char>>,
    probes: Seq<TargetProbe>,
)
    requires
        targets.len() == probes.len(),
        forall|i: int|
            0 <= i < targets.len() ==> !path::absolute(#[trigger] targets[i]) && (match probes[i] {
                TargetProbe::Found(canonical) => path::under(canonical@, root),
                TargetProbe::Missing(_) => true,
                TargetProbe::Failed(_) => false,
            }),
    ensures
        strict_targets(validated_all(root, targets, probes, false), false) is Ok,
    decreases targets.len(),
{
    if targets.len() > 0 {
        let before = targets.drop_last();
        assert forall|i: int| 0 <= i < before.len() implies !path::absolute(#[trigger] before[i])
            && (match probes.drop_last()[i] {
            TargetProbe::Found(canonical) => path::under(canonical@, root),
            TargetProbe::Missing(_) => true,
            TargetProbe::Failed(_) => false,
        }) by {
            assert(before[i] == targets[i]);
        }
        other_files_are_passed_over(root, before, probes.drop_last());
        validated_needs_no_more(root, before, probes, false);
        assert(!path::absolute(targets[targets.len() - 1]));
    }
}

proof fn validated_needs_no_more(
    root: Seq<char>,
    targets: Seq<Seq<char>>,
    probes: Seq<TargetProbe>,
    strict: bool,
)
    requires
        targets.len() < probes.len(),
    ensures
        validated_all(root, targets, probes, strict) == validated_all(
            root,
            targets,
            probes.drop_last(),
            strict,
        ),
    decreases targets.len(),
{
    if targets.len() > 0 {
        validated_needs_no_more(root, targets.drop_last(), probes, strict);
    }
}

/// A batch names one target for each line that is neither blank nor a comment, without the white
/// space around it, and nothing else.
pub proof fn batches_name_their_lines(lines: Seq<Seq<char>>, i: int)
    requires
        0 <= i < lines.len(),
    ensures
        text::trimmed(lines[i]).len() > 0 && text::trimmed(lines[i])[0] != '#' ==> batch_entries(
            lines,
        ).contains(text::trimmed(lines[i])),
    decreases lines.len(),
{
    let line = text::trimmed(lines[i]);
    if line.len() > 0 && line[0] != '#' {
        let all = batch_entries(lines);
        if i == lines.len() - 1 {
            assert(all[all.len() - 1] == line);
        } else {
            batches_name_their_lines(lines.drop_last(), i);
            let before = batch_entries(lines.drop_last());
            let k = choose|k: int| 0 <= k < before.len() && before[k] == line;
            assert(all[k] == line);
        }
    }
}

/// Each target of a batch is a line of it, without the white space around it, and no comment.
pub proof fn batch_targets_are_lines(lines: Seq<Seq<char>>, k: int) -> (i: int)
    requires
        0 <= k < batch_entries(lines).len(),
    ensures
        0 <= i < lines.len(),
        batch_entries(lines)[k] == text::trimmed(lines[i]),
        batch_entries(lines)[k].len() > 0,
        batch_entries(lines)[k][0] != '#',
    decreases lines.len(),
{
    let before = batch_entries(lines.drop_last());
    if k < before.len() {
        batch_targets_are_lines(lines.drop_last(), k)
    } else {
        lines.len() - 1
    }
}

/// A selector made of digits with a positive value that fits stands for the Markdown of that number;
/// one with any character besides digits, signs and commas, or of bytes that are no text, is a path
/// and stays as it is; and everything else is refused as a number.
pub proof fn selectors_are_numbers_or_paths(
    root: Seq<char>,
    selector: TargetView,
    entries: Vec<ContentEntry>,
)
    ensures
        selector.opaque ==> normalized(root, selector, ContentListing::Entries(entries)) == Ok::<
            TargetView,
            EditorialFailure,
        >(selector),
        (exists|i: int|
            0 <= i < selector.text.len() && !text::is_digit(#[trigger] selector.text[i])
                && selector.text[i] != '+' && selector.text[i] != '-' && selector.text[i] != ',')
            ==> normalized(root, selector, ContentListing::Entries(entries)) == Ok::<
            TargetView,
            EditorialFailure,
        >(selector),
        !selector.opaque && selector.text.len() > 0 && text::all_digits(selector.text) && 0
            < text::decimal_value(selector.text) <= u32::MAX ==> (match proposal::lookup_of(
            path::path_joined(root, "content"@),
            entries@,
            text::decimal_value(selector.text) as u32,
        ) {
            Ok(file) => normalized(root, selector, ContentListing::Entries(entries)) == Ok::<
                TargetView,
                EditorialFailure,
            >(TargetView { text: file, opaque: false }),
            Err(failure) => normalized(root, selector, ContentListing::Entries(entries)) == Err::<
                TargetView,
                EditorialFailure,
            >(EditorialFailure::Lookup(failure)),
        }),
        !selector.opaque && selector.text.len() > 0 && (forall|i: int|
            0 <= i < selector.text.len() ==> text::is_digit(#[trigger] selector.text[i])
                || selector.text[i] == '+' || selector.text[i] == '-' || selector.text[i] == ',')
            && (!text::all_digits(selector.text) || text::decimal_value(selector.text) == 0
            || text::decimal_value(selector.text) > u32::MAX) ==> normalized(
            root,
            selector,
            ContentListing::Entries(entries),
        ) == Err::<TargetView, EditorialFailure>(EditorialFailure::InvalidNumber(selector.text)),
{
}

/// Exactly one way of selecting is used where one is used and the other three are not.
pub proof fn one_way_excludes_the_others(selectors: EditorialSelectorArgs)
    ensures
        selectors.ways() == 1 <==> {
            let given = selectors.paths@.len() > 0;
            let batch = selectors.batch is Some;
            let tree = selectors.working_tree;
            let upstream = selectors.against_upstream;
            ||| given && !batch && !tree && !upstream
            ||| !given && batch && !tree && !upstream
            ||| !given && !batch && tree && !upstream
            ||| !given && !batch && !tree && upstream
        },
{
}

/// A target is used exactly where its path is relative and a file stands there in the prepared
/// repository.
pub proof fn only_prepared_files_are_linted(
    prepared: Seq<char>,
    target: Seq<char>,
    probe: PreparedProbe,
)
    ensures
        prepared_failure(prepared, target, probe) is None <==> probe is File && !(target.len() > 0
            && target[0] == '/'),
        probe is Missing && !(target.len() > 0 && target[0] == '/') ==> prepared_failure(
            prepared,
            target,
            probe,
        ) == Some(EditorialFailure::NotMaterialized(target)),
        probe is NotFile && !(target.len() > 0 && target[0] == '/') ==> prepared_failure(
            prepared,
            target,
            probe,
        ) == Some(EditorialFailure::NotFile(target)),
{
}

/// A run that finds targets does all of its steps: it prepares the source, finds the targets, merges
/// siblings, looks for the targets in the build, and lints.
pub proof fn targets_are_prepared_and_linted(against_upstream: bool)
    ensures
        ({
            let steps = lint_order(against_upstream, true);
            &&& steps.contains(LintStep::PrepareSource)
            &&& steps.contains(LintStep::ResolveTargets)
            &&& steps.contains(LintStep::MergeSiblings)
            &&& steps.contains(LintStep::ValidateTargets)
            &&& steps.last() == LintStep::Lint
        }),
        lint_order(against_upstream, false).contains(LintStep::ResolveTargets),
{
    let steps = lint_order(against_upstream, true);
    let n = steps.len() as int;
    assert(steps[n - 2] == LintStep::ValidateTargets);
    assert(steps[n - 3] == LintStep::MergeSiblings);
    if against_upstream {
        assert(steps[0] == LintStep::PrepareSource && steps[2] == LintStep::ResolveTargets);
        assert(lint_order(against_upstream, false)[2] == LintStep::ResolveTargets);
    } else {
        assert(steps[0] == LintStep::ResolveTargets && steps[1] == LintStep::PrepareSource);
        assert(lint_order(against_upstream, false)[0] == LintStep::ResolveTargets);
    }
}

/// A strict selection of targets that are all found as proposals of the repository succeeds, unless it
/// is empty.
pub proof fn found_proposals_can_be_selected(
    root: Seq<char>,
    targets: Seq<Seq<char>>,
    probes: Seq<TargetProbe>,
    strict: bool,
)
    requires
        targets.len() > 0,
        targets.len() == probes.len(),
        forall|i: int|
            0 <= i < targets.len() ==> !path::absolute(#[trigger] targets[i])
                && probes[i] is Found && path::under(probes[i]->Found_0@, root)
                && proposal::proposal_path(path::stripped(probes[i]->Found_0@, root)->0),
    ensures
        strict_targets(validated_all(root, targets, probes, strict), strict) matches Ok(list)
            && list.len() > 0,
{
    proposals_are_validated(root, targets, probes, strict);
}

proof fn proposals_are_validated(
    root: Seq<char>,
    targets: Seq<Seq<char>>,
    probes: Seq<TargetProbe>,
    strict: bool,
)
    requires
        targets.len() <= probes.len(),
        forall|i: int|
            0 <= i < targets.len() ==> !path::absolute(#[trigger] targets[i])
                && probes[i] is Found && path::under(probes[i]->Found_0@, root)
                && proposal::proposal_path(path::stripped(probes[i]->Found_0@, root)->0),
    ensures
        validated_all(root, targets, probes, strict) matches Ok(list) && (targets.len() > 0
            ==> list.len() > 0),
    decreases targets.len(),
{
    if targets.len() > 0 {
        let before = targets.drop_last();
        assert forall|i: int| 0 <= i < before.len() implies !path::absolute(#[trigger] before[i])
            && probes[i] is Found && path::under(probes[i]->Found_0@, root)
            && proposal::proposal_path(path::stripped(probes[i]->Found_0@, root)->0) by {
            assert(before[i] == targets[i]);
        }
        proposals_are_validated(root, before, probes, strict);
        assert(!path::absolute(targets[targets.len() - 1]));
        let earlier = validated_all(root, before, probes, strict)->Ok_0;
        let relative = path::stripped(probes[targets.len() - 1]->Found_0@, root)->0;
        if path_set::holds_path(earlier, path::components_of(relative)) {
            let k = choose|k: int|
                0 <= k < earlier.len() && path::components_of(#[trigger] earlier[k])
                    == path::components_of(relative);
            assert(earlier.len() > 0);
        }
    }
}

} // verus!
