//! Links between Markdown files: where they point, and how they are written for the site.

use vstd::prelude::*;

use crate::iri::{Reference, ReferenceView};
use crate::only::OnlyRenderPlan;
use crate::path;
use crate::text;

verus! {

/// What asking for the canonical form of a path gave.
#[derive(Debug, Clone, PartialEq, Eq)]
pub enum Canonical {
    /// The canonical path.
    Found(String),
    /// There is none, and why.
    Missing(String),
}

/// The paths at which the target of a link may stand. The second is for where the first has no
/// canonical form; there is none where the first is no Markdown path.
#[derive(Debug, Clone, PartialEq, Eq)]
pub struct LinkProbe {
    pub child: String,
    pub alternative: Option<String>,
}

/// What looking for the target of a link gives: the first path that has a canonical form, or else why
/// the first one has none.
pub fn looked_up(child: Canonical, alternative: Option<Canonical>) -> (out: Canonical)
    ensures
        out == (match (child, alternative) {
            (Canonical::Found(_), _) => child,
            (Canonical::Missing(_), Some(Canonical::Found(found))) => Canonical::Found(found),
            (Canonical::Missing(_), _) => child,
        }),
{
    match (child, alternative) {
        (Canonical::Found(found), _) => Canonical::Found(found),
        (Canonical::Missing(_), Some(Canonical::Found(found))) => Canonical::Found(found),
        (Canonical::Missing(cause), _) => Canonical::Missing(cause),
    }
}

/// What a probe stands for.
pub struct ProbeView {
    pub child: Seq<char>,
    pub alternative: Option<Seq<char>>,
}

impl View for LinkProbe {
    type V = ProbeView;

    open spec fn view(&self) -> ProbeView {
        ProbeView { child: self.child@, alternative: text::optional(self.alternative) }
    }
}

/// Why a link cannot be written.
#[derive(Debug, Clone, PartialEq, Eq)]
pub enum LinkError {
    /// The destination is no valid reference.
    InvalidUrl(String),
    /// Neither path of the target has a canonical form.
    NoTarget { child: String, alternative: String, cause: String },
    /// The target has no canonical form and is no Markdown path.
    NotMarkdown(String),
    /// The content directory has no canonical form.
    NoRoot { root: String, cause: String },
    /// The target stands outside the content directory.
    OutsideRoot(String),
    /// The path of the target is no path of a reference.
    InvalidPath(String),
}

/// What a link error stands for.
pub enum LinkFailure {
    InvalidUrl(Seq<char>),
    NoTarget { child: Seq<char>, alternative: Seq<char>, cause: Seq<char> },
    NotMarkdown(Seq<char>),
    NoRoot { root: Seq<char>, cause: Seq<char> },
    OutsideRoot(Seq<char>),
    InvalidPath(Seq<char>),
}

impl View for LinkError {
    type V = LinkFailure;

    open spec fn view(&self) -> LinkFailure {
        match self {
            LinkError::InvalidUrl(dest) => LinkFailure::InvalidUrl(dest@),
            LinkError::NoTarget { child, alternative, cause } => LinkFailure::NoTarget {
                child: child@,
                alternative: alternative@,
                cause: cause@,
            },
            LinkError::NotMarkdown(child) => LinkFailure::NotMarkdown(child@),
            LinkError::NoRoot { root, cause } => LinkFailure::NoRoot { root: root@, cause: cause@ },
            LinkError::OutsideRoot(target) => LinkFailure::OutsideRoot(target@),
            LinkError::InvalidPath(target) => LinkFailure::InvalidPath(target@),
        }
    }
}

/// Where the links of a Markdown file are seen from.
pub struct LinkContext<'a> {
    /// The content directory.
    pub root: &'a str,
    /// The canonical form of the content directory.
    pub canonical_root: &'a Canonical,
    /// The directory of the file.
    pub parent: &'a str,
    /// The selection of proposals that is rendered, where not all are.
    pub plan: Option<&'a OnlyRenderPlan>,
}

/// The path under the content directory, or under the directory of the file, that a path of a link
/// names.
pub open spec fn link_child(root: Seq<char>, parent: Seq<char>, target: Seq<char>) -> Seq<char> {
    if path::absolute(target) {
        path::path_joined(root, path::text_from(target, 1))
    } else {
        path::path_joined(parent, target)
    }
}

/// The other path at which the Markdown of `child` may stand: beside its directory for an index
/// file, as an index file otherwise.
pub open spec fn alternative_of(child: Seq<char>) -> Option<Seq<char>> {
    if path::extension_of(child) != Some("md"@) {
        None
    } else if path::file_name_of(child) == Some("index.md"@) {
        let directory = path::parent_of(child)->0;
        Some(
            if path::file_name_of(directory) is Some {
                path::extensionless(directory) + ".md"@
            } else {
                directory
            },
        )
    } else {
        Some(path::path_joined(path::extensionless(child), "index.md"@))
    }
}

/// The paths at which a target may stand.
pub open spec fn probe_for(root: Seq<char>, parent: Seq<char>, target: Seq<char>) -> ProbeView {
    let child = link_child(root, parent, target);
    ProbeView { child, alternative: alternative_of(child) }
}

/// Whether a reference points to Markdown of this site: it has no authority, and its path ends with
/// the extension.
pub open spec fn points_to_markdown(parts: ReferenceView) -> bool {
    parts.authority is None && text::has_suffix(parts.path, ".md"@)
}

/// A path as the site writes it, from the content directory.
pub open spec fn at_path(relative: Seq<char>) -> Seq<char> {
    "@/"@ + relative
}

/// The public address of what stands at a path, where the plan gives one.
pub open spec fn external_at(
    plan: Option<&OnlyRenderPlan>,
    root: Seq<char>,
    target: Seq<char>,
) -> Option<Seq<char>> {
    match (plan, path::stripped(target, root)) {
        (Some(plan), Some(relative)) => plan.external_for(relative),
        _ => None,
    }
}

/// The public address of a target that has a canonical form, where the plan gives one.
pub open spec fn external_canonical(
    plan: Option<&OnlyRenderPlan>,
    canonical_root: Canonical,
    target: Seq<char>,
) -> Option<Seq<char>> {
    match canonical_root {
        Canonical::Found(root) => external_at(plan, root@, target),
        Canonical::Missing(_) => None,
    }
}

/// The public address of a target that has no canonical form, such as one that was pruned.
pub open spec fn external_lexical(
    plan: Option<&OnlyRenderPlan>,
    root: Seq<char>,
    probe: ProbeView,
) -> Option<Seq<char>> {
    match external_at(plan, root, probe.child) {
        Some(url) => Some(url),
        None => match probe.alternative {
            Some(other) => external_at(plan, root, other),
            None => None,
        },
    }
}

/// An address with the query and the fragment of a reference.
pub open spec fn carried_over(url: Seq<char>, parts: ReferenceView) -> Seq<char> {
    let with_query = match parts.query {
        Some(query) => url.push('?') + query,
        None => url,
    };
    match parts.fragment {
        Some(fragment) => with_query.push('#') + fragment,
        None => with_query,
    }
}

/// Where a target stands.
pub enum Place {
    /// At this address outside the site.
    External(Seq<char>),
    /// At this path of the site.
    Internal(Seq<char>),
}

/// Where the target of a path stands, given what probing for it gave.
pub open spec fn place_of(
    root: Seq<char>,
    canonical_root: Canonical,
    plan: Option<&OnlyRenderPlan>,
    probe: ProbeView,
    outcome: Canonical,
) -> Result<Place, LinkFailure> {
    match outcome {
        Canonical::Found(target) => match external_canonical(plan, canonical_root, target@) {
            Some(url) => Ok(Place::External(url)),
            None => match canonical_root {
                Canonical::Missing(cause) => Err(LinkFailure::NoRoot { root, cause: cause@ }),
                Canonical::Found(base) => match path::stripped(target@, base@) {
                    Some(relative) => Ok(Place::Internal(at_path(relative))),
                    None => Err(LinkFailure::OutsideRoot(target@)),
                },
            },
        },
        Canonical::Missing(cause) => match external_lexical(plan, root, probe) {
            Some(url) => Ok(Place::External(url)),
            None => match probe.alternative {
                Some(alternative) => Err(
                    LinkFailure::NoTarget { child: probe.child, alternative, cause: cause@ },
                ),
                None => Err(LinkFailure::NotMarkdown(probe.child)),
            },
        },
    }
}

/// What a place is for executable code.
pub enum LinkPlace {
    External(String),
    Internal(String),
}

impl View for LinkPlace {
    type V = Place;

    open spec fn view(&self) -> Place {
        match self {
            LinkPlace::External(url) => Place::External(url@),
            LinkPlace::Internal(target) => Place::Internal(target@),
        }
    }
}

/// The other path at which the Markdown of `child` may stand.
fn alternative(child: &str) -> (out: Option<String>)
    ensures
        text::optional(out) == alternative_of(child@),
{
    if !path::has_extension(child, "md") {
        return None;
    }
    let is_index = match path::file_name(child) {
        Some(name) => text::text_eq(name.as_str(), "index.md"),
        None => false,
    };
    if is_index {
        match path::parent(child) {
            Some(directory) => {
                if path::file_name(directory.as_str()).is_some() {
                    let mut other = path::without_extension(directory.as_str());
                    other.append(".md");
                    Some(other)
                } else {
                    Some(directory)
                }
            },
            None => {
                proof {
                    path::named_path_has_parent(child@);
                }
                None
            },
        }
    } else {
        let base = path::without_extension(child);
        Some(path::join(base.as_str(), "index.md"))
    }
}

/// The paths at which a target may stand.
pub fn probe(root: &str, parent: &str, target: &str) -> (out: LinkProbe)
    ensures
        out@ == probe_for(root@, parent@, target@),
{
    let child = if path::is_absolute(target) {
        let relative = path::after_root(target);
        path::join(root, relative.as_str())
    } else {
        path::join(parent, target)
    };
    let other = alternative(child.as_str());
    LinkProbe { child, alternative: other }
}

/// Whether a reference points to Markdown of this site.
pub fn is_markdown_reference(reference: &Reference) -> (yes: bool)
    ensures
        yes == points_to_markdown(reference@),
{
    reference.authority.is_none() && text::ends_with(reference.path.as_str(), ".md")
}

/// The public address of what stands at a path, where the plan gives one.
fn external(plan: Option<&OnlyRenderPlan>, root: &str, target: &str) -> (url: Option<String>)
    ensures
        text::optional(url) == external_at(plan, root@, target@),
{
    match plan {
        None => None,
        Some(plan) => match path::strip_prefix(target, root) {
            Some(relative) => plan.external_url_for_canonical_target(relative.as_str()),
            None => None,
        },
    }
}

/// Where the target of a path stands, given what probing for it gave.
pub fn place(
    context: &LinkContext,
    probe: &LinkProbe,
    outcome: &Canonical,
) -> (out: Result<LinkPlace, LinkError>)
    ensures
        match out {
            Ok(place) => place_of(
                context.root@,
                *context.canonical_root,
                context.plan,
                probe@,
                *outcome,
            ) == Ok::<Place, LinkFailure>(place@),
            Err(error) => place_of(
                context.root@,
                *context.canonical_root,
                context.plan,
                probe@,
                *outcome,
            ) == Err::<Place, LinkFailure>(error@),
        },
{
    match outcome {
        Canonical::Found(target) => {
            match context.canonical_root {
                Canonical::Missing(cause) => Err(
                    LinkError::NoRoot { root: context.root.to_owned(), cause: cause.clone() },
                ),
                Canonical::Found(base) => {
                    if let Some(url) = external(context.plan, base.as_str(), target.as_str()) {
                        return Ok(LinkPlace::External(url));
                    }
                    match path::strip_prefix(target.as_str(), base.as_str()) {
                        Some(relative) => {
                            let mut at = "@/".to_owned();
                            at.append(relative.as_str());
                            Ok(LinkPlace::Internal(at))
                        },
                        None => Err(LinkError::OutsideRoot(target.clone())),
                    }
                },
            }
        },
        Canonical::Missing(cause) => {
            if let Some(url) = external(context.plan, context.root, probe.child.as_str()) {
                return Ok(LinkPlace::External(url));
            }
            match &probe.alternative {
                Some(other) => match external(context.plan, context.root, other.as_str()) {
                    Some(url) => Ok(LinkPlace::External(url)),
                    None => Err(
                        LinkError::NoTarget {
                            child: probe.child.clone(),
                            alternative: other.clone(),
                            cause: cause.clone(),
                        },
                    ),
                },
                None => Err(LinkError::NotMarkdown(probe.child.clone())),
            }
        },
    }
}

/// An address with the query and the fragment of a reference.
pub fn carry_over(url: String, reference: &Reference) -> (out: String)
    ensures
        out@ == carried_over(url@, reference@),
{
    let mut out = url;
    if let Some(query) = &reference.query {
        out.push('?');
        out.append(query.as_str());
    }
    if let Some(fragment) = &reference.fragment {
        out.push('#');
        out.append(fragment.as_str());
    }
    out
}

/// The message for a link that cannot be written.
pub open spec fn link_message(failure: LinkFailure) -> Seq<char> {
    match failure {
        LinkFailure::InvalidUrl(_) => "invalid URL in image/link"@,
        LinkFailure::NoTarget { child, alternative, .. } => text::glued(
            seq![
                "could not canonicalize `"@,
                child,
                text::glued(seq!["` or `"@, alternative, "`"@]),
            ],
        ),
        LinkFailure::NotMarkdown(child) => "canonicalizing non-md file: "@ + child,
        LinkFailure::NoRoot { root, .. } => text::glued(
            seq!["could not canonicalize `"@, root, "`"@],
        ),
        LinkFailure::OutsideRoot(_) => "child not in root"@,
        LinkFailure::InvalidPath(_) => "path is valid IRI"@,
    }
}

impl LinkError {
    /// The message of the error.
    pub fn message(&self) -> (out: String)
        ensures
            out@ == link_message(self@),
    {
        match self {
            LinkError::InvalidUrl(_) => "invalid URL in image/link".to_owned(),
            LinkError::NoTarget { child, alternative, .. } => {
                let tail = text::wrap("` or `", alternative.as_str(), "`");
                text::wrap("could not canonicalize `", child.as_str(), tail.as_str())
            },
            LinkError::NotMarkdown(child) => {
                let mut message = "canonicalizing non-md file: ".to_owned();
                message.append(child.as_str());
                message
            },
            LinkError::NoRoot { root, .. } => text::wrap(
                "could not canonicalize `",
                root.as_str(),
                "`",
            ),
            LinkError::OutsideRoot(_) => "child not in root".to_owned(),
            LinkError::InvalidPath(_) => "path is valid IRI".to_owned(),
        }
    }
}

/// Without a selection, a target that has a canonical form below the content directory is linked by its
/// path from there, behind `@/`; one outside it, and one that has none, is an error.
pub proof fn targets_are_linked_from_the_content(
    root: Seq<char>,
    canonical_root: Canonical,
    probe: ProbeView,
    outcome: Canonical,
)
    ensures
        match (outcome, canonical_root) {
            (Canonical::Found(target), Canonical::Found(base)) => match path::stripped(
                target@,
                base@,
            ) {
                Some(relative) => place_of(root, canonical_root, None, probe, outcome) == Ok::<
                    Place,
                    LinkFailure,
                >(Place::Internal("@/"@ + relative)),
                None => place_of(root, canonical_root, None, probe, outcome) is Err,
            },
            _ => place_of(root, canonical_root, None, probe, outcome) is Err,
        },
{
}

/// Markdown that is looked for may stand in two ways: a file `name.md` as the `index.md` of a directory
/// `name`, and such an `index.md` as a file beside the directory.
#[verifier::rlimit(60)]
pub proof fn markdown_stands_in_two_ways(
    dir: Seq<char>,
    name: Seq<char>,
)
    requires
        path::components_of(name) == seq![name],
        path::is_name(name),
        !path::has_start_component(name),
        forall|i: int| 0 <= i < name.len() ==> name[i] != '.' && name[i] != '/',
        name.len() > 0,
        name != "index"@,
    ensures
        alternative_of(path::path_joined(dir, name + ".md"@)) matches Some(other)
            && path::components_of(other) == path::components_of(dir) + seq![name, "index.md"@],
        alternative_of(path::path_joined(path::path_joined(dir, name), "index.md"@)) matches Some(
            other,
        ) && path::components_of(other) == path::components_of(dir) + seq![name + ".md"@],
{
    reveal_strlit(".md");
    reveal_strlit("md");
    reveal_strlit("index.md");
    reveal_strlit("index");
    let base = path::components_of(dir);
    let flat = name + ".md"@;
    path::single_component(name);
    path::single_component(flat);
    path::single_component("index.md"@);
    path::join_appends_components(dir, flat);
    path::join_appends_components(dir, name);
    let file = path::path_joined(dir, flat);
    let folder = path::path_joined(dir, name);
    let index = path::path_joined(folder, "index.md"@);
    path::join_appends_components(folder, "index.md"@);
    assert(path::components_of(file).last() == flat);
    assert(flat =~= name.push('.') + "md"@);
    crate::proposal::dot_behind(name, "md"@);
    assert(flat.skip(name.len() as int + 1) =~= "md"@);
    assert(path::extension_of(file) == Some("md"@));
    assert(flat != "index.md"@) by {
        if flat == "index.md"@ {
            assert(flat.take(5) =~= "index"@);
            assert(flat.len() == 8);
            assert(flat.take(5) =~= name);
        }
    }
    assert(path::stem_of(flat) =~= name) by {
        assert(flat.take(name.len() as int) =~= name);
    }
    path::extensionless_keeps_the_rest(dir, name, ".md"@);
    assert(path::extensionless(file) == folder);
    assert(path::components_of(path::path_joined(folder, "index.md"@)) =~= base + seq![
        name,
        "index.md"@,
    ]);
    assert(path::components_of(index) =~= base + seq![name, "index.md"@]);
    assert(path::components_of(index).last() == "index.md"@);
    assert("index.md"@ =~= "index"@.push('.') + "md"@);
    crate::proposal::dot_behind("index"@, "md"@);
    assert("index.md"@.skip(6) =~= "md"@);
    path::named_path_has_parent(index);
    let directory = path::parent_of(index)->0;
    path::last_span_of_join(dir, name);
    assert(folder.last() == name.last());
    path::parent_of_joined(folder, "index.md"@);
    assert(directory == folder);
    assert(path::components_of(folder).last() == name);
    crate::proposal::no_dot_in(name);
    path::extensionless_keeps_the_rest(dir, name, Seq::empty());
    assert(name + Seq::<char>::empty() =~= name);
    assert(path::extensionless(folder) == folder);
    assert(folder + ".md"@ =~= file);
}

/// With a selection, a target that the selection leaves out is linked by its public address, whether it
/// is there or was pruned, and in whichever of the two ways its Markdown stands; every other target
/// that is there is linked inside the site.
pub proof fn left_out_targets_are_linked_publicly(
    root: Seq<char>,
    canonical_root: Canonical,
    plan: &OnlyRenderPlan,
    probe: ProbeView,
    outcome: Canonical,
)
    ensures
        ({
            let out = place_of(root, canonical_root, Some(plan), probe, outcome);
            match (outcome, canonical_root) {
                (Canonical::Found(target), Canonical::Found(base)) => (path::stripped(
                    target@,
                    base@,
                ) matches Some(relative) ==> out == Ok::<Place, LinkFailure>(
                    match plan.external_for(relative) {
                        Some(url) => Place::External(url),
                        None => Place::Internal("@/"@ + relative),
                    },
                )),
                (Canonical::Missing(_), _) => {
                    let first = match path::stripped(probe.child, root) {
                        Some(relative) => plan.external_for(relative),
                        None => None,
                    };
                    let second = match probe.alternative {
                        Some(other) => match path::stripped(other, root) {
                            Some(relative) => plan.external_for(relative),
                            None => None,
                        },
                        None => None,
                    };
                    match (first, second) {
                        (Some(url), _) => out == Ok::<Place, LinkFailure>(Place::External(url)),
                        (None, Some(url)) => out == Ok::<Place, LinkFailure>(Place::External(url)),
                        (None, None) => out is Err,
                    }
                },
                _ => true,
            }
        }),
{
}

} // verus!
