//! The body of a page: links rewritten for the site, and citations rendered.

use vstd::prelude::*;

use crate::citation;
use crate::citation::CitationFailure;
use crate::events;
use crate::events::{EventView, MarkdownEvent, Piece, PieceView, MARKDOWN_OPTIONS};
use crate::iri;
use crate::iri::{Reference, ReferenceView};
use crate::links;
use crate::links::{
    Canonical, LinkContext, LinkError, LinkFailure, LinkPlace, LinkProbe, Place, ProbeView,
};
use crate::path;
use crate::text;

verus! {

/// The info string of a code block that holds a citation.
pub const CITATION_INFO: &'static str = "csl-json";

/// An event of a body, with the parts of a link's destination where it is a valid reference.
#[derive(Debug, Clone, PartialEq, Eq)]
pub enum Seen {
    Link { dest: String, reference: Option<Reference> },
    Fence(String),
    CodeEnd,
    Text(String),
    Other,
}

/// What a seen event stands for.
pub enum SeenView {
    Link { dest: Seq<char>, reference: Option<ReferenceView> },
    Fence(Seq<char>),
    CodeEnd,
    Text(Seq<char>),
    Other,
}

impl View for Seen {
    type V = SeenView;

    open spec fn view(&self) -> SeenView {
        match self {
            Seen::Link { dest, reference } => SeenView::Link {
                dest: dest@,
                reference: match reference {
                    Some(parts) => Some(parts@),
                    None => None,
                },
            },
            Seen::Fence(info) => SeenView::Fence(info@),
            Seen::CodeEnd => SeenView::CodeEnd,
            Seen::Text(text) => SeenView::Text(text@),
            Seen::Other => SeenView::Other,
        }
    }
}

/// What a list of seen events stands for.
pub open spec fn seen_views(list: Seq<Seen>) -> Seq<SeenView> {
    Seq::new(list.len(), |i: int| list[i]@)
}

/// An event with the parts of its link.
pub open spec fn seen_as(event: EventView) -> SeenView {
    match event {
        EventView::Link(dest) => SeenView::Link {
            dest,
            reference: if iri::is_reference(dest) {
                Some(iri::parts_of(dest))
            } else {
                None
            },
        },
        EventView::Fence(info) => SeenView::Fence(info),
        EventView::CodeEnd => SeenView::CodeEnd,
        EventView::Text(text) => SeenView::Text(text),
        EventView::Other => SeenView::Other,
    }
}

/// The events of a body, with the parts of its links.
pub open spec fn seen_in(body: Seq<char>) -> Seq<SeenView> {
    let found = events::events_of(body, MARKDOWN_OPTIONS);
    Seq::new(found.len(), |i: int| seen_as(found[i]))
}

/// The probe that an event asks for.
pub open spec fn probe_of(event: SeenView, root: Seq<char>, parent: Seq<char>) -> Option<ProbeView> {
    match event {
        SeenView::Link { dest, reference: Some(parts) } => if links::points_to_markdown(parts) {
            Some(links::probe_for(root, parent, parts.path))
        } else {
            None
        },
        _ => None,
    }
}

/// The probes that events ask for, in their order.
pub open spec fn probes_of(seen: Seq<SeenView>, root: Seq<char>, parent: Seq<char>) -> Seq<ProbeView>
    decreases seen.len(),
{
    if seen.len() == 0 {
        Seq::empty()
    } else {
        let before = probes_of(seen.drop_last(), root, parent);
        match probe_of(seen.last(), root, parent) {
            Some(probe) => before.push(probe),
            None => before,
        }
    }
}

/// Why a body cannot be transformed.
#[derive(Debug, Clone, PartialEq, Eq)]
pub enum TransformError {
    Link(LinkError),
    Citation(CitationFailure),
    /// A citation block holds something besides text.
    UnexpectedEvent,
    /// The Markdown cannot be written.
    CannotWrite,
    /// The outcomes are not those of the probes that the body asks for.
    StaleProbes,
}

/// What a transform error stands for.
pub enum TransformFailure {
    Link(LinkFailure),
    Citation(CitationFailure),
    UnexpectedEvent,
    CannotWrite,
    StaleProbes,
}

impl View for TransformError {
    type V = TransformFailure;

    open spec fn view(&self) -> TransformFailure {
        match self {
            TransformError::Link(error) => TransformFailure::Link(error@),
            TransformError::Citation(failure) => TransformFailure::Citation(*failure),
            TransformError::UnexpectedEvent => TransformFailure::UnexpectedEvent,
            TransformError::CannotWrite => TransformFailure::CannotWrite,
            TransformError::StaleProbes => TransformFailure::StaleProbes,
        }
    }
}

/// A piece of the transformed body, before links into the site are written and citations rendered.
#[derive(Debug, Clone, PartialEq, Eq)]
pub enum DraftPiece {
    /// The event of the source at this position.
    Source(usize),
    /// The link at this position, to this address.
    External { at: usize, url: String },
    /// The link at this position, whose destination gets this path.
    Internal { at: usize, dest: String, path: String },
    /// A citation.
    Citation(String),
}

/// What a draft piece stands for.
pub enum DraftView {
    Source(int),
    External { at: int, url: Seq<char> },
    Internal { at: int, dest: Seq<char>, path: Seq<char> },
    Citation(Seq<char>),
}

impl View for DraftPiece {
    type V = DraftView;

    open spec fn view(&self) -> DraftView {
        match self {
            DraftPiece::Source(at) => DraftView::Source(*at as int),
            DraftPiece::External { at, url } => DraftView::External { at: *at as int, url: url@ },
            DraftPiece::Internal { at, dest, path } => DraftView::Internal {
                at: *at as int,
                dest: dest@,
                path: path@,
            },
            DraftPiece::Citation(text) => DraftView::Citation(text@),
        }
    }
}

/// What a list of draft pieces stands for.
pub open spec fn draft_views(list: Seq<DraftPiece>) -> Seq<DraftView> {
    Seq::new(list.len(), |i: int| list[i]@)
}

/// How far a draft has come.
pub struct Progress {
    /// The text of the citation block that is open.
    pub open: Option<Seq<char>>,
    /// How many outcomes of probes have been used.
    pub used: int,
    /// The pieces so far.
    pub pieces: Seq<DraftView>,
    /// Why the draft has stopped.
    pub failure: Option<TransformFailure>,
}

/// The progress with one more piece; no piece can come up inside a citation block.
pub open spec fn emit(progress: Progress, piece: DraftView) -> Progress {
    if progress.open is Some {
        Progress { failure: Some(TransformFailure::UnexpectedEvent), ..progress }
    } else {
        Progress { pieces: progress.pieces.push(piece), ..progress }
    }
}

/// The progress behind a link with the given destination and parts.
pub open spec fn link_step(
    progress: Progress,
    at: int,
    dest: Seq<char>,
    reference: Option<ReferenceView>,
    context: &LinkContext,
    outcomes: Seq<Canonical>,
) -> Progress {
    match reference {
        None => Progress {
            failure: Some(TransformFailure::Link(LinkFailure::InvalidUrl(dest))),
            ..progress
        },
        Some(parts) => if !links::points_to_markdown(parts) {
            emit(progress, DraftView::Source(at))
        } else {
            let next = Progress { used: progress.used + 1, ..progress };
            match links::place_of(
                context.root@,
                *context.canonical_root,
                context.plan,
                links::probe_for(context.root@, context.parent@, parts.path),
                outcomes[progress.used],
            ) {
                Err(failure) => Progress { failure: Some(TransformFailure::Link(failure)), ..next },
                Ok(Place::External(url)) => emit(
                    next,
                    DraftView::External { at, url: links::carried_over(url, parts) },
                ),
                Ok(Place::Internal(path)) => emit(next, DraftView::Internal { at, dest, path }),
            }
        },
    }
}

/// The progress behind one more event.
pub open spec fn step(
    progress: Progress,
    at: int,
    event: SeenView,
    context: &LinkContext,
    outcomes: Seq<Canonical>,
) -> Progress {
    if progress.failure is Some {
        progress
    } else {
        match (progress.open, event) {
            (_, SeenView::Link { dest, reference }) => link_step(
                progress,
                at,
                dest,
                reference,
                context,
                outcomes,
            ),
            (None, SeenView::Fence(info)) => if info == CITATION_INFO@ {
                Progress { open: Some(Seq::empty()), ..progress }
            } else {
                emit(progress, DraftView::Source(at))
            },
            (Some(text), SeenView::CodeEnd) => Progress {
                open: None,
                pieces: progress.pieces.push(DraftView::Citation(text)),
                ..progress
            },
            (Some(text), SeenView::Text(more)) => Progress { open: Some(text + more), ..progress },
            _ => emit(progress, DraftView::Source(at)),
        }
    }
}

/// The progress behind all events.
pub open spec fn drafted(
    seen: Seq<SeenView>,
    context: &LinkContext,
    outcomes: Seq<Canonical>,
) -> Progress
    decreases seen.len(),
{
    if seen.len() == 0 {
        Progress { open: None, used: 0, pieces: Seq::empty(), failure: None }
    } else {
        step(
            drafted(seen.drop_last(), context, outcomes),
            seen.len() - 1,
            seen.last(),
            context,
            outcomes,
        )
    }
}

/// The piece that a draft piece becomes.
pub open spec fn completed_piece(piece: DraftView) -> Result<PieceView, TransformFailure> {
    match piece {
        DraftView::Source(at) => Ok(PieceView::Source { at, dest: None }),
        DraftView::External { at, url } => Ok(PieceView::Source { at, dest: Some(url) }),
        DraftView::Internal { at, dest, path } => if iri::is_reference_path(path) {
            Ok(PieceView::Source { at, dest: Some(iri::with_other_path(dest, path)) })
        } else {
            Err(TransformFailure::Link(LinkFailure::InvalidPath(path)))
        },
        DraftView::Citation(text) => match citation::citation_html(text) {
            Ok(html) => Ok(PieceView::Html(html)),
            Err(failure) => Err(TransformFailure::Citation(failure)),
        },
    }
}

/// The pieces that a draft becomes, or why the first that fails does.
pub open spec fn completed(pieces: Seq<DraftView>) -> Result<Seq<PieceView>, TransformFailure>
    decreases pieces.len(),
{
    if pieces.len() == 0 {
        Ok(Seq::empty())
    } else {
        match completed(pieces.drop_last()) {
            Err(failure) => Err(failure),
            Ok(done) => match completed_piece(pieces.last()) {
                Ok(piece) => Ok(done.push(piece)),
                Err(failure) => Err(failure),
            },
        }
    }
}

/// The transformed body, or the failure of its first event that fails.
pub open spec fn transformed(
    body: Seq<char>,
    context: &LinkContext,
    outcomes: Seq<Canonical>,
) -> Result<Seq<char>, TransformFailure> {
    let seen = seen_in(body);
    let draft = drafted(seen, context, outcomes);
    if outcomes.len() != probes_of(seen, context.root@, context.parent@).len() {
        Err(TransformFailure::StaleProbes)
    } else {
        match (completed(draft.pieces), draft.failure) {
            (Err(failure), _) => Err(failure),
            (Ok(_), Some(failure)) => Err(failure),
            (Ok(pieces), None) => match events::written(body, MARKDOWN_OPTIONS, pieces) {
                Some(text) => Ok(text),
                None => Err(TransformFailure::CannotWrite),
            },
        }
    }
}

/// The position in the source that a draft piece comes from.
pub open spec fn draft_at(piece: DraftView) -> Option<int> {
    match piece {
        DraftView::Source(at) => Some(at),
        DraftView::External { at, .. } => Some(at),
        DraftView::Internal { at, .. } => Some(at),
        DraftView::Citation(_) => None,
    }
}

/// Whether draft pieces stand in the order of the first `count` events of the source.
pub open spec fn draft_fits(pieces: Seq<DraftView>, count: int) -> bool {
    &&& forall|i: int|
        0 <= i < pieces.len() ==> (draft_at(#[trigger] pieces[i]) matches Some(at) ==> 0 <= at
            < count)
    &&& forall|i: int, j: int|
        0 <= i < j < pieces.len() ==> (draft_at(#[trigger] pieces[i]) matches Some(at) ==> (draft_at(
            #[trigger] pieces[j],
        ) matches Some(later) ==> at < later))
}

/// Whether the destinations of links into the site are references without an authority.
pub open spec fn destinations_valid(pieces: Seq<DraftView>) -> bool {
    forall|i: int|
        0 <= i < pieces.len() ==> (#[trigger] pieces[i] matches DraftView::Internal { dest, path, .. }
            ==> iri::is_reference(dest) && !iri::has_authority(dest) && path.len() > 0 && path[0]
            == '@')
}

/// Whether the parts of links are those of their destinations.
pub open spec fn parts_are_true(seen: Seq<SeenView>) -> bool {
    forall|i: int|
        0 <= i < seen.len() ==> (#[trigger] seen[i] matches SeenView::Link { dest, reference: Some(
            parts,
        ) } ==> iri::is_reference(dest) && parts == iri::parts_of(dest))
}

proof fn probes_grow(seen: Seq<SeenView>, n: int, root: Seq<char>, parent: Seq<char>)
    requires
        0 <= n <= seen.len(),
    ensures
        probes_of(seen.take(n), root, parent).len() <= probes_of(seen, root, parent).len(),
    decreases seen.len(),
{
    if n == seen.len() {
        assert(seen.take(n) =~= seen);
    } else {
        probes_grow(seen.drop_last(), n, root, parent);
        assert(seen.drop_last().take(n) =~= seen.take(n));
    }
}

/// A draft takes events of the source in their order, each at most once, and uses the outcome of
/// one probe for each link that asks for one.
pub proof fn draft_keeps_order(
    seen: Seq<SeenView>,
    context: &LinkContext,
    outcomes: Seq<Canonical>,
)
    ensures
        draft_fits(drafted(seen, context, outcomes).pieces, seen.len() as int),
        drafted(seen, context, outcomes).failure is None ==> drafted(seen, context, outcomes).used
            == probes_of(seen, context.root@, context.parent@).len(),
    decreases seen.len(),
{
    if seen.len() > 0 {
        draft_keeps_order(seen.drop_last(), context, outcomes);
    }
}

proof fn draft_keeps_destinations(
    seen: Seq<SeenView>,
    context: &LinkContext,
    outcomes: Seq<Canonical>,
)
    requires
        parts_are_true(seen),
    ensures
        destinations_valid(drafted(seen, context, outcomes).pieces),
    decreases seen.len(),
{
    if seen.len() > 0 {
        let before = seen.drop_last();
        assert(parts_are_true(before)) by {
            assert forall|i: int| 0 <= i < before.len() implies (#[trigger] before[i] matches SeenView::Link { dest, reference: Some(
                parts,
            ) } ==> iri::is_reference(dest) && parts == iri::parts_of(dest)) by {
                assert(before[i] == seen[i]);
            }
        }
        draft_keeps_destinations(before, context, outcomes);
        reveal_strlit("@/");
        let last = seen[seen.len() - 1];
        assert(last == seen.last());
    }
}

proof fn completed_fits(pieces: Seq<DraftView>, count: int)
    requires
        draft_fits(pieces, count),
    ensures
        completed(pieces) matches Ok(done) ==> done.len() == pieces.len() && events::pieces_fit(
            done,
            count,
        ) && forall|i: int|
            0 <= i < done.len() ==> completed_piece(pieces[i]) == Ok::<PieceView, TransformFailure>(
                #[trigger] done[i],
            ),
    decreases pieces.len(),
{
    if pieces.len() > 0 {
        let before = pieces.drop_last();
        assert forall|i: int| 0 <= i < before.len() implies #[trigger] before[i] == pieces[i] by {}
        assert(draft_fits(before, count));
        completed_fits(before, count);
        if let Ok(done) = completed(pieces) {
            assert forall|i: int| 0 <= i < done.len() implies completed_piece(pieces[i]) == Ok::<
                PieceView,
                TransformFailure,
            >(#[trigger] done[i]) by {
                if i < before.len() {
                    assert(done[i] == done.drop_last()[i]);
                    assert(before[i] == pieces[i]);
                }
            }
            assert forall|i: int| 0 <= i < done.len() implies (#[trigger] done[i] matches PieceView::Source { at, dest }
                ==> draft_at(pieces[i]) == Some(at)) by {}
        }
    }
}

/// The events of a body, with the parts of its links.
pub fn examine(body: &str) -> (out: Vec<Seen>)
    ensures
        seen_views(out@) == seen_in(body@),
{
    let found = events::read(body, MARKDOWN_OPTIONS);
    let ghost wanted = events::events_of(body@, MARKDOWN_OPTIONS);
    assert(wanted.len() == found@.len());
    let mut out: Vec<Seen> = Vec::new();
    for event in it: found.iter()
        invariant
            it.seq().len() == found@.len(),
            forall|k: int| 0 <= k < found@.len() ==> *#[trigger] it.seq()[k] == found@[k],
            events::event_views(found@) == wanted,
            wanted == events::events_of(body@, MARKDOWN_OPTIONS),
            wanted.len() == found@.len(),
            out@.len() == it.index(),
            forall|k: int| 0 <= k < out@.len() ==> (#[trigger] out@[k])@ == seen_as(wanted[k]),
    {
        assert(wanted[it.index() as int] == event@) by {
            assert(*it.seq()[it.index() as int] == found@[it.index() as int]);
        }
        let seen = match event {
            MarkdownEvent::Link(dest) => Seen::Link {
                reference: iri::reference(dest.as_str()),
                dest: dest.clone(),
            },
            MarkdownEvent::Fence(info) => Seen::Fence(info.clone()),
            MarkdownEvent::CodeEnd => Seen::CodeEnd,
            MarkdownEvent::Text(text) => Seen::Text(text.clone()),
            MarkdownEvent::Other => Seen::Other,
        };
        out.push(seen);
    }
    assert(seen_views(out@) =~= seen_in(body@));
    out
}

/// The probes that events ask for, in their order.
pub fn link_probes(seen: &Vec<Seen>, root: &str, parent: &str) -> (out: Vec<LinkProbe>)
    ensures
        out@.len() == probes_of(seen_views(seen@), root@, parent@).len(),
        forall|i: int|
            0 <= i < out@.len() ==> (#[trigger] out@[i])@ == probes_of(
                seen_views(seen@),
                root@,
                parent@,
            )[i],
{
    let mut out: Vec<LinkProbe> = Vec::new();
    let ghost all = seen_views(seen@);
    let mut i: usize = 0;
    assert(all.take(0) =~= Seq::empty());
    while i < seen.len()
        invariant
            i <= seen@.len(),
            all == seen_views(seen@),
            out@.len() == probes_of(all.take(i as int), root@, parent@).len(),
            forall|k: int|
                0 <= k < out@.len() ==> (#[trigger] out@[k])@ == probes_of(
                    all.take(i as int),
                    root@,
                    parent@,
                )[k],
        decreases seen.len() - i,
    {
        assert(all.take(i + 1).drop_last() =~= all.take(i as int));
        assert(all.take(i + 1).last() == seen@[i as int]@);
        if let Seen::Link { dest: _, reference: Some(parts) } = &seen[i] {
            if links::is_markdown_reference(parts) {
                out.push(links::probe(root, parent, parts.path.as_str()));
            }
        }
        i += 1;
    }
    assert(all.take(i as int) =~= all);
    out
}

/// A draft of a body, and why it ends early where it does.
#[derive(Debug, Clone, PartialEq, Eq)]
pub struct Draft {
    pub pieces: Vec<DraftPiece>,
    pub failure: Option<TransformError>,
}

/// What the failure of a draft stands for.
pub open spec fn failure_view(failure: Option<TransformError>) -> Option<TransformFailure> {
    match failure {
        Some(error) => Some(error@),
        None => None,
    }
}

/// What has been made of a link.
enum LinkDraft {
    Piece(DraftPiece),
    Failed(TransformError),
}

/// The piece that a link becomes, given what its probe gave.
fn draft_link(
    at: usize,
    dest: &String,
    parts: &Reference,
    context: &LinkContext,
    outcome: &Canonical,
) -> (out: LinkDraft)
    ensures
        match out {
            LinkDraft::Failed(error) => error@ matches TransformFailure::Link(failure)
                && links::place_of(
                context.root@,
                *context.canonical_root,
                context.plan,
                links::probe_for(context.root@, context.parent@, parts@.path),
                *outcome,
            ) == Err::<Place, LinkFailure>(failure),
            LinkDraft::Piece(piece) => match links::place_of(
                context.root@,
                *context.canonical_root,
                context.plan,
                links::probe_for(context.root@, context.parent@, parts@.path),
                *outcome,
            ) {
                Ok(Place::External(url)) => piece@ == (DraftView::External {
                    at: at as int,
                    url: links::carried_over(url, parts@),
                }),
                Ok(Place::Internal(path)) => piece@ == (DraftView::Internal {
                    at: at as int,
                    dest: dest@,
                    path,
                }),
                Err(_) => false,
            },
        },
{
    let probe = links::probe(context.root, context.parent, parts.path.as_str());
    match links::place(context, &probe, outcome) {
        Err(error) => LinkDraft::Failed(TransformError::Link(error)),
        Ok(LinkPlace::External(url)) => LinkDraft::Piece(
            DraftPiece::External { at, url: links::carry_over(url, parts) },
        ),
        Ok(LinkPlace::Internal(path)) => LinkDraft::Piece(
            DraftPiece::Internal { at, dest: dest.clone(), path },
        ),
    }
}

/// The draft of a body: its events in order, links with their new destinations, and citation blocks
/// collected.
pub fn draft(seen: &Vec<Seen>, context: &LinkContext, outcomes: &Vec<Canonical>) -> (out: Draft)
    requires
        outcomes@.len() == probes_of(seen_views(seen@), context.root@, context.parent@).len(),
    ensures
        draft_views(out.pieces@) == drafted(seen_views(seen@), context, outcomes@).pieces,
        failure_view(out.failure) == drafted(seen_views(seen@), context, outcomes@).failure,
{
    let ghost all = seen_views(seen@);
    let mut open: Option<String> = None;
    let mut used: usize = 0;
    let mut pieces: Vec<DraftPiece> = Vec::new();
    let mut failure: Option<TransformError> = None;
    let count: usize = outcomes.len();
    let mut i: usize = 0;
    assert(all.take(0) =~= Seq::empty());
    assert(draft_views(pieces@) =~= Seq::empty());
    while i < seen.len()
        invariant
            i <= seen@.len(),
            all == seen_views(seen@),
            count == outcomes@.len(),
            outcomes@.len() == probes_of(all, context.root@, context.parent@).len(),
            text::optional(open) == drafted(all.take(i as int), context, outcomes@).open,
            used == drafted(all.take(i as int), context, outcomes@).used,
            draft_views(pieces@) == drafted(all.take(i as int), context, outcomes@).pieces,
            failure_view(failure) == drafted(all.take(i as int), context, outcomes@).failure,
        decreases seen.len() - i,
    {
        let ghost before = drafted(all.take(i as int), context, outcomes@);
        let ghost after = drafted(all.take(i + 1), context, outcomes@);
        let ghost old_pieces = pieces@;
        proof {
            assert(all.take(i + 1).drop_last() =~= all.take(i as int));
            assert(all.take(i + 1).last() == seen@[i as int]@);
            assert(after == step(before, i as int, seen@[i as int]@, context, outcomes@));
        }
        if failure.is_none() {
            proof {
                draft_keeps_order(all.take(i as int), context, outcomes@);
                probes_grow(all, i + 1, context.root@, context.parent@);
            }
            let mut made: Option<DraftPiece> = None;
            match &seen[i] {
                Seen::Link { dest, reference: None } => {
                    failure = Some(TransformError::Link(LinkError::InvalidUrl(dest.clone())));
                },
                Seen::Link { dest, reference: Some(parts) } => {
                    if links::is_markdown_reference(parts) {
                        assert(used < count);
                        let link = draft_link(i, dest, parts, context, &outcomes[used]);
                        used += 1;
                        match link {
                            LinkDraft::Failed(error) => {
                                failure = Some(error);
                            },
                            LinkDraft::Piece(piece) => {
                                made = Some(piece);
                            },
                        }
                    } else {
                        made = Some(DraftPiece::Source(i));
                    }
                },
                Seen::Fence(info) => {
                    if open.is_none() && text::text_eq(info.as_str(), CITATION_INFO) {
                        open = Some(String::new());
                        assert(text::optional(open) == Some(Seq::<char>::empty()));
                    } else {
                        made = Some(DraftPiece::Source(i));
                    }
                },
                Seen::CodeEnd => {
                    match open {
                        Some(text) => {
                            let piece = DraftPiece::Citation(text);
                            assert(draft_views(old_pieces.push(piece)) =~= draft_views(
                                old_pieces,
                            ).push(piece@));
                            pieces.push(piece);
                            open = None;
                        },
                        None => {
                            made = Some(DraftPiece::Source(i));
                            open = None;
                        },
                    }
                },
                Seen::Text(more) => {
                    match open {
                        Some(mut text) => {
                            text.append(more.as_str());
                            open = Some(text);
                        },
                        None => {
                            made = Some(DraftPiece::Source(i));
                            open = None;
                        },
                    }
                },
                Seen::Other => {
                    made = Some(DraftPiece::Source(i));
                },
            }
            if let Some(piece) = made {
                if open.is_some() {
                    failure = Some(TransformError::UnexpectedEvent);
                } else {
                    assert(draft_views(old_pieces.push(piece)) =~= draft_views(old_pieces).push(
                        piece@,
                    ));
                    pieces.push(piece);
                }
            }
        }
        i += 1;
    }
    assert(all.take(i as int) =~= all);
    Draft { pieces, failure }
}

/// The pieces that a draft becomes.
fn complete(pieces: &Vec<DraftPiece>) -> (out: Result<Vec<Piece>, TransformError>)
    requires
        destinations_valid(draft_views(pieces@)),
    ensures
        match out {
            Ok(done) => completed(draft_views(pieces@)) == Ok::<Seq<PieceView>, TransformFailure>(
                events::piece_views(done@),
            ),
            Err(error) => completed(draft_views(pieces@)) == Err::<
                Seq<PieceView>,
                TransformFailure,
            >(error@),
        },
{
    let ghost all = draft_views(pieces@);
    let mut done: Vec<Piece> = Vec::new();
    let mut i: usize = 0;
    assert(all.take(0) =~= Seq::empty());
    assert(events::piece_views(done@) =~= Seq::empty());
    while i < pieces.len()
        invariant
            i <= pieces@.len(),
            all == draft_views(pieces@),
            destinations_valid(all),
            completed(all.take(i as int)) == Ok::<Seq<PieceView>, TransformFailure>(
                events::piece_views(done@),
            ),
        decreases pieces.len() - i,
    {
        let ghost old_done = done@;
        proof {
            assert(all.take(i + 1).drop_last() =~= all.take(i as int));
            assert(all.take(i + 1).last() == pieces@[i as int]@);
            assert(all[i as int] == pieces@[i as int]@);
        }
        let made: Result<Piece, TransformError> = match &pieces[i] {
            DraftPiece::Source(at) => Ok(Piece::Source { at: *at, dest: None }),
            DraftPiece::External { at, url } => Ok(
                Piece::Source { at: *at, dest: Some(url.clone()) },
            ),
            DraftPiece::Internal { at, dest, path } => match iri::set_path(
                dest.as_str(),
                path.as_str(),
            ) {
                Some(changed) => Ok(Piece::Source { at: *at, dest: Some(changed) }),
                None => Err(TransformError::Link(LinkError::InvalidPath(path.clone()))),
            },
            DraftPiece::Citation(text) => match citation::render(text.as_str()) {
                Ok(html) => Ok(Piece::Html(html)),
                Err(failure) => Err(TransformError::Citation(failure)),
            },
        };
        match made {
            Ok(piece) => {
                assert(events::piece_views(old_done.push(piece)) =~= events::piece_views(
                    old_done,
                ).push(piece@));
                done.push(piece);
            },
            Err(error) => {
                proof {
                    completed_stays_failed(all, i + 1);
                }
                return Err(error);
            },
        }
        i += 1;
    }
    assert(all.take(i as int) =~= all);
    Ok(done)
}

proof fn completed_stays_failed(pieces: Seq<DraftView>, n: int)
    requires
        0 <= n <= pieces.len(),
        completed(pieces.take(n)) is Err,
    ensures
        completed(pieces) == completed(pieces.take(n)),
    decreases pieces.len(),
{
    if n == pieces.len() {
        assert(pieces.take(n) =~= pieces);
    } else {
        assert(pieces.drop_last().take(n) =~= pieces.take(n));
        completed_stays_failed(pieces.drop_last(), n);
    }
}

/// The body with its links rewritten and its citations rendered. The outcomes are those of the
/// probes that its links ask for.
pub fn transform_markdown(
    body: &str,
    context: &LinkContext,
    outcomes: &Vec<Canonical>,
) -> (out: Result<String, TransformError>)
    ensures
        match out {
            Ok(text) => transformed(body@, context, outcomes@) == Ok::<Seq<char>, TransformFailure>(
                text@,
            ),
            Err(error) => transformed(body@, context, outcomes@) == Err::<
                Seq<char>,
                TransformFailure,
            >(error@),
        },
{
    let seen = examine(body);
    let probes = link_probes(&seen, context.root, context.parent);
    if outcomes.len() != probes.len() {
        return Err(TransformError::StaleProbes);
    }
    let draft = draft(&seen, context, outcomes);
    proof {
        let all = seen_in(body@);
        assert(parts_are_true(all));
        draft_keeps_destinations(all, context, outcomes@);
        draft_keeps_order(all, context, outcomes@);
        completed_fits(drafted(all, context, outcomes@).pieces, all.len() as int);
    }
    match complete(&draft.pieces) {
        Err(error) => Err(error),
        Ok(pieces) => match draft.failure {
            Some(error) => Err(error),
            None => match events::write(body, MARKDOWN_OPTIONS, &pieces) {
                Some(text) => Ok(text),
                None => Err(TransformError::CannotWrite),
            },
        },
    }
}

/// Whether an event is neither a link into the site, nor one that is no reference, nor the start of
/// a citation.
pub open spec fn is_plain(event: SeenView) -> bool {
    match event {
        SeenView::Link { reference: Some(parts), .. } => !links::points_to_markdown(parts),
        SeenView::Link { reference: None, .. } => false,
        SeenView::Fence(info) => info != CITATION_INFO@,
        _ => true,
    }
}

/// Plain events all stay as they are: a draft only ever touches links to Markdown of the site and
/// citation blocks.
pub proof fn plain_events_stay(seen: Seq<SeenView>, context: &LinkContext, outcomes: Seq<Canonical>)
    requires
        forall|i: int| 0 <= i < seen.len() ==> is_plain(#[trigger] seen[i]),
    ensures
        drafted(seen, context, outcomes).failure is None,
        drafted(seen, context, outcomes).open is None,
        drafted(seen, context, outcomes).pieces == Seq::new(
            seen.len(),
            |i: int| DraftView::Source(i),
        ),
    decreases seen.len(),
{
    let pieces = drafted(seen, context, outcomes).pieces;
    if seen.len() > 0 {
        let before = seen.drop_last();
        assert forall|i: int| 0 <= i < before.len() implies is_plain(#[trigger] before[i]) by {
            assert(before[i] == seen[i]);
        }
        plain_events_stay(before, context, outcomes);
        assert(is_plain(seen[seen.len() - 1]));
        assert(pieces =~= Seq::new(seen.len(), |i: int| DraftView::Source(i)));
    } else {
        assert(pieces =~= Seq::new(seen.len(), |i: int| DraftView::Source(i)));
    }
}

proof fn drafts_are_not_stale(seen: Seq<SeenView>, context: &LinkContext, outcomes: Seq<Canonical>)
    ensures
        drafted(seen, context, outcomes).failure != Some(TransformFailure::StaleProbes),
    decreases seen.len(),
{
    if seen.len() > 0 {
        drafts_are_not_stale(seen.drop_last(), context, outcomes);
    }
}

proof fn completion_is_not_stale(pieces: Seq<DraftView>)
    ensures
        completed(pieces) != Err::<Seq<PieceView>, TransformFailure>(TransformFailure::StaleProbes),
    decreases pieces.len(),
{
    if pieces.len() > 0 {
        completion_is_not_stale(pieces.drop_last());
    }
}

/// One outcome for each probe that a body asks for is all that its transformation needs.
pub proof fn asked_probes_are_enough(body: Seq<char>, context: &LinkContext, outcomes: Seq<Canonical>)
    requires
        outcomes.len() == probes_of(seen_in(body), context.root@, context.parent@).len(),
    ensures
        transformed(body, context, outcomes) != Err::<Seq<char>, TransformFailure>(
            TransformFailure::StaleProbes,
        ),
{
    drafts_are_not_stale(seen_in(body), context, outcomes);
    completion_is_not_stale(drafted(seen_in(body), context, outcomes).pieces);
}

/// How many of the events are links that have no authority and a path with the extension of
/// Markdown.
pub open spec fn markdown_links(found: Seq<EventView>) -> nat
    decreases found.len(),
{
    if found.len() == 0 {
        0
    } else {
        let before = markdown_links(found.drop_last());
        match found.last() {
            EventView::Link(dest) => {
                let parts = iri::parts_of(dest);
                if iri::is_reference(dest) && parts.authority is None && text::has_suffix(
                    parts.path,
                    ".md"@,
                ) {
                    before + 1
                } else {
                    before
                }
            },
            _ => before,
        }
    }
}

spec fn sees(seen: Seq<SeenView>, found: Seq<EventView>) -> bool {
    seen.len() == found.len() && forall|i: int|
        0 <= i < seen.len() ==> #[trigger] seen[i] == seen_as(found[i])
}

proof fn probes_are_counted(
    seen: Seq<SeenView>,
    found: Seq<EventView>,
    root: Seq<char>,
    parent: Seq<char>,
)
    requires
        sees(seen, found),
    ensures
        probes_of(seen, root, parent).len() == markdown_links(found),
    decreases seen.len(),
{
    if seen.len() > 0 {
        assert(seen[seen.len() - 1] == seen_as(found[found.len() - 1]));
        assert(sees(seen.drop_last(), found.drop_last())) by {
            assert forall|i: int| 0 <= i < seen.len() - 1 implies #[trigger] seen.drop_last()[i]
                == seen_as(found.drop_last()[i]) by {
                assert(seen[i] == seen_as(found[i]));
            }
        }
        probes_are_counted(seen.drop_last(), found.drop_last(), root, parent);
    }
}

proof fn probe_of_link(
    seen: Seq<SeenView>,
    root: Seq<char>,
    parent: Seq<char>,
    i: int,
)
    requires
        0 <= i < seen.len(),
        probe_of(seen[i], root, parent) is Some,
    ensures
        probes_of(seen.take(i), root, parent).len() < probes_of(seen, root, parent).len(),
        probes_of(seen, root, parent)[probes_of(seen.take(i), root, parent).len() as int]
            == probe_of(seen[i], root, parent)->0,
    decreases seen.len(),
{
    if i == seen.len() - 1 {
        assert(seen.take(i) =~= seen.drop_last());
    } else {
        probe_of_link(seen.drop_last(), root, parent, i);
        assert(seen.drop_last().take(i) =~= seen.take(i));
        assert(seen.drop_last()[i] == seen[i]);
    }
}

/// Every link of a body that has no authority and whose path ends with `.md` is looked up, in the
/// order of the links, and no other link is: below the content directory where the path starts with
/// a slash, and from the directory of the file where it does not, whatever the path begins with.
pub proof fn links_to_markdown_are_looked_up(
    body: Seq<char>,
    root: Seq<char>,
    parent: Seq<char>,
    i: int,
    dest: Seq<char>,
)
    requires
        0 <= i < events::events_of(body, MARKDOWN_OPTIONS).len(),
        events::events_of(body, MARKDOWN_OPTIONS)[i] == EventView::Link(dest),
        iri::is_reference(dest),
        iri::parts_of(dest).authority is None,
        text::has_suffix(iri::parts_of(dest).path, ".md"@),
    ensures
        ({
            let found = events::events_of(body, MARKDOWN_OPTIONS);
            let probes = probes_of(seen_in(body), root, parent);
            let asked = iri::parts_of(dest).path;
            let j = markdown_links(found.take(i)) as int;
            &&& probes.len() == markdown_links(found)
            &&& j < probes.len()
            &&& probes[j].child == (if asked[0] == '/' {
                path::path_joined(root, path::text_from(asked, 1))
            } else {
                path::path_joined(parent, asked)
            })
            &&& probes[j].alternative == links::alternative_of(probes[j].child)
        }),
{
    let found = events::events_of(body, MARKDOWN_OPTIONS);
    let seen = seen_in(body);
    assert(sees(seen, found));
    assert(sees(seen.take(i), found.take(i)));
    probes_are_counted(seen, found, root, parent);
    probes_are_counted(seen.take(i), found.take(i), root, parent);
    assert(seen[i] == seen_as(found[i]));
    reveal_strlit(".md");
    probe_of_link(seen, root, parent, i);
}

#[verifier::rlimit(60)]
proof fn link_has_a_piece(
    seen: Seq<SeenView>,
    context: &LinkContext,
    outcomes: Seq<Canonical>,
    i: int,
) -> (k: int)
    requires
        0 <= i < seen.len(),
        seen[i] is Link,
        drafted(seen, context, outcomes).failure is None,
    ensures
        0 <= k < drafted(seen, context, outcomes).pieces.len(),
        seen[i] matches SeenView::Link { dest, reference: Some(parts) } && ({
            let piece = drafted(seen, context, outcomes).pieces[k];
            if links::points_to_markdown(parts) {
                match links::place_of(
                    context.root@,
                    *context.canonical_root,
                    context.plan,
                    links::probe_for(context.root@, context.parent@, parts.path),
                    outcomes[probes_of(seen.take(i), context.root@, context.parent@).len() as int],
                ) {
                    Err(_) => false,
                    Ok(Place::External(url)) => piece == (DraftView::External {
                        at: i,
                        url: links::carried_over(url, parts),
                    }),
                    Ok(Place::Internal(path)) => piece == (DraftView::Internal {
                        at: i,
                        dest,
                        path,
                    }),
                }
            } else {
                piece == DraftView::Source(i)
            }
        }),
    decreases seen.len(),
{
    let before = seen.drop_last();
    let pieces = drafted(seen, context, outcomes).pieces;
    let earlier = drafted(before, context, outcomes);
    if i == seen.len() - 1 {
        draft_keeps_order(before, context, outcomes);
        assert(seen.take(i) =~= before);
        assert(earlier.failure is None);
        pieces.len() - 1
    } else {
        assert(before[i] == seen[i]);
        assert(before.take(i) =~= seen.take(i));
        let k = link_has_a_piece(before, context, outcomes, i);
        assert(pieces[k] == earlier.pieces[k]);
        k
    }
}

/// The query and the fragment of a reference, with their marks, are all that stands behind its path.
pub proof fn tails_are_carried_over(url: Seq<char>, dest: Seq<char>)
    ensures
        links::carried_over(url, iri::parts_of(dest)) == url + dest.skip(iri::path_end(dest)),
{
    let end = iri::path_end(dest);
    let mark = iri::fragment_start(dest);
    let start = iri::path_start(dest);
    next_is_a_stop(dest, iri::scheme_end(dest) + 2, seq!['/', '?', '#']);
    next_is_a_stop(dest, 0, seq![':', '/', '?', '#']);
    next_is_a_stop(dest, start, seq!['?', '#']);
    next_is_a_stop(dest, end, seq!['#']);
    let out = links::carried_over(url, iri::parts_of(dest));
    if end < dest.len() {
        assert(seq!['?', '#'].contains(dest[end]));
        assert(dest[end] == '?' || dest[end] == '#');
        if dest[end] == '#' {
            assert(seq!['#'][0] == '#');
            assert(mark == end);
        } else if mark < dest.len() {
            assert(seq!['#'].contains(dest[mark]));
        }
        assert(out =~= url + dest.skip(end));
    } else {
        assert(out =~= url + dest.skip(end));
    }
}

proof fn next_is_a_stop(s: Seq<char>, i: int, stops: Seq<char>)
    ensures
        iri::next_of(s, i, stops) <= s.len(),
        0 <= i <= s.len() ==> i <= iri::next_of(s, i, stops),
        iri::next_of(s, i, stops) < s.len() ==> stops.contains(s[iri::next_of(s, i, stops)]),
        0 <= iri::next_of(s, i, stops),
    decreases s.len() - i,
{
    if 0 <= i < s.len() && !stops.contains(s[i]) {
        next_is_a_stop(s, i + 1, stops);
    }
}

/// In a body that is transformed, the destination of a link is kept exactly where it has an authority
/// or a path that does not end with `.md`. Every other link gets a new one, with all that stood
/// behind the path: the public address that the selection gives for its target, or the path of the
/// target from the content directory, behind `@/`.
#[verifier::rlimit(60)]
pub proof fn links_to_markdown_are_rewritten(
    body: Seq<char>,
    context: &LinkContext,
    outcomes: Seq<Canonical>,
    i: int,
    dest: Seq<char>,
) -> (pieces: Seq<PieceView>)
    requires
        transformed(body, context, outcomes) is Ok,
        0 <= i < events::events_of(body, MARKDOWN_OPTIONS).len(),
        events::events_of(body, MARKDOWN_OPTIONS)[i] == EventView::Link(dest),
    ensures
        iri::is_reference(dest),
        events::written(body, MARKDOWN_OPTIONS, pieces) == Some(
            transformed(body, context, outcomes)->Ok_0,
        ),
        ({
            let parts = iri::parts_of(dest);
            let outcome = outcomes[markdown_links(
                events::events_of(body, MARKDOWN_OPTIONS).take(i),
            ) as int];
            let tail = dest.skip(iri::path_end(dest));
            if parts.authority is Some || !text::has_suffix(parts.path, ".md"@) {
                pieces.contains(PieceView::Source { at: i, dest: None })
            } else {
                exists|start: Seq<char>|
                    {
                        &&& #[trigger] pieces.contains(
                            PieceView::Source { at: i, dest: Some(start + tail) },
                        )
                        &&& match (outcome, *context.canonical_root) {
                            (Canonical::Found(target), Canonical::Found(base)) => match (
                                path::stripped(target@, base@),
                                context.plan,
                            ) {
                                (Some(relative), Some(plan)) => match plan.external_for(relative) {
                                    Some(url) => start == url,
                                    None => start == dest.take(iri::path_start(dest)) + "@/"@
                                        + relative,
                                },
                                (Some(relative), None) => start == dest.take(iri::path_start(dest))
                                    + "@/"@ + relative,
                                (None, _) => false,
                            },
                            (Canonical::Found(_), Canonical::Missing(_)) => false,
                            (Canonical::Missing(_), _) => {
                                let child = if parts.path[0] == '/' {
                                    path::path_joined(context.root@, path::text_from(parts.path, 1))
                                } else {
                                    path::path_joined(context.parent@, parts.path)
                                };
                                context.plan matches Some(plan) && ((path::stripped(
                                    child,
                                    context.root@,
                                ) matches Some(relative) && plan.external_for(relative) == Some(
                                    start,
                                )) || (links::alternative_of(child) matches Some(other)
                                    && path::stripped(other, context.root@) matches Some(relative)
                                    && plan.external_for(relative) == Some(start)))
                            },
                        }
                    }
            }
        }),
{
    let found = events::events_of(body, MARKDOWN_OPTIONS);
    let seen = seen_in(body);
    let draft = drafted(seen, context, outcomes);
    let pieces = completed(draft.pieces)->Ok_0;
    assert(sees(seen.take(i), found.take(i)));
    probes_are_counted(seen.take(i), found.take(i), context.root@, context.parent@);
    assert(seen[i] == seen_as(found[i]));
    let k = link_has_a_piece(seen, context, outcomes, i);
    draft_keeps_order(seen, context, outcomes);
    completed_fits(draft.pieces, seen.len() as int);
    assert(completed_piece(draft.pieces[k]) == Ok::<PieceView, TransformFailure>(pieces[k]));
    let parts = iri::parts_of(dest);
    reveal_strlit(".md");
    if !(parts.authority is Some || !text::has_suffix(parts.path, ".md"@)) {
        let tail = dest.skip(iri::path_end(dest));
        match draft.pieces[k] {
            DraftView::External { at, url } => {
                match links::place_of(
                    context.root@,
                    *context.canonical_root,
                    context.plan,
                    links::probe_for(context.root@, context.parent@, parts.path),
                    outcomes[markdown_links(found.take(i)) as int],
                ) {
                    Ok(Place::External(start)) => {
                        tails_are_carried_over(start, dest);
                        assert(pieces[k] == (PieceView::Source { at: i, dest: Some(start + tail) }));
                        assert(pieces.contains(
                            PieceView::Source { at: i, dest: Some(start + tail) },
                        ));
                    },
                    _ => {},
                }
            },
            DraftView::Internal { at, path, .. } => {
                let start = dest.take(iri::path_start(dest)) + path;
                assert(iri::with_other_path(dest, path) =~= start + tail);
                assert(path.len() >= 0);
                match (outcomes[markdown_links(found.take(i)) as int], *context.canonical_root) {
                    (Canonical::Found(target), Canonical::Found(base)) => {
                        let relative = path::stripped(target@, base@)->0;
                        assert(start =~= dest.take(iri::path_start(dest)) + "@/"@ + relative);
                    },
                    _ => {},
                }
                assert(pieces[k] == (PieceView::Source { at: i, dest: Some(start + tail) }));
                assert(pieces.contains(PieceView::Source { at: i, dest: Some(start + tail) }));
            },
            _ => {},
        }
    } else {
        assert(pieces[k] == (PieceView::Source { at: i, dest: None }));
    }
    pieces
}

/// The message for a body that cannot be transformed.
pub open spec fn transform_message(failure: TransformFailure) -> Seq<char> {
    match failure {
        TransformFailure::Link(failure) => links::link_message(failure),
        TransformFailure::Citation(failure) => citation::citation_message(failure),
        TransformFailure::UnexpectedEvent => "unknown event inside csl-json block"@,
        TransformFailure::CannotWrite => "cannot write markdown"@,
        TransformFailure::StaleProbes => "links changed while they were looked up"@,
    }
}

impl TransformError {
    /// The message of the error.
    pub fn message(&self) -> (out: String)
        ensures
            out@ == transform_message(self@),
    {
        match self {
            TransformError::Link(error) => error.message(),
            TransformError::Citation(failure) => failure.message(),
            TransformError::UnexpectedEvent => "unknown event inside csl-json block".to_owned(),
            TransformError::CannotWrite => "cannot write markdown".to_owned(),
            TransformError::StaleProbes => "links changed while they were looked up".to_owned(),
        }
    }
}

proof fn pieces_only_grow(seen: Seq<SeenView>, context: &LinkContext, outcomes: Seq<Canonical>, n: int)
    requires
        0 <= n <= seen.len(),
        drafted(seen, context, outcomes).failure is None,
    ensures
        drafted(seen.take(n), context, outcomes).failure is None,
        drafted(seen.take(n), context, outcomes).pieces.len() <= drafted(
            seen,
            context,
            outcomes,
        ).pieces.len(),
        forall|k: int|
            0 <= k < drafted(seen.take(n), context, outcomes).pieces.len() ==> drafted(
                seen,
                context,
                outcomes,
            ).pieces[k] == #[trigger] drafted(seen.take(n), context, outcomes).pieces[k],
    decreases seen.len() - n,
{
    if n == seen.len() {
        assert(seen.take(n) =~= seen);
    } else {
        let before = seen.drop_last();
        assert(before.take(n) =~= seen.take(n));
        pieces_only_grow(before, context, outcomes, n);
        let earlier = drafted(before, context, outcomes).pieces;
        let all = drafted(seen, context, outcomes).pieces;
        let part = drafted(seen.take(n), context, outcomes).pieces;
        assert forall|k: int| 0 <= k < part.len() implies all[k] == #[trigger] part[k] by {
            assert(earlier[k] == part[k]);
        }
    }
}

/// The text of consecutive events.
pub open spec fn text_between(found: Seq<EventView>, from: int, to: int) -> Seq<char>
    decreases to - from,
{
    if from >= to {
        Seq::empty()
    } else {
        text_between(found, from, to - 1) + (match found[to - 1] {
            EventView::Text(text) => text,
            _ => Seq::empty(),
        })
    }
}

#[verifier::rlimit(60)]
proof fn open_block_collects(
    seen: Seq<SeenView>,
    found: Seq<EventView>,
    context: &LinkContext,
    outcomes: Seq<Canonical>,
    i: int,
    j: int,
)
    requires
        sees(seen, found),
        0 <= i < j <= seen.len(),
        drafted(seen, context, outcomes).failure is None,
        found[i] == EventView::Fence("csl-json"@),
        forall|k: int| i < k < j ==> #[trigger] found[k] is Text,
    ensures
        drafted(seen.take(j), context, outcomes).open == Some(text_between(found, i + 1, j)),
        drafted(seen.take(j), context, outcomes).pieces == drafted(
            seen.take(i),
            context,
            outcomes,
        ).pieces,
    decreases j - i,
{
    pieces_only_grow(seen, context, outcomes, j);
    assert(seen.take(j).drop_last() =~= seen.take(j - 1));
    assert(seen.take(j).last() == seen[j - 1]);
    assert(seen[j - 1] == seen_as(found[j - 1]));
    if j == i + 1 {
        pieces_only_grow(seen, context, outcomes, i);
        assert(text_between(found, i + 1, j) =~= Seq::empty());
    } else {
        open_block_collects(seen, found, context, outcomes, i, j - 1);
        assert(found[j - 1] is Text);
    }
}

/// A code block that is marked `csl-json` is taken out of a transformed body, and in its place stands
/// the citation that its text describes.
#[verifier::rlimit(60)]
pub proof fn citation_blocks_are_rendered(
    body: Seq<char>,
    context: &LinkContext,
    outcomes: Seq<Canonical>,
    i: int,
    j: int,
) -> (pieces: Seq<PieceView>)
    requires
        transformed(body, context, outcomes) is Ok,
        0 <= i < j < events::events_of(body, MARKDOWN_OPTIONS).len(),
        events::events_of(body, MARKDOWN_OPTIONS)[i] == EventView::Fence("csl-json"@),
        forall|k: int| i < k < j ==> #[trigger] events::events_of(body, MARKDOWN_OPTIONS)[k] is Text,
        events::events_of(body, MARKDOWN_OPTIONS)[j] is CodeEnd,
    ensures
        events::written(body, MARKDOWN_OPTIONS, pieces) == Some(
            transformed(body, context, outcomes)->Ok_0,
        ),
        citation::citation_html(
            text_between(events::events_of(body, MARKDOWN_OPTIONS), i + 1, j),
        ) matches Ok(html) && pieces.contains(PieceView::Html(html)),
        forall|k: int|
            i <= k <= j ==> !#[trigger] pieces.contains(PieceView::Source { at: k, dest: None }),
{
    let found = events::events_of(body, MARKDOWN_OPTIONS);
    let seen = seen_in(body);
    assert(sees(seen, found));
    let draft = drafted(seen, context, outcomes);
    let pieces = completed(draft.pieces)->Ok_0;
    draft_keeps_order(seen, context, outcomes);
    completed_fits(draft.pieces, seen.len() as int);
    open_block_collects(seen, found, context, outcomes, i, j);
    pieces_only_grow(seen, context, outcomes, j + 1);
    assert(seen.take(j + 1).drop_last() =~= seen.take(j));
    assert(seen.take(j + 1).last() == seen[j]);
    assert(seen[j] == seen_as(found[j]));
    let text = text_between(found, i + 1, j);
    let before = drafted(seen.take(i), context, outcomes).pieces;
    let after = drafted(seen.take(j + 1), context, outcomes).pieces;
    assert(after == before.push(DraftView::Citation(text)));
    let at = before.len() as int;
    assert(draft.pieces[at] == after[at]);
    assert(completed_piece(draft.pieces[at]) == Ok::<PieceView, TransformFailure>(pieces[at]));
    let html = citation::citation_html(text)->Ok_0;
    assert(pieces[at] == PieceView::Html(html));
    pieces_only_grow(seen, context, outcomes, i);
    draft_keeps_order(seen.take(i), context, outcomes);
    later_pieces_come_later(seen, context, outcomes, j + 1);
    assert forall|k: int| i <= k <= j implies !#[trigger] pieces.contains(
        PieceView::Source { at: k, dest: None },
    ) by {
        if pieces.contains(PieceView::Source { at: k, dest: None }) {
            let m = choose|m: int|
                0 <= m < pieces.len() && pieces[m] == (PieceView::Source { at: k, dest: None });
            assert(completed_piece(draft.pieces[m]) == Ok::<PieceView, TransformFailure>(pieces[m]));
            assert(draft_at(draft.pieces[m]) == Some(k));
            if m < at {
                assert(draft.pieces[m] == before[m]);
            } else if m > at {
                assert(draft_at(draft.pieces[m]) == Some(k));
            }
        }
    }
    pieces
}

proof fn later_pieces_come_later(
    seen: Seq<SeenView>,
    context: &LinkContext,
    outcomes: Seq<Canonical>,
    n: int,
)
    requires
        0 <= n <= seen.len(),
        drafted(seen, context, outcomes).failure is None,
    ensures
        forall|m: int|
            drafted(seen.take(n), context, outcomes).pieces.len() <= m < drafted(
                seen,
                context,
                outcomes,
            ).pieces.len() ==> (draft_at(
                #[trigger] drafted(seen, context, outcomes).pieces[m],
            ) matches Some(at) ==> at >= n),
    decreases seen.len() - n,
{
    if n == seen.len() {
        assert(seen.take(n) =~= seen);
    } else {
        let before = seen.drop_last();
        assert(before.take(n) =~= seen.take(n));
        later_pieces_come_later(before, context, outcomes, n);
        let earlier = drafted(before, context, outcomes).pieces;
        let all = drafted(seen, context, outcomes).pieces;
        assert forall|m: int|
            drafted(seen.take(n), context, outcomes).pieces.len() <= m < all.len() implies (draft_at(
            #[trigger] all[m],
        ) matches Some(at) ==> at >= n) by {
            if m < earlier.len() {
                assert(all[m] == earlier[m]);
            }
        }
    }
}

proof fn events_without_citations_all_stay(
    seen: Seq<SeenView>,
    context: &LinkContext,
    outcomes: Seq<Canonical>,
)
    requires
        drafted(seen, context, outcomes).failure is None,
        forall|i: int|
            0 <= i < seen.len() ==> #[trigger] seen[i] != SeenView::Fence("csl-json"@),
    ensures
        drafted(seen, context, outcomes).open is None,
        drafted(seen, context, outcomes).pieces.len() == seen.len(),
        forall|i: int|
            0 <= i < seen.len() ==> draft_at(
                #[trigger] drafted(seen, context, outcomes).pieces[i],
            ) == Some(i),
    decreases seen.len(),
{
    if seen.len() > 0 {
        let before = seen.drop_last();
        assert forall|i: int| 0 <= i < before.len() implies #[trigger] before[i] != SeenView::Fence(
            "csl-json"@,
        ) by {
            assert(before[i] == seen[i]);
        }
        events_without_citations_all_stay(before, context, outcomes);
        assert(seen[seen.len() - 1] != SeenView::Fence("csl-json"@));
        let earlier = drafted(before, context, outcomes).pieces;
        let all = drafted(seen, context, outcomes).pieces;
        assert forall|i: int| 0 <= i < seen.len() implies draft_at(#[trigger] all[i]) == Some(i) by {
            if i < earlier.len() {
                assert(all[i] == earlier[i]);
            }
        }
    }
}

/// A transformed body without citation blocks has every event of the body, in the same order, and
/// nothing else: only destinations of links are exchanged.
pub proof fn nothing_of_a_body_is_lost(
    body: Seq<char>,
    context: &LinkContext,
    outcomes: Seq<Canonical>,
    i: int,
) -> (pieces: Seq<PieceView>)
    requires
        transformed(body, context, outcomes) is Ok,
        forall|k: int|
            0 <= k < events::events_of(body, MARKDOWN_OPTIONS).len()
                ==> #[trigger] events::events_of(body, MARKDOWN_OPTIONS)[k] != EventView::Fence(
                "csl-json"@,
            ),
        0 <= i < events::events_of(body, MARKDOWN_OPTIONS).len(),
    ensures
        events::written(body, MARKDOWN_OPTIONS, pieces) == Some(
            transformed(body, context, outcomes)->Ok_0,
        ),
        pieces.len() == events::events_of(body, MARKDOWN_OPTIONS).len(),
        pieces[i] matches PieceView::Source { at, dest } && at == i && (!(events::events_of(
            body,
            MARKDOWN_OPTIONS,
        )[i] is Link) ==> dest is None),
{
    let found = events::events_of(body, MARKDOWN_OPTIONS);
    let seen = seen_in(body);
    assert(sees(seen, found));
    let draft = drafted(seen, context, outcomes);
    let pieces = completed(draft.pieces)->Ok_0;
    assert forall|k: int| 0 <= k < seen.len() implies #[trigger] seen[k] != SeenView::Fence(
        "csl-json"@,
    ) by {
        assert(seen[k] == seen_as(found[k]));
        assert(found[k] != EventView::Fence("csl-json"@));
    }
    events_without_citations_all_stay(seen, context, outcomes);
    draft_keeps_order(seen, context, outcomes);
    completed_fits(draft.pieces, seen.len() as int);
    assert(completed_piece(draft.pieces[i]) == Ok::<PieceView, TransformFailure>(pieces[i]));
    assert(draft_at(draft.pieces[i]) == Some(i));
    if !(found[i] is Link) {
        assert(seen[i] == seen_as(found[i]));
        other_events_keep_their_piece(seen, context, outcomes, i);
    }
    pieces
}

proof fn other_events_keep_their_piece(
    seen: Seq<SeenView>,
    context: &LinkContext,
    outcomes: Seq<Canonical>,
    i: int,
)
    requires
        drafted(seen, context, outcomes).failure is None,
        forall|k: int|
            0 <= k < seen.len() ==> #[trigger] seen[k] != SeenView::Fence("csl-json"@),
        0 <= i < seen.len(),
        !(seen[i] is Link),
    ensures
        drafted(seen, context, outcomes).pieces.len() == seen.len(),
        drafted(seen, context, outcomes).pieces[i] == DraftView::Source(i),
    decreases seen.len(),
{
    events_without_citations_all_stay(seen, context, outcomes);
    let before = seen.drop_last();
    assert forall|k: int| 0 <= k < before.len() implies #[trigger] before[k] != SeenView::Fence(
        "csl-json"@,
    ) by {
        assert(before[k] == seen[k]);
    }
    events_without_citations_all_stay(before, context, outcomes);
    if i < seen.len() - 1 {
        assert(before[i] == seen[i]);
        other_events_keep_their_piece(before, context, outcomes, i);
    } else {
        assert(seen[i] != SeenView::Fence("csl-json"@));
    }
}

spec fn good_outcome(outcome: Canonical, base: Seq<char>) -> bool {
    outcome matches Canonical::Found(target) && path::stripped(target@, base) matches Some(relative)
        && iri::is_reference_path("@/"@ + relative)
}

#[verifier::rlimit(60)]
proof fn good_links_do_not_fail(
    seen: Seq<SeenView>,
    found: Seq<EventView>,
    context: &LinkContext,
    outcomes: Seq<Canonical>,
    base: Seq<char>,
)
    requires
        sees(seen, found),
        *context.canonical_root matches Canonical::Found(text) && text@ == base,
        forall|i: int|
            0 <= i < found.len() ==> (#[trigger] found[i] matches EventView::Link(dest)
                ==> iri::is_reference(dest)),
        forall|i: int| 0 <= i < found.len() ==> #[trigger] found[i] != EventView::Fence("csl-json"@),
        outcomes.len() >= markdown_links(found),
        forall|j: int| 0 <= j < outcomes.len() ==> good_outcome(#[trigger] outcomes[j], base),
    ensures
        drafted(seen, context, outcomes).failure is None,
        drafted(seen, context, outcomes).open is None,
        completed(drafted(seen, context, outcomes).pieces) is Ok,
    decreases seen.len(),
{
    if seen.len() > 0 {
        let before = seen.drop_last();
        let earlier = found.drop_last();
        assert(sees(before, earlier)) by {
            assert forall|i: int| 0 <= i < before.len() implies #[trigger] before[i] == seen_as(
                earlier[i],
            ) by {
                assert(seen[i] == seen_as(found[i]));
            }
        }
        assert forall|i: int| 0 <= i < earlier.len() implies (#[trigger] earlier[i] matches EventView::Link(
            dest,
        ) ==> iri::is_reference(dest)) by {
            assert(earlier[i] == found[i]);
        }
        assert forall|i: int| 0 <= i < earlier.len() implies #[trigger] earlier[i]
            != EventView::Fence("csl-json"@) by {
            assert(earlier[i] == found[i]);
        }
        good_links_do_not_fail(before, earlier, context, outcomes, base);
        draft_keeps_order(before, context, outcomes);
        probes_are_counted(before, earlier, context.root@, context.parent@);
        let last = found[found.len() - 1];
        assert(seen[seen.len() - 1] == seen_as(last));
        assert(last != EventView::Fence("csl-json"@));
        let progress = drafted(before, context, outcomes);
        let made = drafted(seen, context, outcomes);
        if let EventView::Link(dest) = last {
            assert(iri::is_reference(dest));
            if links::points_to_markdown(iri::parts_of(dest)) {
                assert(progress.used < outcomes.len());
                assert(good_outcome(outcomes[progress.used], base));
            }
        }
        assert(made.failure is None);
        assert(made.pieces.len() == progress.pieces.len() + 1);
        assert(made.pieces.drop_last() =~= progress.pieces);
        assert(completed_piece(made.pieces.last()) is Ok);
    }
}

/// A body without citation blocks is transformed wherever it can be: all its links are references, each
/// target that it asks for is found below the content directory, and the Markdown can be written.
pub proof fn bodies_with_good_links_are_transformed(
    body: Seq<char>,
    context: &LinkContext,
    outcomes: Seq<Canonical>,
    base: Seq<char>,
)
    requires
        *context.canonical_root matches Canonical::Found(text) && text@ == base,
        forall|i: int|
            0 <= i < events::events_of(body, MARKDOWN_OPTIONS).len() ==> (
            #[trigger] events::events_of(body, MARKDOWN_OPTIONS)[i] matches EventView::Link(dest)
                ==> iri::is_reference(dest)),
        forall|i: int|
            0 <= i < events::events_of(body, MARKDOWN_OPTIONS).len()
                ==> #[trigger] events::events_of(body, MARKDOWN_OPTIONS)[i] != EventView::Fence(
                "csl-json"@,
            ),
        outcomes.len() == markdown_links(events::events_of(body, MARKDOWN_OPTIONS)),
        forall|j: int|
            0 <= j < outcomes.len() ==> (#[trigger] outcomes[j] matches Canonical::Found(target)
                && path::stripped(target@, base) matches Some(relative) && iri::is_reference_path(
                "@/"@ + relative,
            )),
        forall|pieces: Seq<PieceView>| #[trigger]
            events::written(body, MARKDOWN_OPTIONS, pieces) is Some,
    ensures
        transformed(body, context, outcomes) is Ok,
{
    let found = events::events_of(body, MARKDOWN_OPTIONS);
    let seen = seen_in(body);
    assert(sees(seen, found));
    probes_are_counted(seen, found, context.root@, context.parent@);
    assert forall|j: int| 0 <= j < outcomes.len() implies good_outcome(#[trigger] outcomes[j], base) by {
        assert(outcomes[j] is Found);
    }
    good_links_do_not_fail(seen, found, context, outcomes, base);
}

} // verus!
