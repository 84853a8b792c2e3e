//! Markdown as a sequence of events.

use pulldown_cmark::{CodeBlockKind, Event, Options, Parser, Tag, TagEnd};
use vstd::prelude::*;

verus! {

/// The extensions that Markdown is read with: tables, footnotes, strikethrough, task lists and
/// heading attributes, each as its bit.
pub const MARKDOWN_OPTIONS: u32 = 2 + 4 + 8 + 16 + 64;

/// An event of a Markdown text, as far as links and citations ask for it.
#[derive(Debug, Clone, PartialEq, Eq)]
pub enum MarkdownEvent {
    /// The start of a link or an image with this destination.
    Link(String),
    /// The start of a fenced code block with this info string.
    Fence(String),
    /// The end of a code block.
    CodeEnd,
    /// A piece of text.
    Text(String),
    /// Anything else.
    Other,
}

/// What an event stands for.
pub enum EventView {
    Link(Seq<char>),
    Fence(Seq<char>),
    CodeEnd,
    Text(Seq<char>),
    Other,
}

impl View for MarkdownEvent {
    type V = EventView;

    open spec fn view(&self) -> EventView {
        match self {
            MarkdownEvent::Link(dest) => EventView::Link(dest@),
            MarkdownEvent::Fence(info) => EventView::Fence(info@),
            MarkdownEvent::CodeEnd => EventView::CodeEnd,
            MarkdownEvent::Text(text) => EventView::Text(text@),
            MarkdownEvent::Other => EventView::Other,
        }
    }
}

/// A piece of Markdown to write.
#[derive(Debug, Clone, PartialEq, Eq)]
pub enum Piece {
    /// The event of the source at this position, with another destination where one is given.
    Source { at: usize, dest: Option<String> },
    /// Inline HTML.
    Html(String),
}

/// What a piece stands for.
pub enum PieceView {
    Source { at: int, dest: Option<Seq<char>> },
    Html(Seq<char>),
}

impl View for Piece {
    type V = PieceView;

    open spec fn view(&self) -> PieceView {
        match self {
            Piece::Source { at, dest } => PieceView::Source {
                at: *at as int,
                dest: match dest {
                    Some(dest) => Some(dest@),
                    None => None,
                },
            },
            Piece::Html(html) => PieceView::Html(html@),
        }
    }
}

/// What a list of events stands for.
pub open spec fn event_views(list: Seq<MarkdownEvent>) -> Seq<EventView> {
    Seq::new(list.len(), |i: int| list[i]@)
}

/// What a list of pieces stands for.
pub open spec fn piece_views(list: Seq<Piece>) -> Seq<PieceView> {
    Seq::new(list.len(), |i: int| list[i]@)
}

/// The events of a Markdown text read with the extensions `options`.
pub uninterp spec fn events_of(text: Seq<char>, options: u32) -> Seq<EventView>;

/// The Markdown that is written for pieces of a text read with the extensions `options`.
pub uninterp spec fn written(text: Seq<char>, options: u32, pieces: Seq<PieceView>) -> Option<
    Seq<char>,
>;

/// Whether each piece out of the source stands there, behind the ones before it.
pub open spec fn pieces_fit(pieces: Seq<PieceView>, count: int) -> bool {
    &&& forall|i: int|
        0 <= i < pieces.len() ==> (#[trigger] pieces[i] matches PieceView::Source { at, dest }
            ==> 0 <= at < count)
    &&& forall|i: int, j: int|
        0 <= i < j < pieces.len() ==> (#[trigger] pieces[i] matches PieceView::Source { at, .. }
            ==> (#[trigger] pieces[j] matches PieceView::Source { at: later, .. } ==> at < later))
}

/// `Parser::new_ext` of the crate `pulldown-cmark`: the events of a Markdown text, each reduced to
/// what this library reads of it.
#[verifier::external_body]
pub(crate) fn read(text: &str, options: u32) -> (out: Vec<MarkdownEvent>)
    ensures
        event_views(out@) == events_of(text@, options),
{
    Parser::new_ext(text, Options::from_bits_truncate(options)).map(|event| match event {
        Event::Start(Tag::Image { dest_url, .. }) => MarkdownEvent::Link(dest_url.into_string()),
        Event::Start(Tag::Link { dest_url, .. }) => MarkdownEvent::Link(dest_url.into_string()),
        Event::Start(Tag::CodeBlock(CodeBlockKind::Fenced(info))) => MarkdownEvent::Fence(info.into_string()),
        Event::End(TagEnd::CodeBlock) => MarkdownEvent::CodeEnd,
        Event::Text(text) => MarkdownEvent::Text(text.into_string()),
        _ => MarkdownEvent::Other,
    }).collect()
}

/// `cmark` of the crate `pulldown-cmark-to-cmark`, on the given pieces of the text: its events at
/// the given positions, a link or an image with its new destination, and inline HTML. Nothing where
/// the events cannot be written.
#[verifier::external_body]
pub(crate) fn write(text: &str, options: u32, pieces: &Vec<Piece>) -> (out: Option<String>)
    requires
        pieces_fit(piece_views(pieces@), events_of(text@, options).len() as int),
    ensures
        match out {
            Some(out) => written(text@, options, piece_views(pieces@)) == Some(out@),
            None => written(text@, options, piece_views(pieces@)) is None,
        },
{
    let mut events: Vec<Event> = Parser::new_ext(text, Options::from_bits_truncate(options)).collect();
    let chosen: Vec<Event> = pieces.iter().map(|piece| match piece {
        Piece::Source { at, dest } => {
            if let (Event::Start(Tag::Image { dest_url, .. } | Tag::Link { dest_url, .. }), Some(dest)) = (&mut events[*at], dest) {
                *dest_url = dest.clone().into();
            }
            events[*at].clone()
        },
        Piece::Html(html) => Event::InlineHtml(html.clone().into()),
    }).collect();
    let mut out = String::new();
    pulldown_cmark_to_cmark::cmark(chosen.iter(), &mut out).ok().map(|_| out)
}

} // verus!
