//! The preamble of a proposal: where it stands in the text, and the fields it has.

use vstd::prelude::*;

use crate::text;

verus! {

/// Why a text has no preamble at its start.
#[derive(Debug, Clone, Copy, PartialEq, Eq, Structural)]
pub enum SplitFailure {
    /// There is no marker line.
    MissingStart,
    /// There is one marker line only.
    MissingEnd,
    /// The first marker line is not the first line.
    LeadingGarbage,
}

/// A field of a preamble, as it is written.
#[derive(Debug, Clone, PartialEq, Eq)]
pub struct Field {
    pub name: String,
    pub value: String,
}

/// What a field stands for.
pub struct FieldView {
    pub name: Seq<char>,
    pub value: Seq<char>,
}

impl View for Field {
    type V = FieldView;

    open spec fn view(&self) -> FieldView {
        FieldView { name: self.name@, value: self.value@ }
    }
}

/// Where a marker whose dashes start at `i` ends, its line end with it.
pub open spec fn dashes_end(s: Seq<char>, i: int) -> Option<int> {
    if 0 <= i && i + 3 <= s.len() && s[i] == '-' && s[i + 1] == '-' && s[i + 2] == '-' {
        if i + 3 == s.len() {
            Some(i + 3)
        } else if s[i + 3] == '\n' {
            Some(i + 4)
        } else {
            None
        }
    } else {
        None
    }
}

/// Where a marker that starts at `i` ends: dashes at the start of the text, or behind a line end.
pub open spec fn marker_end(s: Seq<char>, i: int) -> Option<int> {
    if i == 0 && dashes_end(s, 0) is Some {
        dashes_end(s, 0)
    } else if 0 <= i < s.len() && s[i] == '\n' {
        dashes_end(s, i + 1)
    } else {
        None
    }
}

/// The start and the end of the first marker at or behind `from`.
pub open spec fn first_marker(s: Seq<char>, from: int) -> Option<(int, int)>
    decreases s.len() - from,
{
    if from < 0 || from >= s.len() {
        None
    } else {
        match marker_end(s, from) {
            Some(end) => Some((from, end)),
            None => first_marker(s, from + 1),
        }
    }
}

/// The preamble and the body of a text.
pub open spec fn divided(s: Seq<char>) -> Result<(Seq<char>, Seq<char>), SplitFailure> {
    match first_marker(s, 0) {
        None => Err(SplitFailure::MissingStart),
        Some((start, start_end)) => match first_marker(s, start_end) {
            None => Err(SplitFailure::MissingEnd),
            Some((end, end_end)) => if start != 0 {
                Err(SplitFailure::LeadingGarbage)
            } else {
                Ok((s.subrange(start_end, end), s.skip(end_end)))
            },
        },
    }
}

/// The field that a line of a preamble has.
pub open spec fn field_of(line: Seq<char>) -> Option<FieldView> {
    let colon = text::first_index(line, ':');
    if colon < line.len() {
        Some(FieldView { name: line.take(colon), value: line.skip(colon + 1) })
    } else {
        None
    }
}

/// The fields of a preamble, where each of its lines has one.
pub open spec fn fields_of(s: Seq<char>) -> Option<Seq<FieldView>> {
    let lines = text::split_on(s, '\n');
    if forall|i: int| 0 <= i < lines.len() ==> field_of(#[trigger] lines[i]) is Some {
        Some(Seq::new(lines.len(), |i: int| field_of(lines[i])->0))
    } else {
        None
    }
}

/// What a list of fields stands for.
pub open spec fn field_views(list: Seq<Field>) -> Seq<FieldView> {
    Seq::new(list.len(), |i: int| list[i]@)
}

/// `Preamble::split` of the crate `eipw-preamble`: the text between the first two marker lines, and
/// the text behind the second. A marker is three dashes on a line of their own; the second is looked
/// for behind the line end of the first.
#[verifier::external_body]
pub(crate) fn split(text: &str) -> (out: Result<(String, String), SplitFailure>)
    ensures
        match out {
            Ok((preamble, body)) => divided(text@) == Ok::<(Seq<char>, Seq<char>), SplitFailure>(
                (preamble@, body@),
            ),
            Err(failure) => divided(text@) == Err::<(Seq<char>, Seq<char>), SplitFailure>(failure),
        },
{
    match eipw_preamble::Preamble::split(text) {
        Ok((preamble, body)) => Ok((preamble.to_owned(), body.to_owned())),
        Err(eipw_preamble::SplitError::MissingStart { .. }) => Err(SplitFailure::MissingStart),
        Err(eipw_preamble::SplitError::MissingEnd { .. }) => Err(SplitFailure::MissingEnd),
        Err(eipw_preamble::SplitError::LeadingGarbage { .. }) => Err(SplitFailure::LeadingGarbage),
    }
}

/// `Preamble::parse` and `Preamble::fields` of the crate `eipw-preamble`: one field for each line,
/// its name before the first colon and its value behind it; none where a line has no colon. The
/// origin only appears in the messages of the errors, which are dropped.
#[verifier::external_body]
pub(crate) fn parse(origin: &str, text: &str) -> (out: Option<Vec<Field>>)
    ensures
        match out {
            Some(list) => fields_of(text@) == Some(field_views(list@)),
            None => fields_of(text@) is None,
        },
{
    let preamble = eipw_preamble::Preamble::parse(Some(origin), text).ok()?;
    Some(
        preamble.fields().map(|field| {
            Field { name: field.name().to_owned(), value: field.value().to_owned() }
        }).collect(),
    )
}

} // verus!
