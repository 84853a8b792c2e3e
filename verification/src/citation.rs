//! Citations written as CSL-JSON.

use citationberg::json::Item;
use citationberg::Style;
use hayagriva::archive::ArchivedStyle;
use hayagriva::{
    BibliographyDriver, BibliographyRequest, BufWriteFormat, CitationItem, CitationRequest,
};
use vstd::prelude::*;

use crate::csl;

verus! {

/// The key of a citation that the citation processor does not read.
pub const CUSTOM_KEY: &'static str = "custom";

/// Why a text is no citation.
#[derive(Debug, Clone, Copy, PartialEq, Eq, Structural)]
pub enum CitationFailure {
    /// The text is no JSON.
    InvalidJson,
    /// The JSON is no object.
    NotObject,
    /// The object is no citation.
    NotValid,
    /// The citation holds a date or a number that the citation processor cannot print.
    Unsupported,
    /// The citation style has no bibliography.
    NoBibliography,
}

/// The JSON object of a text without one of its keys, written out again.
pub uninterp spec fn object_without(text: Seq<char>, key: Seq<char>) -> Result<
    Seq<char>,
    CitationFailure,
>;

/// The bibliography entry, as HTML, of a citation that a JSON object describes.
pub uninterp spec fn bibliography_html(object: Seq<char>) -> Result<Seq<char>, CitationFailure>;

/// The HTML of the citation that a code block holds. A citation with a month or a day of zero is not
/// valid, and one that the processor cannot print is not handed to it.
pub open spec fn citation_html(text: Seq<char>) -> Result<Seq<char>, CitationFailure> {
    match object_without(text, CUSTOM_KEY@) {
        Ok(object) => if csl::has_zero_date(object) {
            Err(CitationFailure::NotValid)
        } else {
            match csl::citation_members(object) {
                None => Err(CitationFailure::NotValid),
                Some(members) => if csl::is_supported(members) {
                    bibliography_html(object)
                } else {
                    Err(CitationFailure::Unsupported)
                },
            }
        },
        Err(failure) => Err(failure),
    }
}

/// Whether an outcome is the given one.
pub open spec fn outcome_is(
    out: Result<String, CitationFailure>,
    wanted: Result<Seq<char>, CitationFailure>,
) -> bool {
    match out {
        Ok(text) => wanted == Ok::<Seq<char>, CitationFailure>(text@),
        Err(failure) => wanted == Err::<Seq<char>, CitationFailure>(failure),
    }
}

/// `from_str`, `Value::as_object_mut`, `Map::remove` and `to_string` of the crate `serde_json`: the
/// object that the text holds, without the given key.
#[verifier::external_body]
fn without_key(text: &str, key: &str) -> (out: Result<String, CitationFailure>)
    ensures
        outcome_is(out, object_without(text@, key@)),
{
    let mut value: serde_json::Value = serde_json::from_str(text).map_err(
        |_| CitationFailure::InvalidJson,
    )?;
    value.as_object_mut().ok_or(CitationFailure::NotObject)?.remove(key);
    Ok(value.to_string())
}

/// `BibliographyDriver` of the crate `hayagriva`, on the one `Item` of the crate `citationberg` that
/// the JSON object describes, read by the crate `serde_json`, in the style of the American
/// Psychological Association: the HTML of the bibliography. Reading the item subtracts one from the
/// month and the day of a date written as one text, so neither may be zero. The driver panics on a
/// date that is a range, has no year, or has a month or a day that one cannot be subtracted from,
/// and on a number of a law in whose first character it cuts the text; `is_supported` leaves them
/// out, for the dates that the style reads.
#[verifier::external_body]
fn bibliography(object: &str) -> (out: Result<String, CitationFailure>)
    requires
        !csl::has_zero_date(object@),
        csl::citation_members(object@) matches Some(members) && csl::is_supported(members),
    ensures
        outcome_is(out, bibliography_html(object@)),
{
    let item: Item = serde_json::from_str(object).and_then(serde_json::from_value).map_err(|_| CitationFailure::NotValid)?;
    let locales = hayagriva::archive::locales();
    let style = match ArchivedStyle::AmericanPsychologicalAssociation.get() {
        Style::Independent(style) => style,
        Style::Dependent(_) => return Err(CitationFailure::NoBibliography),
    };
    let mut driver = BibliographyDriver::new();
    driver.citation(CitationRequest::from_items(vec![CitationItem::with_entry(&item)], &style, &locales));
    let found = driver.finish(
        BibliographyRequest { style: &style, locale: None, locale_files: &locales },
    ).bibliography.ok_or(CitationFailure::NoBibliography)?;
    let mut html = String::new();
    found.items.iter().for_each(|entry| entry.content.write_buf(&mut html, BufWriteFormat::Html).unwrap());
    Ok(html)
}

/// The HTML of the citation that a code block holds.
pub fn render(text: &str) -> (out: Result<String, CitationFailure>)
    ensures
        outcome_is(out, citation_html(text@)),
{
    match without_key(text, CUSTOM_KEY) {
        Ok(object) => {
            if csl::check_zero_date(object.as_str()) {
                return Err(CitationFailure::NotValid);
            }
            match csl::read_citation(object.as_str()) {
                None => Err(CitationFailure::NotValid),
                Some(members) => if csl::check_supported(&members) {
                    bibliography(object.as_str())
                } else {
                    Err(CitationFailure::Unsupported)
                },
            }
        },
        Err(failure) => Err(failure),
    }
}

/// The message for a text that is no citation.
pub open spec fn citation_message(failure: CitationFailure) -> Seq<char> {
    match failure {
        CitationFailure::InvalidJson => "invalid JSON in citation"@,
        CitationFailure::NotObject => "citation is not a JSON object"@,
        CitationFailure::NotValid => "citation not valid"@,
        CitationFailure::Unsupported => "citation not supported"@,
        CitationFailure::NoBibliography => "citation style without a bibliography"@,
    }
}

impl CitationFailure {
    /// The message of the failure.
    pub fn message(&self) -> (out: String)
        ensures
            out@ == citation_message(*self),
    {
        match self {
            CitationFailure::InvalidJson => "invalid JSON in citation".to_owned(),
            CitationFailure::NotObject => "citation is not a JSON object".to_owned(),
            CitationFailure::NotValid => "citation not valid".to_owned(),
            CitationFailure::Unsupported => "citation not supported".to_owned(),
            CitationFailure::NoBibliography => "citation style without a bibliography".to_owned(),
        }
    }
}

/// A citation is the entry that the processor makes of its JSON object without the key `custom`, where
/// that object is a citation that the processor can print; a text that is no object says so.
pub proof fn citations_are_printed_without_their_custom_data(
    text: Seq<char>,
    object: Seq<char>,
    members: Seq<(Seq<char>, csl::CslView)>,
)
    requires
        object_without(text, "custom"@) == Ok::<Seq<char>, CitationFailure>(object),
        !csl::has_zero_date(object),
        csl::citation_members(object) == Some(members),
    ensures
        csl::is_supported(members) ==> citation_html(text) == bibliography_html(object),
        !csl::is_supported(members) ==> citation_html(text) == Err::<Seq<char>, CitationFailure>(
            CitationFailure::Unsupported,
        ),
{
}

/// A text that is no JSON object, and an object that is no citation, gives no citation.
pub proof fn other_texts_are_no_citations(text: Seq<char>)
    ensures
        object_without(text, "custom"@) matches Err(failure) ==> citation_html(text) == Err::<
            Seq<char>,
            CitationFailure,
        >(failure),
        object_without(text, "custom"@) matches Ok(object) ==> (csl::citation_members(object) is None
            ==> citation_html(text) == Err::<Seq<char>, CitationFailure>(CitationFailure::NotValid)),
{
}

} // verus!
