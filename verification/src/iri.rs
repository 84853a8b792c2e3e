//! References as RFC 3987 writes them, and their parts.

use vstd::prelude::*;

use crate::text;

verus! {

/// The parts of a reference that links are read for.
#[derive(Debug, Clone, PartialEq, Eq)]
pub struct Reference {
    pub authority: Option<String>,
    pub path: String,
    pub query: Option<String>,
    pub fragment: Option<String>,
}

/// What the parts of a reference stand for.
pub struct ReferenceView {
    pub authority: Option<Seq<char>>,
    pub path: Seq<char>,
    pub query: Option<Seq<char>>,
    pub fragment: Option<Seq<char>>,
}

impl View for Reference {
    type V = ReferenceView;

    open spec fn view(&self) -> ReferenceView {
        ReferenceView {
            authority: text::optional(self.authority),
            path: self.path@,
            query: text::optional(self.query),
            fragment: text::optional(self.fragment),
        }
    }
}

/// Whether the text is a valid reference.
pub uninterp spec fn is_reference(s: Seq<char>) -> bool;

/// Whether the text is a valid path of a reference.
pub uninterp spec fn is_reference_path(s: Seq<char>) -> bool;

/// The position of the first of the characters `stops` at or behind `i`, or the length of `s`.
pub open spec fn next_of(s: Seq<char>, i: int, stops: Seq<char>) -> int
    decreases s.len() - i,
{
    if i < 0 || i >= s.len() {
        s.len() as int
    } else if stops.contains(s[i]) {
        i
    } else {
        next_of(s, i + 1, stops)
    }
}

/// Where the scheme and its colon end: at the start where there is none.
pub open spec fn scheme_end(s: Seq<char>) -> int {
    let stop = next_of(s, 0, seq![':', '/', '?', '#']);
    if stop < s.len() && s[stop] == ':' {
        stop + 1
    } else {
        0
    }
}

/// Whether two slashes start an authority.
pub open spec fn has_authority(s: Seq<char>) -> bool {
    let i = scheme_end(s);
    i + 2 <= s.len() && s[i] == '/' && s[i + 1] == '/'
}

/// Where the path starts.
pub open spec fn path_start(s: Seq<char>) -> int {
    if has_authority(s) {
        next_of(s, scheme_end(s) + 2, seq!['/', '?', '#'])
    } else {
        scheme_end(s)
    }
}

/// Where the path ends.
pub open spec fn path_end(s: Seq<char>) -> int {
    next_of(s, path_start(s), seq!['?', '#'])
}

/// Where the fragment and its mark start, or the length of the text.
pub open spec fn fragment_start(s: Seq<char>) -> int {
    next_of(s, path_end(s), seq!['#'])
}

/// The parts of a reference.
pub open spec fn parts_of(s: Seq<char>) -> ReferenceView {
    ReferenceView {
        authority: if has_authority(s) {
            Some(s.subrange(scheme_end(s) + 2, path_start(s)))
        } else {
            None
        },
        path: s.subrange(path_start(s), path_end(s)),
        query: if path_end(s) < s.len() && s[path_end(s)] == '?' {
            Some(s.subrange(path_end(s) + 1, fragment_start(s)))
        } else {
            None
        },
        fragment: if fragment_start(s) < s.len() {
            Some(s.skip(fragment_start(s) + 1))
        } else {
            None
        },
    }
}

/// The reference with another path.
pub open spec fn with_other_path(s: Seq<char>, path: Seq<char>) -> Seq<char> {
    s.take(path_start(s)) + path + s.skip(path_end(s))
}

/// `IriRefBuf::new` of the crate `iref`, and `authority`, `path`, `query` and `fragment` of what it
/// gives: nothing where the text is no valid reference, else its parts. Which texts are valid is
/// named; the parts are found by their delimiters alone.
#[verifier::external_body]
pub(crate) fn reference(text: &str) -> (out: Option<Reference>)
    ensures
        out is Some == is_reference(text@),
        out matches Some(parts) ==> parts@ == parts_of(text@),
{
    let iri = iref::IriRefBuf::new(text.to_owned()).ok()?;
    Some(
        Reference {
            authority: iri.authority().map(|part| part.as_str().to_owned()),
            path: iri.path().as_str().to_owned(),
            query: iri.query().map(|part| part.as_str().to_owned()),
            fragment: iri.fragment().map(|part| part.as_str().to_owned()),
        },
    )
}

/// `IriRefBuf::set_path` of the crate `iref`, on a reference without an authority, with a path that
/// starts with an at sign, which neither an authority nor a scheme does: the path is exchanged and
/// all else stays. Nothing where the new path is no valid path of a reference.
#[verifier::external_body]
pub(crate) fn set_path(text: &str, path: &str) -> (out: Option<String>)
    requires
        is_reference(text@),
        !has_authority(text@),
        path@.len() > 0 && path@[0] == '@',
    ensures
        out is Some == is_reference_path(path@),
        out matches Some(changed) ==> changed@ == with_other_path(text@, path@),
{
    let mut iri = iref::IriRefBuf::new(text.to_owned()).ok()?;
    iri.set_path(iref::iri::Path::new(path).ok()?);
    Some(iri.into_string())
}

} // verus!
