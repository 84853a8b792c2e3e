//! Addresses as text.

use vstd::prelude::*;

use crate::text;

verus! {

/// The text of the URL that a text is, written in its normal form.
pub uninterp spec fn normal_url(s: Seq<char>) -> Option<Seq<char>>;

/// The text of the `file` URL of a directory.
pub uninterp spec fn directory_url_of(dir: Seq<char>) -> Option<Seq<char>>;

/// Whether a URL is of the `file` scheme.
pub open spec fn is_file_url(url: Seq<char>) -> bool {
    text::has_prefix(url, "file:"@)
}

/// `Url::parse` of the crate `url`, and the text of what it gives.
#[verifier::external_body]
pub(crate) fn parse(text: &str) -> (out: Option<String>)
    ensures
        text::optional(out) == normal_url(text@),
{
    url::Url::parse(text).ok().map(|url| url.as_str().to_owned())
}

/// `Url::from_directory_path` of the crate `url`, and the text of what it gives: a URL of the `file`
/// scheme that ends with a slash. Which paths have one, the absolute ones, differs between systems.
#[verifier::external_body]
pub(crate) fn directory_url(dir: &str) -> (out: Option<String>)
    ensures
        text::optional(out) == directory_url_of(dir@),
        out matches Some(url) ==> is_file_url(url@) && text::has_suffix(url@, "/"@),
{
    url::Url::from_directory_path(dir).ok().map(|url| url.as_str().to_owned())
}

/// The message for a text that is no URL.
pub open spec fn url_message(text: Seq<char>) -> Seq<char> {
    text::glued(seq!["invalid URL `"@, text, "`"@])
}

/// The URL that a text is, in its normal form, or the message for a text that is none.
pub fn normalize(text: &str) -> (out: Result<String, String>)
    ensures
        match out {
            Ok(url) => normal_url(text@) == Some(url@),
            Err(message) => normal_url(text@) is None && message@ == url_message(text@),
        },
{
    match parse(text) {
        Some(url) => Ok(url),
        None => Err(text::wrap("invalid URL `", text, "`")),
    }
}

/// Whether a URL is of the `file` scheme.
pub fn has_file_scheme(url: &str) -> (yes: bool)
    ensures
        yes == is_file_url(url@),
{
    text::starts_with(url, "file:")
}

} // verus!
