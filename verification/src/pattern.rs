//! The regular expressions of the library, and what they match.

use vstd::prelude::*;

use crate::text;

verus! {

/// The name of a location in a manifest.
pub const LOCATION_NAME: &'static str = r"^[a-zA-Z0-9_-]+$";

/// An author's name.
pub const AUTHOR_NAME: &'static str = r"^([^()<>,@]+)$";

/// An author's name and GitHub handle.
pub const AUTHOR_GITHUB: &'static str = r"^([^()<>,@]+) \(@([a-zA-Z\d-]+)\)$";

/// An author's name and email address.
pub const AUTHOR_EMAIL: &'static str = r"^([^()<>,@]+) <([^@][^>]*@[^>]+\.[^>]+)>$";

/// An author's name, GitHub handle and email address.
pub const AUTHOR_BOTH: &'static str =
    r"^([^()<>,@]+) \(@([a-zA-Z\d-]+)\) <([^@][^>]*@[^>]+\.[^>]+)>$";

/// Whether a character is in the class `\d` of decimal digits, ASCII or not.
pub uninterp spec fn decimal_digit(c: char) -> bool;

/// Whether the text is a location name.
pub open spec fn location_name(s: Seq<char>) -> bool {
    s.len() > 0 && forall|i: int|
        0 <= i < s.len() ==> text::is_alphanumeric(#[trigger] s[i]) || s[i] == '_' || s[i] == '-'
}

/// Whether the text is not empty and has none of the characters that mark a handle, an address or
/// the next author.
pub open spec fn author_name(s: Seq<char>) -> bool {
    s.len() > 0 && forall|i: int|
        0 <= i < s.len() ==> (#[trigger] s[i]) != '(' && s[i] != ')' && s[i] != '<' && s[i] != '>'
            && s[i] != ',' && s[i] != '@'
}

/// Whether the text is a GitHub handle.
pub open spec fn handle(s: Seq<char>) -> bool {
    s.len() > 0 && forall|i: int|
        0 <= i < s.len() ==> text::is_alphanumeric(#[trigger] s[i]) || s[i] == '-'
            || decimal_digit(s[i])
}

/// Whether the text is an email address: some at sign behind the first character, and behind it,
/// not at once, a dot that does not end the text.
pub open spec fn email_address(s: Seq<char>) -> bool {
    &&& s.len() > 0 && s[0] != '@'
    &&& forall|i: int| 1 <= i < s.len() ==> #[trigger] s[i] != '>'
    &&& exists|at: int, dot: int|
        #![trigger s[at], s[dot]]
        1 <= at && at + 2 <= dot && dot + 1 < s.len() && s[at] == '@' && s[dot] == '.'
}

/// The text of a name and a handle.
pub open spec fn github_text(name: Seq<char>, user: Seq<char>) -> Seq<char> {
    name + seq![' ', '(', '@'] + user + seq![')']
}

/// The text of a name and an address.
pub open spec fn email_text(name: Seq<char>, email: Seq<char>) -> Seq<char> {
    name + seq![' ', '<'] + email + seq!['>']
}

/// The text of a name, a handle and an address.
pub open spec fn both_text(name: Seq<char>, user: Seq<char>, email: Seq<char>) -> Seq<char> {
    github_text(name, user) + seq![' ', '<'] + email + seq!['>']
}

/// Whether the text is a name and a handle.
pub open spec fn is_github(s: Seq<char>, name: Seq<char>, user: Seq<char>) -> bool {
    author_name(name) && handle(user) && s == github_text(name, user)
}

/// Whether the text is a name and an address.
pub open spec fn is_email(s: Seq<char>, name: Seq<char>, email: Seq<char>) -> bool {
    author_name(name) && email_address(email) && s == email_text(name, email)
}

/// Whether the text is a name, a handle and an address.
pub open spec fn is_both(s: Seq<char>, name: Seq<char>, user: Seq<char>, email: Seq<char>) -> bool {
    author_name(name) && handle(user) && email_address(email) && s == both_text(name, user, email)
}

/// Whether a match has the groups `wanted` behind the whole text.
pub open spec fn groups_are(found: Seq<Option<String>>, wanted: Seq<Seq<char>>) -> bool {
    &&& found.len() == wanted.len() + 1
    &&& forall|i: int|
        1 <= i < found.len() ==> (#[trigger] found[i] matches Some(group) && group@ == wanted[i - 1])
}

/// `Regex::captures` of the crate `regex`, for the patterns of this module. A match gives the
/// matched text and behind it the text of each group of the pattern. The patterns are anchored at
/// both ends, so a match reads the whole text, and each of them reads a text in one way. Among the
/// ASCII characters, the class `\d` has the ten digits.
#[verifier::external_body]
pub(crate) fn captures(pattern: &str, text: &str) -> (found: Option<Vec<Option<String>>>)
    requires
        pattern@ == LOCATION_NAME@ || pattern@ == AUTHOR_NAME@ || pattern@ == AUTHOR_GITHUB@
            || pattern@ == AUTHOR_EMAIL@ || pattern@ == AUTHOR_BOTH@,
    ensures
        found is Some ==> forall|c: char|
            (c as u32) < 128 ==> #[trigger] decimal_digit(c) == text::is_digit(c),
        pattern@ == LOCATION_NAME@ ==> found is Some == location_name(text@),
        pattern@ == AUTHOR_NAME@ ==> match found {
            Some(groups) => author_name(text@) && groups_are(groups@, seq![text@]),
            None => !author_name(text@),
        },
        pattern@ == AUTHOR_GITHUB@ ==> match found {
            Some(groups) => exists|name: Seq<char>, user: Seq<char>| #[trigger]
                is_github(text@, name, user) && groups_are(groups@, seq![name, user]),
            None => forall|name: Seq<char>, user: Seq<char>| !#[trigger]
                is_github(text@, name, user),
        },
        pattern@ == AUTHOR_EMAIL@ ==> match found {
            Some(groups) => exists|name: Seq<char>, email: Seq<char>| #[trigger]
                is_email(text@, name, email) && groups_are(groups@, seq![name, email]),
            None => forall|name: Seq<char>, email: Seq<char>| !#[trigger]
                is_email(text@, name, email),
        },
        pattern@ == AUTHOR_BOTH@ ==> match found {
            Some(groups) => exists|name: Seq<char>, user: Seq<char>, email: Seq<char>| #[trigger]
                is_both(text@, name, user, email) && groups_are(groups@, seq![name, user, email]),
            None => forall|name: Seq<char>, user: Seq<char>, email: Seq<char>| !#[trigger]
                is_both(text@, name, user, email),
        },
{
    let regex = regex::Regex::new(pattern).unwrap();
    regex.captures(text).map(|found| {
        found.iter().map(|group| group.map(|part| part.as_str().to_owned())).collect()
    })
}

} // verus!
