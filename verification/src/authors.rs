//! The authors that a preamble names.

use vstd::prelude::*;

use crate::pattern;
use crate::text;

verus! {

/// An author of a proposal.
#[derive(Debug, Clone, PartialEq, Eq)]
pub struct Author {
    pub name: String,
    pub github: Option<String>,
    pub email: Option<String>,
}

/// What an author stands for.
pub struct AuthorView {
    pub name: Seq<char>,
    pub github: Option<Seq<char>>,
    pub email: Option<Seq<char>>,
}

impl View for Author {
    type V = AuthorView;

    open spec fn view(&self) -> AuthorView {
        AuthorView {
            name: self.name@,
            github: text::optional(self.github),
            email: text::optional(self.email),
        }
    }
}

/// The author that an item of the list describes.
pub open spec fn author_of(item: Seq<char>) -> Option<AuthorView> {
    if exists|name: Seq<char>, user: Seq<char>, email: Seq<char>| #[trigger]
        pattern::is_both(item, name, user, email) {
        let (name, user, email) = choose|name: Seq<char>, user: Seq<char>, email: Seq<char>|
            #[trigger] pattern::is_both(item, name, user, email);
        Some(AuthorView { name, github: Some(user), email: Some(email) })
    } else if exists|name: Seq<char>, email: Seq<char>| #[trigger]
        pattern::is_email(item, name, email) {
        let (name, email) = choose|name: Seq<char>, email: Seq<char>| #[trigger]
            pattern::is_email(item, name, email);
        Some(AuthorView { name, github: None, email: Some(email) })
    } else if exists|name: Seq<char>, user: Seq<char>| #[trigger]
        pattern::is_github(item, name, user) {
        let (name, user) = choose|name: Seq<char>, user: Seq<char>| #[trigger]
            pattern::is_github(item, name, user);
        Some(AuthorView { name, github: Some(user), email: None })
    } else if pattern::author_name(item) {
        Some(AuthorView { name: item, github: None, email: None })
    } else {
        None
    }
}

/// The authors that a list names, where each of its items describes one.
pub open spec fn authors_of(value: Seq<char>) -> Option<Seq<AuthorView>> {
    let items = text::list_items(value);
    if forall|i: int| 0 <= i < items.len() ==> author_of(#[trigger] items[i]) is Some {
        Some(Seq::new(items.len(), |i: int| author_of(items[i])->0))
    } else {
        None
    }
}

/// What a list of authors stands for.
pub open spec fn author_views(list: Seq<Author>) -> Seq<AuthorView> {
    Seq::new(list.len(), |i: int| list[i]@)
}

/// Where a name is followed by a character that no name has, the text tells where the name ends.
proof fn name_end_is_unique(a: Seq<char>, x: Seq<char>, b: Seq<char>, y: Seq<char>)
    requires
        pattern::author_name(a),
        pattern::author_name(b),
        x.len() >= 2 && x[0] == ' ' && (x[1] == '(' || x[1] == '<'),
        y.len() >= 2 && y[0] == ' ' && (y[1] == '(' || y[1] == '<'),
        a + x == b + y,
    ensures
        a == b,
        x == y,
{
    let s = a + x;
    assert(s[a.len() + 1int] == x[1]);
    assert((b + y)[b.len() + 1int] == y[1]);
    if a.len() < b.len() {
        if a.len() + 1 < b.len() {
            assert((b + y)[a.len() + 1int] == b[a.len() + 1int]);
        } else {
            assert((b + y)[b.len() as int] == y[0]);
        }
        assert(false);
    }
    if b.len() < a.len() {
        if b.len() + 1 < a.len() {
            assert((a + x)[b.len() + 1int] == a[b.len() + 1int]);
        } else {
            assert((a + x)[a.len() as int] == x[0]);
        }
        assert(false);
    }
    assert(a =~= (a + x).take(a.len() as int));
    assert(b =~= (b + y).take(b.len() as int));
    assert(x =~= (a + x).skip(a.len() as int));
    assert(y =~= (b + y).skip(b.len() as int));
}

/// A handle has no closing bracket.
proof fn handle_end_is_unique(a: Seq<char>, x: Seq<char>, b: Seq<char>, y: Seq<char>)
    requires
        pattern::handle(a),
        pattern::handle(b),
        !pattern::decimal_digit(')'),
        x.len() >= 1 && x[0] == ')',
        y.len() >= 1 && y[0] == ')',
        a + x == b + y,
    ensures
        a == b,
        x == y,
{
    assert((a + x)[a.len() as int] == x[0]);
    assert((b + y)[b.len() as int] == y[0]);
    if a.len() < b.len() {
        assert((b + y)[a.len() as int] == b[a.len() as int]);
        assert(false);
    }
    if b.len() < a.len() {
        assert((a + x)[b.len() as int] == a[b.len() as int]);
        assert(false);
    }
    assert(a =~= (a + x).take(a.len() as int));
    assert(b =~= (b + y).take(b.len() as int));
    assert(x =~= (a + x).skip(a.len() as int));
    assert(y =~= (b + y).skip(b.len() as int));
}

/// A text is a name and a handle in one way only.
pub proof fn github_reads_one_way(
    s: Seq<char>,
    name: Seq<char>,
    user: Seq<char>,
    other_name: Seq<char>,
    other_user: Seq<char>,
)
    requires
        pattern::is_github(s, name, user),
        pattern::is_github(s, other_name, other_user),
    ensures
        name == other_name,
        user == other_user,
{
    let x = seq![' ', '(', '@'] + user + seq![')'];
    let y = seq![' ', '(', '@'] + other_user + seq![')'];
    assert(s =~= name + x);
    assert(s =~= other_name + y);
    name_end_is_unique(name, x, other_name, y);
    assert(user =~= x.subrange(3, x.len() - 1));
    assert(other_user =~= y.subrange(3, y.len() - 1));
}

/// A text is a name and an address in one way only.
pub proof fn email_reads_one_way(
    s: Seq<char>,
    name: Seq<char>,
    email: Seq<char>,
    other_name: Seq<char>,
    other_email: Seq<char>,
)
    requires
        pattern::is_email(s, name, email),
        pattern::is_email(s, other_name, other_email),
    ensures
        name == other_name,
        email == other_email,
{
    let x = seq![' ', '<'] + email + seq!['>'];
    let y = seq![' ', '<'] + other_email + seq!['>'];
    assert(s =~= name + x);
    assert(s =~= other_name + y);
    name_end_is_unique(name, x, other_name, y);
    assert(email =~= x.subrange(2, x.len() - 1));
    assert(other_email =~= y.subrange(2, y.len() - 1));
}

/// A text is a name, a handle and an address in one way only.
pub proof fn both_reads_one_way(
    s: Seq<char>,
    name: Seq<char>,
    user: Seq<char>,
    email: Seq<char>,
    other_name: Seq<char>,
    other_user: Seq<char>,
    other_email: Seq<char>,
)
    requires
        !pattern::decimal_digit(')'),
        pattern::is_both(s, name, user, email),
        pattern::is_both(s, other_name, other_user, other_email),
    ensures
        name == other_name,
        user == other_user,
        email == other_email,
{
    let tail = seq![')', ' ', '<'] + email + seq!['>'];
    let other_tail = seq![')', ' ', '<'] + other_email + seq!['>'];
    let x = seq![' ', '(', '@'] + (user + tail);
    let y = seq![' ', '(', '@'] + (other_user + other_tail);
    assert(s =~= name + x);
    assert(s =~= other_name + y);
    name_end_is_unique(name, x, other_name, y);
    assert(user + tail =~= x.skip(3));
    assert(other_user + other_tail =~= y.skip(3));
    handle_end_is_unique(user, tail, other_user, other_tail);
    assert(email =~= tail.subrange(3, tail.len() - 1));
    assert(other_email =~= other_tail.subrange(3, other_tail.len() - 1));
}

/// The text of a group of a match.
fn group(groups: &Vec<Option<String>>, at: usize) -> (text: String)
    requires
        at < groups@.len(),
        groups@[at as int] is Some,
    ensures
        text@ == groups@[at as int]->0@,
{
    match &groups[at] {
        Some(text) => text.clone(),
        None => String::new(),
    }
}

/// The author that an item of the list describes.
pub fn extract_author(item: &str) -> (author: Option<Author>)
    ensures
        match author {
            Some(author) => author_of(item@) == Some(author@),
            None => author_of(item@) is None,
        },
{
    if let Some(both) = pattern::captures(pattern::AUTHOR_BOTH, item) {
        let ghost (n, u, e) = choose|name: Seq<char>, user: Seq<char>, email: Seq<char>| #[trigger]
            pattern::is_both(item@, name, user, email) && pattern::groups_are(
                both@,
                seq![name, user, email],
            );
        assert(both@[1] is Some && both@[2] is Some && both@[3] is Some);
        let author = Author {
            name: group(&both, 1),
            github: Some(group(&both, 2)),
            email: Some(group(&both, 3)),
        };
        proof {
            assert(!text::is_digit(')'));
            let (n2, u2, e2) = choose|name: Seq<char>, user: Seq<char>, email: Seq<char>| #[trigger]
                pattern::is_both(item@, name, user, email);
            both_reads_one_way(item@, n, u, e, n2, u2, e2);
        }
        return Some(author);
    }
    if let Some(email) = pattern::captures(pattern::AUTHOR_EMAIL, item) {
        let ghost (n, e) = choose|name: Seq<char>, address: Seq<char>| #[trigger]
            pattern::is_email(item@, name, address) && pattern::groups_are(
                email@,
                seq![name, address],
            );
        assert(email@[1] is Some && email@[2] is Some);
        let author = Author {
            name: group(&email, 1),
            github: None,
            email: Some(group(&email, 2)),
        };
        proof {
            let (n2, e2) = choose|name: Seq<char>, address: Seq<char>| #[trigger]
                pattern::is_email(item@, name, address);
            email_reads_one_way(item@, n, e, n2, e2);
        }
        return Some(author);
    }
    if let Some(github) = pattern::captures(pattern::AUTHOR_GITHUB, item) {
        let ghost (n, u) = choose|name: Seq<char>, user: Seq<char>| #[trigger]
            pattern::is_github(item@, name, user) && pattern::groups_are(
                github@,
                seq![name, user],
            );
        assert(github@[1] is Some && github@[2] is Some);
        let author = Author {
            name: group(&github, 1),
            github: Some(group(&github, 2)),
            email: None,
        };
        proof {
            let (n2, u2) = choose|name: Seq<char>, user: Seq<char>| #[trigger]
                pattern::is_github(item@, name, user);
            github_reads_one_way(item@, n, u, n2, u2);
        }
        return Some(author);
    }
    if let Some(name) = pattern::captures(pattern::AUTHOR_NAME, item) {
        assert(name@[1] is Some);
        return Some(Author { name: group(&name, 1), github: None, email: None });
    }
    None
}

/// The authors that a comma-separated list names; none where an item describes no author.
pub fn extract_authors(value: &str) -> (out: Option<Vec<Author>>)
    ensures
        match out {
            Some(list) => authors_of(value@) == Some(author_views(list@)),
            None => authors_of(value@) is None,
        },
{
    let pieces = text::split(value, ',');
    let ghost items = text::list_items(value@);
    let mut authors: Vec<Author> = Vec::new();
    let mut i: usize = 0;
    assert(text::views(pieces@).len() == pieces@.len());
    while i < pieces.len()
        invariant
            i <= pieces@.len(),
            text::views(pieces@) == text::split_on(value@, ','),
            items == text::list_items(value@),
            items.len() == pieces@.len(),
            authors@.len() == i,
            forall|k: int|
                0 <= k < i ==> author_of(#[trigger] items[k]) == Some(authors@[k]@),
        decreases pieces.len() - i,
    {
        let item = text::trim(pieces[i].as_str());
        assert(items[i as int] == item@) by {
            assert(text::views(pieces@)[i as int] == pieces@[i as int]@);
        }
        match extract_author(item.as_str()) {
            Some(author) => authors.push(author),
            None => return None,
        }
        i += 1;
    }
    assert(author_views(authors@) =~= authors_of(value@)->0);
    Some(authors)
}

/// An author is written as a name, with a handle behind `(@` and before `)`, with an address between
/// `<` and `>`, with both in that order, or with neither; and is read as that name, that handle and
/// that address.
#[verifier::rlimit(60)]
pub proof fn authors_are_read_as_they_are_written(
    name: Seq<char>,
    user: Seq<char>,
    email: Seq<char>,
)
    requires
        name.len() > 0,
        forall|i: int|
            0 <= i < name.len() ==> (#[trigger] name[i]) != '(' && name[i] != ')' && name[i] != '<'
                && name[i] != '>' && name[i] != ',' && name[i] != '@',
        user.len() > 0,
        forall|i: int|
            0 <= i < user.len() ==> text::is_alphanumeric(#[trigger] user[i]) || user[i] == '-',
        pattern::email_address(email),
        !pattern::decimal_digit(')'),
    ensures
        author_of(name) == Some(AuthorView { name, github: None, email: None }),
        author_of(name + " (@"@ + user + ")"@) == Some(
            AuthorView { name, github: Some(user), email: None },
        ),
        author_of(name + " <"@ + email + ">"@) == Some(
            AuthorView { name, github: None, email: Some(email) },
        ),
        author_of(name + " (@"@ + user + ") <"@ + email + ">"@) == Some(
            AuthorView { name, github: Some(user), email: Some(email) },
        ),
{
    reveal_strlit(" (@");
    reveal_strlit(")");
    reveal_strlit(" <");
    reveal_strlit(">");
    reveal_strlit(") <");
    assert(pattern::author_name(name));
    assert(pattern::handle(user));
    let with_handle = name + " (@"@ + user + ")"@;
    let with_address = name + " <"@ + email + ">"@;
    let with_both = name + " (@"@ + user + ") <"@ + email + ">"@;
    assert(with_handle =~= pattern::github_text(name, user));
    assert(with_address =~= pattern::email_text(name, email));
    assert(with_both =~= pattern::both_text(name, user, email));
    forms_differ(name, name);
    forms_differ(name, with_handle);
    forms_differ(name, with_address);
    forms_differ(name, with_both);
    assert(pattern::is_github(with_handle, name, user));
    assert(pattern::is_email(with_address, name, email));
    assert(pattern::is_both(with_both, name, user, email));
    assert forall|n: Seq<char>, u: Seq<char>| #[trigger]
        pattern::is_github(with_handle, n, u) implies n == name && u == user by {
        github_reads_one_way(with_handle, name, user, n, u);
    }
    assert forall|n: Seq<char>, e: Seq<char>| #[trigger]
        pattern::is_email(with_address, n, e) implies n == name && e == email by {
        email_reads_one_way(with_address, name, email, n, e);
    }
    assert forall|n: Seq<char>, u: Seq<char>, e: Seq<char>| #[trigger]
        pattern::is_both(with_both, n, u, e) implies n == name && u == user && e == email by {
        both_reads_one_way(with_both, name, user, email, n, u, e);
    }
    assert(with_handle.last() == ')');
    assert(with_address.last() == '>');
    assert(with_address[name.len() + 1int] == '<');
    assert forall|n: Seq<char>, u: Seq<char>, e: Seq<char>| !#[trigger]
        pattern::is_both(with_address, n, u, e) by {
        if pattern::is_both(with_address, n, u, e) {
            let x = seq![' ', '<'] + email + seq!['>'];
            let y = seq![' ', '(', '@'] + u + seq![')', ' ', '<'] + e + seq!['>'];
            assert(with_address =~= name + x);
            assert(with_address =~= n + y);
            name_end_is_unique(name, x, n, y);
            assert(x[1] == '<' && y[1] == '(');
        }
    }
}

proof fn forms_differ(name: Seq<char>, s: Seq<char>)
    requires
        pattern::author_name(name),
    ensures
        s == name || (s.len() > 0 && s.last() == ')') ==> (forall|n: Seq<char>, e: Seq<char>| !#[trigger]
            pattern::is_email(s, n, e)) && (forall|n: Seq<char>, u: Seq<char>, e: Seq<char>| !#[trigger]
            pattern::is_both(s, n, u, e)),
        s == name ==> forall|n: Seq<char>, u: Seq<char>| !#[trigger] pattern::is_github(s, n, u),
{
    assert forall|n: Seq<char>, e: Seq<char>| #[trigger] pattern::is_email(s, n, e) implies s.last()
        == '>' by {}
    assert forall|n: Seq<char>, u: Seq<char>, e: Seq<char>| #[trigger]
        pattern::is_both(s, n, u, e) implies s.last() == '>' by {}
    assert forall|n: Seq<char>, u: Seq<char>| #[trigger] pattern::is_github(s, n, u) implies s.last()
        == ')' by {}
    if s == name {
        assert(name[name.len() - 1] != '>' && name[name.len() - 1] != ')');
    }
}

/// A list has as many authors as items between commas, each read from its item without the white space
/// around it.
pub proof fn author_lists_name_each_author(value: Seq<char>, i: int)
    requires
        authors_of(value) is Some,
        0 <= i < text::split_on(value, ',').len(),
    ensures
        authors_of(value)->0.len() == text::split_on(value, ',').len(),
        author_of(text::trimmed(text::split_on(value, ',')[i])) == Some(authors_of(value)->0[i]),
{
    let items = text::list_items(value);
    assert(author_of(items[i]) is Some);
}

} // verus!
