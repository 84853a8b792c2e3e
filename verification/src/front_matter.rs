//! The front matter of a page.

use vstd::prelude::*;

use crate::authors;
use crate::authors::{Author, AuthorView};
use crate::table::Table;
use crate::text;

verus! {

/// A list of terms of a taxonomy.
#[derive(Debug, Clone, PartialEq, Eq)]
pub struct Terms {
    pub terms: Vec<String>,
}

impl View for Terms {
    type V = Seq<Seq<char>>;

    open spec fn view(&self) -> Seq<Seq<char>> {
        text::views(self.terms@)
    }
}

/// A value of the page's own data.
#[derive(Debug, Clone, PartialEq, Eq)]
pub enum ExtraValue {
    Text(String),
    Number(u32),
    Authors(Vec<Author>),
    List(Vec<String>),
}

/// What a value of the page's own data stands for.
pub enum ExtraView {
    Text(Seq<char>),
    Number(u32),
    Authors(Seq<AuthorView>),
    List(Seq<Seq<char>>),
}

impl View for ExtraValue {
    type V = ExtraView;

    open spec fn view(&self) -> ExtraView {
        match self {
            ExtraValue::Text(text) => ExtraView::Text(text@),
            ExtraValue::Number(number) => ExtraView::Number(*number),
            ExtraValue::Authors(list) => ExtraView::Authors(authors::author_views(list@)),
            ExtraValue::List(list) => ExtraView::List(text::views(list@)),
        }
    }
}

/// The front matter of a page.
#[derive(Debug, Clone)]
pub struct FrontMatter {
    pub title: String,
    pub description: String,
    pub date: Option<String>,
    pub updated: Option<String>,
    pub weight: usize,
    pub draft: bool,
    pub slug: String,
    pub path: String,
    pub aliases: Vec<String>,
    pub authors: Vec<String>,
    pub in_search_index: bool,
    pub template: Option<String>,
    pub taxonomies: Table<Terms>,
    pub extra: Table<ExtraValue>,
}

/// What the front matter of a page stands for.
pub struct FrontMatterView {
    pub title: Seq<char>,
    pub description: Seq<char>,
    pub date: Option<Seq<char>>,
    pub updated: Option<Seq<char>>,
    pub weight: usize,
    pub draft: bool,
    pub slug: Seq<char>,
    pub path: Seq<char>,
    pub aliases: Seq<Seq<char>>,
    pub authors: Seq<Seq<char>>,
    pub in_search_index: bool,
    pub template: Option<Seq<char>>,
    pub taxonomies: Map<Seq<char>, Seq<Seq<char>>>,
    pub extra: Map<Seq<char>, ExtraView>,
}

impl View for FrontMatter {
    type V = FrontMatterView;

    open spec fn view(&self) -> FrontMatterView {
        FrontMatterView {
            title: self.title@,
            description: self.description@,
            date: text::optional(self.date),
            updated: text::optional(self.updated),
            weight: self.weight,
            draft: self.draft,
            slug: self.slug@,
            path: self.path@,
            aliases: text::views(self.aliases@),
            authors: text::views(self.authors@),
            in_search_index: self.in_search_index,
            template: text::optional(self.template),
            taxonomies: self.taxonomies.map(),
            extra: self.extra.map(),
        }
    }
}

/// Front matter that says nothing.
pub open spec fn blank() -> FrontMatterView {
    FrontMatterView {
        title: Seq::empty(),
        description: Seq::empty(),
        date: None,
        updated: None,
        weight: 0,
        draft: false,
        slug: Seq::empty(),
        path: Seq::empty(),
        aliases: Seq::empty(),
        authors: Seq::empty(),
        in_search_index: true,
        template: None,
        taxonomies: Map::empty(),
        extra: Map::empty(),
    }
}

impl FrontMatter {
    /// Whether the tables of the front matter have each key once.
    pub open spec fn wf(&self) -> bool {
        self.taxonomies.wf() && self.extra.wf()
    }

    /// Front matter that says nothing.
    pub fn new() -> (out: Self)
        ensures
            out.wf(),
            out@ == blank(),
    {
        let out = FrontMatter {
            title: String::new(),
            description: String::new(),
            date: None,
            updated: None,
            weight: 0,
            draft: false,
            slug: String::new(),
            path: String::new(),
            aliases: Vec::new(),
            authors: Vec::new(),
            in_search_index: true,
            template: None,
            taxonomies: Table::new(),
            extra: Table::new(),
        };
        proof {
            assert(text::views(out.aliases@) =~= Seq::empty());
            assert(out.title@ =~= Seq::empty());
        }
        out
    }
}

/// What a page whose search setting is not written has.
pub fn default_true() -> (yes: bool)
    ensures
        yes,
{
    true
}

/// Whether a flag that is set by default need not be written.
pub fn is_true(flag: &bool) -> (yes: bool)
    ensures
        yes == *flag,
{
    *flag
}

/// Whether a flag that is not set by default need not be written.
pub fn is_false(flag: &bool) -> (yes: bool)
    ensures
        yes == !*flag,
{
    !*flag
}

/// Whether a weight need not be written.
pub fn is_zero(weight: &usize) -> (yes: bool)
    ensures
        yes == (*weight == 0),
{
    *weight == 0
}

/// A page: its front matter, written as TOML, and its body.
pub open spec fn framed(toml: Seq<char>, body: Seq<char>) -> Seq<char> {
    text::glued(seq!["+++\n"@, toml, "\n+++\n"@, body, "\n"@])
}

/// The text of a page.
pub fn frame(toml: &str, body: &str) -> (out: String)
    ensures
        out@ == framed(toml@, body@),
{
    let parts = vec!["+++\n", toml, "\n+++\n", body, "\n"];
    assert(text::str_views(parts@) =~= seq!["+++\n"@, toml@, "\n+++\n"@, body@, "\n"@]);
    text::glue(parts)
}

/// A page is its front matter between two lines of plus signs, and behind that its body and a line end.
pub proof fn pages_are_framed(toml: Seq<char>, body: Seq<char>)
    ensures
        framed(toml, body) == "+++\n"@ + toml + "\n+++\n"@ + body + "\n"@,
{
    let parts = seq!["+++\n"@, toml, "\n+++\n"@, body, "\n"@];
    let four = seq!["+++\n"@, toml, "\n+++\n"@, body];
    text::three_are_glued("+++\n"@, toml, "\n+++\n"@);
    assert(four.drop_last() =~= seq!["+++\n"@, toml, "\n+++\n"@]);
    assert(parts.drop_last() =~= four);
    assert(text::glued(four) =~= "+++\n"@ + toml + "\n+++\n"@ + body);
    assert(text::glued(parts) =~= "+++\n"@ + toml + "\n+++\n"@ + body + "\n"@);
}

} // verus!
