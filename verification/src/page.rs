//! Proposals and other Markdown as pages of the site.

use vstd::prelude::*;

use crate::authors;
use crate::authors::{Author, AuthorView};
use crate::dates;
use crate::front_matter;
use crate::front_matter::{ExtraValue, ExtraView, FrontMatter, FrontMatterView, Terms};
use crate::links;
use crate::links::{
    Canonical, LinkContext, LinkError, LinkFailure, LinkPlace, LinkProbe, Place, ProbeView,
};
use crate::only::ProposalReference;
use crate::path;
use crate::preamble;
use crate::preamble::{Field, FieldView, SplitFailure};
use crate::proposal::ProposalNumber;
use crate::text;
use crate::transform;
use crate::transform::{TransformError, TransformFailure};

verus! {

/// A field of a preamble, read as what its name says.
#[derive(Debug, Clone, PartialEq, Eq)]
pub enum ReadField {
    Title(String),
    Description(String),
    /// The date, where the value is one.
    Created(Option<String>),
    Status(String),
    Type(String),
    Category(String),
    /// The number, where the value is one.
    Number(Option<u32>),
    /// The authors, where the value lists some.
    Authors(Option<Vec<Author>>),
    /// The numbers, where each item of the value is one.
    Requires(Option<Vec<u32>>),
    Other { name: String, value: String },
}

/// What a read field stands for.
pub enum ReadView {
    Title(Seq<char>),
    Description(Seq<char>),
    Created(Option<Seq<char>>),
    Status(Seq<char>),
    Type(Seq<char>),
    Category(Seq<char>),
    Number(Option<u32>),
    Authors(Option<Seq<AuthorView>>),
    Requires(Option<Seq<u32>>),
    Other { name: Seq<char>, value: Seq<char> },
}

impl View for ReadField {
    type V = ReadView;

    open spec fn view(&self) -> ReadView {
        match self {
            ReadField::Title(text) => ReadView::Title(text@),
            ReadField::Description(text) => ReadView::Description(text@),
            ReadField::Created(date) => ReadView::Created(text::optional(*date)),
            ReadField::Status(text) => ReadView::Status(text@),
            ReadField::Type(text) => ReadView::Type(text@),
            ReadField::Category(text) => ReadView::Category(text@),
            ReadField::Number(number) => ReadView::Number(*number),
            ReadField::Authors(list) => ReadView::Authors(
                match list {
                    Some(list) => Some(authors::author_views(list@)),
                    None => None,
                },
            ),
            ReadField::Requires(list) => ReadView::Requires(
                match list {
                    Some(list) => Some(list@),
                    None => None,
                },
            ),
            ReadField::Other { name, value } => ReadView::Other { name: name@, value: value@ },
        }
    }
}

/// The numbers that a list names, where each of its items is one.
pub open spec fn numbers_of(value: Seq<char>) -> Option<Seq<u32>> {
    let items = text::list_items(value);
    if forall|i: int| 0 <= i < items.len() ==> text::u32_literal(#[trigger] items[i]) is Some {
        Some(Seq::new(items.len(), |i: int| text::u32_literal(items[i])->0))
    } else {
        None
    }
}

/// A field, read as what its name says.
pub open spec fn read_as(field: FieldView) -> ReadView {
    let name = field.name;
    let value = text::trimmed(field.value);
    if name == "title"@ {
        ReadView::Title(value)
    } else if name == "description"@ {
        ReadView::Description(value)
    } else if name == "created"@ {
        ReadView::Created(dates::toml_date_of(value))
    } else if name == "status"@ {
        ReadView::Status(value)
    } else if name == "type"@ {
        ReadView::Type(value)
    } else if name == "category"@ {
        ReadView::Category(value)
    } else if name == "eip"@ || name == "number"@ {
        ReadView::Number(text::u32_literal(value))
    } else if name == "author"@ {
        ReadView::Authors(authors::authors_of(value))
    } else if name == "requires"@ {
        ReadView::Requires(numbers_of(value))
    } else {
        ReadView::Other { name, value }
    }
}

/// What is known of a required proposal's Markdown when no selection is rendered.
#[derive(Debug, Clone, PartialEq, Eq)]
pub struct RequiredTarget {
    pub number: u32,
    pub outcome: Canonical,
}

/// What probing for the Markdown of a required proposal gave.
pub open spec fn outcome_for(targets: Seq<RequiredTarget>, number: u32) -> Option<Canonical>
    decreases targets.len(),
{
    if targets.len() == 0 {
        None
    } else if targets[0].number == number {
        Some(targets[0].outcome)
    } else {
        outcome_for(targets.skip(1), number)
    }
}

/// Why a file cannot become a page.
#[derive(Debug, Clone, PartialEq, Eq)]
pub enum PageError {
    /// There is no preamble at its start.
    Split(SplitFailure),
    /// The body cannot be transformed.
    Transform(TransformError),
    /// A line of the preamble is no field.
    Preamble,
    /// The time of the last change could not be asked for.
    NoHistory(String),
    /// The time of the last change is no number.
    BadTimestamp(String),
    /// No date stands for the time of the last change.
    TimestampRange(i64),
    /// The date of creation is none.
    BadCreated,
    /// The number of the proposal is none.
    BadNumber,
    /// The index file of a proposal stands in no directory of its own.
    NoDirectoryName,
    /// An item of the author list is no author.
    InvalidAuthor,
    /// An item of the list of required proposals is no number of one.
    BadRequires,
    /// A required proposal is not in the content.
    UnknownRequired(u32),
    /// A required proposal has no Markdown.
    Required(LinkError),
    /// Nobody looked for a required proposal.
    StaleTargets(u32),
}

/// What a page error stands for.
pub enum PageFailure {
    Split(SplitFailure),
    Transform(TransformFailure),
    Preamble,
    NoHistory(Seq<char>),
    BadTimestamp(Seq<char>),
    TimestampRange(i64),
    BadCreated,
    BadNumber,
    NoDirectoryName,
    InvalidAuthor,
    BadRequires,
    UnknownRequired(u32),
    Required(LinkFailure),
    StaleTargets(u32),
}

impl View for PageError {
    type V = PageFailure;

    open spec fn view(&self) -> PageFailure {
        match self {
            PageError::Split(failure) => PageFailure::Split(*failure),
            PageError::Transform(error) => PageFailure::Transform(error@),
            PageError::Preamble => PageFailure::Preamble,
            PageError::NoHistory(cause) => PageFailure::NoHistory(cause@),
            PageError::BadTimestamp(text) => PageFailure::BadTimestamp(text@),
            PageError::TimestampRange(seconds) => PageFailure::TimestampRange(*seconds),
            PageError::BadCreated => PageFailure::BadCreated,
            PageError::BadNumber => PageFailure::BadNumber,
            PageError::NoDirectoryName => PageFailure::NoDirectoryName,
            PageError::InvalidAuthor => PageFailure::InvalidAuthor,
            PageError::BadRequires => PageFailure::BadRequires,
            PageError::UnknownRequired(number) => PageFailure::UnknownRequired(*number),
            PageError::Required(error) => PageFailure::Required(error@),
            PageError::StaleTargets(number) => PageFailure::StaleTargets(*number),
        }
    }
}

/// The path of a link to the flat Markdown of a proposal.
pub open spec fn flat_link(number: u32) -> Seq<char> {
    text::glued(
        seq!["/"@, text::zero_padded(text::decimal_digits(number as nat), 5), ".md"@],
    )
}

/// What a required proposal becomes when no selection is rendered.
pub open spec fn required_link(
    number: u32,
    root: Seq<char>,
    canonical_root: Canonical,
    targets: Seq<RequiredTarget>,
) -> Result<Seq<char>, PageFailure> {
    match outcome_for(targets, number) {
        None => Err(PageFailure::StaleTargets(number)),
        Some(outcome) => match canonical_root {
            Canonical::Missing(cause) => Err(
                PageFailure::Required(LinkFailure::NoRoot { root, cause: cause@ }),
            ),
            Canonical::Found(_) => match links::place_of(
                root,
                canonical_root,
                None,
                links::probe_for(root, root, flat_link(number)),
                outcome,
            ) {
                Ok(Place::Internal(target)) => Ok(target),
                Ok(Place::External(url)) => Ok(url),
                Err(failure) => Err(PageFailure::Required(failure)),
            },
        },
    }
}

/// What a required proposal becomes.
pub open spec fn required_text(
    number: u32,
    context: &LinkContext,
    targets: Seq<RequiredTarget>,
) -> Result<Seq<char>, PageFailure> {
    if number == 0 {
        Err(PageFailure::BadRequires)
    } else {
        match context.plan {
            Some(plan) => match crate::only::lookup(plan.index(), number) {
                None => Err(PageFailure::UnknownRequired(number)),
                Some(found) => if plan.selects(number) {
                    Ok(links::at_path(found.path))
                } else {
                    Ok(found.url)
                },
            },
            None => required_link(number, context.root@, *context.canonical_root, targets),
        }
    }
}

/// What required proposals become, or why the first that fails does.
pub open spec fn required_texts(
    numbers: Seq<u32>,
    context: &LinkContext,
    targets: Seq<RequiredTarget>,
) -> Result<Seq<Seq<char>>, PageFailure>
    decreases numbers.len(),
{
    if numbers.len() == 0 {
        Ok(Seq::empty())
    } else {
        match required_texts(numbers.drop_last(), context, targets) {
            Err(failure) => Err(failure),
            Ok(before) => match required_text(numbers.last(), context, targets) {
                Ok(text) => Ok(before.push(text)),
                Err(failure) => Err(failure),
            },
        }
    }
}

/// The name under which a proposal's file can be asked for: its stem, or its directory for an index
/// file.
pub open spec fn alias_name(file: Seq<char>) -> Result<Option<Seq<char>>, PageFailure> {
    match path::file_stem_of(file) {
        None => Ok(None),
        Some(stem) => if stem == "index"@ {
            match path::parent_of(file) {
                Some(parent) => match path::file_name_of(parent) {
                    Some(name) => Ok(Some(name)),
                    None => Err(PageFailure::NoDirectoryName),
                },
                None => Err(PageFailure::NoDirectoryName),
            }
        } else {
            Ok(Some(stem))
        },
    }
}

/// The aliases of a proposal.
pub open spec fn proposal_aliases(name: Option<Seq<char>>, number: u32) -> Seq<Seq<char>> {
    let digits = text::decimal_digits(number as nat);
    let fixed = seq!["ERCS/erc-"@ + digits, "EIPS/eip-"@ + digits];
    match name {
        Some(name) => seq![name] + fixed,
        None => fixed,
    }
}

/// Front matter with a value of the page's own data, and the same as a term of a taxonomy.
pub open spec fn with_term(page: FrontMatterView, key: Seq<char>, value: Seq<char>) -> FrontMatterView {
    FrontMatterView {
        extra: page.extra.insert(key, ExtraView::Text(value)),
        taxonomies: page.taxonomies.insert(key, seq![value]),
        ..page
    }
}

/// Front matter with one more field.
pub open spec fn with_field(
    page: FrontMatterView,
    file: Seq<char>,
    field: ReadView,
    context: &LinkContext,
    targets: Seq<RequiredTarget>,
) -> Result<FrontMatterView, PageFailure> {
    match field {
        ReadView::Title(value) => Ok(FrontMatterView { title: value, ..page }),
        ReadView::Description(value) => Ok(FrontMatterView { description: value, ..page }),
        ReadView::Created(Some(date)) => Ok(FrontMatterView { date: Some(date), ..page }),
        ReadView::Created(None) => Err(PageFailure::BadCreated),
        ReadView::Status(value) => Ok(
            with_term(
                FrontMatterView {
                    draft: page.draft || (value != "Final"@ && value != "Living"@),
                    ..page
                },
                "status"@,
                value,
            ),
        ),
        ReadView::Type(value) => Ok(with_term(page, "type"@, value)),
        ReadView::Category(value) => Ok(with_term(page, "category"@, value)),
        ReadView::Number(None) => Err(PageFailure::BadNumber),
        ReadView::Number(Some(number)) => match alias_name(file) {
            Err(failure) => Err(failure),
            Ok(name) => Ok(
                FrontMatterView {
                    template: Some("eip.html"@),
                    slug: text::decimal_digits(number as nat),
                    extra: page.extra.insert("number"@, ExtraView::Number(number)),
                    aliases: page.aliases + proposal_aliases(name, number),
                    ..page
                },
            ),
        },
        ReadView::Authors(None) => Err(PageFailure::InvalidAuthor),
        ReadView::Authors(Some(list)) => Ok(
            FrontMatterView {
                authors: Seq::new(list.len(), |i: int| list[i].name),
                extra: page.extra.insert("author_details"@, ExtraView::Authors(list)),
                ..page
            },
        ),
        ReadView::Requires(None) => Err(PageFailure::BadRequires),
        ReadView::Requires(Some(numbers)) => match required_texts(numbers, context, targets) {
            Err(failure) => Err(failure),
            Ok(list) => Ok(
                FrontMatterView {
                    extra: page.extra.insert("requires"@, ExtraView::List(list)),
                    ..page
                },
            ),
        },
        ReadView::Other { name, value } => Ok(
            FrontMatterView {
                extra: page.extra.insert(
                    text::with_replaced(name, '-', '_'),
                    ExtraView::Text(value),
                ),
                ..page
            },
        ),
    }
}

/// Front matter with one more field after another, or why the first that fails does.
pub open spec fn with_fields(
    page: FrontMatterView,
    file: Seq<char>,
    fields: Seq<ReadView>,
    context: &LinkContext,
    targets: Seq<RequiredTarget>,
) -> Result<FrontMatterView, PageFailure>
    decreases fields.len(),
{
    if fields.len() == 0 {
        Ok(page)
    } else {
        match with_fields(page, file, fields.drop_last(), context, targets) {
            Err(failure) => Err(failure),
            Ok(before) => with_field(before, file, fields.last(), context, targets),
        }
    }
}

/// The field, read as what its name says.
pub fn read_field(field: &Field) -> (out: ReadField)
    ensures
        out@ == read_as(field@),
{
    let name = field.name.as_str();
    let value = text::trim(field.value.as_str());
    if text::text_eq(name, "title") {
        ReadField::Title(value)
    } else if text::text_eq(name, "description") {
        ReadField::Description(value)
    } else if text::text_eq(name, "created") {
        ReadField::Created(dates::toml_date(value.as_str()))
    } else if text::text_eq(name, "status") {
        ReadField::Status(value)
    } else if text::text_eq(name, "type") {
        ReadField::Type(value)
    } else if text::text_eq(name, "category") {
        ReadField::Category(value)
    } else if text::text_eq(name, "eip") || text::text_eq(name, "number") {
        ReadField::Number(text::parse_u32(value.as_str()))
    } else if text::text_eq(name, "author") {
        ReadField::Authors(authors::extract_authors(value.as_str()))
    } else if text::text_eq(name, "requires") {
        ReadField::Requires(parse_numbers(value.as_str()))
    } else {
        ReadField::Other { name: field.name.clone(), value }
    }
}

/// The numbers that a comma-separated list names, where each of its items is one.
pub fn parse_numbers(value: &str) -> (out: Option<Vec<u32>>)
    ensures
        match out {
            Some(list) => numbers_of(value@) == Some(list@),
            None => numbers_of(value@) is None,
        },
{
    let pieces = text::split(value, ',');
    let ghost items = text::list_items(value@);
    let mut numbers: Vec<u32> = Vec::new();
    let mut i: usize = 0;
    assert(text::views(pieces@).len() == pieces@.len());
    while i < pieces.len()
        invariant
            i <= pieces@.len(),
            text::views(pieces@) == text::split_on(value@, ','),
            items == text::list_items(value@),
            items.len() == pieces@.len(),
            numbers@.len() == i,
            forall|k: int|
                0 <= k < i ==> text::u32_literal(#[trigger] items[k]) == Some(numbers@[k]),
        decreases pieces.len() - i,
    {
        let item = text::trim(pieces[i].as_str());
        assert(items[i as int] == item@) by {
            assert(text::views(pieces@)[i as int] == pieces@[i as int]@);
        }
        match text::parse_u32(item.as_str()) {
            Some(number) => numbers.push(number),
            None => return None,
        }
        i += 1;
    }
    assert(numbers@ =~= numbers_of(value@)->0);
    Some(numbers)
}

/// What probing for the Markdown of a required proposal gave.
fn find_target(targets: &Vec<RequiredTarget>, number: u32) -> (out: Option<&Canonical>)
    ensures
        match out {
            Some(outcome) => outcome_for(targets@, number) == Some(*outcome),
            None => outcome_for(targets@, number) is None,
        },
{
    let mut i: usize = 0;
    assert(targets@.skip(0) =~= targets@);
    while i < targets.len()
        invariant
            i <= targets@.len(),
            outcome_for(targets@, number) == outcome_for(targets@.skip(i as int), number),
        decreases targets.len() - i,
    {
        assert(targets@.skip(i as int)[0] == targets@[i as int]);
        if targets[i].number == number {
            return Some(&targets[i].outcome);
        }
        assert(targets@.skip(i as int).skip(1) =~= targets@.skip(i + 1));
        i += 1;
    }
    None
}

/// The path of a link to the flat Markdown of a proposal.
pub fn required_path(number: u32) -> (out: String)
    ensures
        out@ == flat_link(number),
{
    let digits = text::decimal(number as usize);
    let padded = text::zero_pad(digits.as_str(), 5);
    let parts = vec!["/", padded.as_str(), ".md"];
    assert(text::str_views(parts@) =~= seq!["/"@, padded@, ".md"@]);
    text::glue(parts)
}

/// What a required proposal becomes.
fn required(
    number: u32,
    context: &LinkContext,
    targets: &Vec<RequiredTarget>,
) -> (out: Result<String, PageError>)
    ensures
        match out {
            Ok(text) => required_text(number, context, targets@) == Ok::<Seq<char>, PageFailure>(
                text@,
            ),
            Err(error) => required_text(number, context, targets@) == Err::<Seq<char>, PageFailure>(
                error@,
            ),
        },
{
    let proposal_number = match ProposalNumber::from_u32(number) {
        Ok(proposal_number) => proposal_number,
        Err(_) => return Err(PageError::BadRequires),
    };
    match context.plan {
        Some(plan) => match plan.reference_for_required_number(proposal_number) {
            Ok(ProposalReference::Internal(target)) => Ok(target),
            Ok(ProposalReference::External(url)) => Ok(url),
            Err(_) => Err(PageError::UnknownRequired(number)),
        },
        None => {
            let outcome = match find_target(targets, number) {
                Some(outcome) => outcome,
                None => return Err(PageError::StaleTargets(number)),
            };
            if let Canonical::Missing(cause) = context.canonical_root {
                return Err(
                    PageError::Required(
                        LinkError::NoRoot { root: context.root.to_owned(), cause: cause.clone() },
                    ),
                );
            }
            let link = required_path(number);
            let probe = links::probe(context.root, context.root, link.as_str());
            match links::place(context, &probe, outcome) {
                Ok(LinkPlace::Internal(target)) => Ok(target),
                Ok(LinkPlace::External(url)) => Ok(url),
                Err(error) => Err(PageError::Required(error)),
            }
        },
    }
}

proof fn required_stays_failed(
    numbers: Seq<u32>,
    n: int,
    context: &LinkContext,
    targets: Seq<RequiredTarget>,
)
    requires
        0 <= n <= numbers.len(),
        required_texts(numbers.take(n), context, targets) is Err,
    ensures
        required_texts(numbers, context, targets) == required_texts(
            numbers.take(n),
            context,
            targets,
        ),
    decreases numbers.len(),
{
    if n == numbers.len() {
        assert(numbers.take(n) =~= numbers);
    } else {
        assert(numbers.drop_last().take(n) =~= numbers.take(n));
        required_stays_failed(numbers.drop_last(), n, context, targets);
    }
}

/// What required proposals become.
fn required_list(
    numbers: &Vec<u32>,
    context: &LinkContext,
    targets: &Vec<RequiredTarget>,
) -> (out: Result<Vec<String>, PageError>)
    ensures
        match out {
            Ok(list) => required_texts(numbers@, context, targets@) == Ok::<
                Seq<Seq<char>>,
                PageFailure,
            >(text::views(list@)),
            Err(error) => required_texts(numbers@, context, targets@) == Err::<
                Seq<Seq<char>>,
                PageFailure,
            >(error@),
        },
{
    let mut list: Vec<String> = Vec::new();
    let mut i: usize = 0;
    assert(numbers@.take(0) =~= Seq::empty());
    assert(text::views(list@) =~= Seq::empty());
    while i < numbers.len()
        invariant
            i <= numbers@.len(),
            required_texts(numbers@.take(i as int), context, targets@) == Ok::<
                Seq<Seq<char>>,
                PageFailure,
            >(text::views(list@)),
        decreases numbers.len() - i,
    {
        let ghost before = list@;
        assert(numbers@.take(i + 1).drop_last() =~= numbers@.take(i as int));
        assert(numbers@.take(i + 1).last() == numbers@[i as int]);
        match required(numbers[i], context, targets) {
            Ok(text) => {
                assert(text::views(before.push(text)) =~= text::views(before).push(text@));
                list.push(text);
            },
            Err(error) => {
                proof {
                    required_stays_failed(numbers@, i + 1, context, targets@);
                }
                return Err(error);
            },
        }
        i += 1;
    }
    assert(numbers@.take(i as int) =~= numbers@);
    Ok(list)
}

/// The name under which a proposal's file can be asked for.
fn file_alias(file: &str) -> (out: Result<Option<String>, PageError>)
    ensures
        match out {
            Ok(name) => alias_name(file@) == Ok::<Option<Seq<char>>, PageFailure>(
                text::optional(name),
            ),
            Err(error) => alias_name(file@) == Err::<Option<Seq<char>>, PageFailure>(error@),
        },
{
    match path::file_stem(file) {
        None => Ok(None),
        Some(stem) => {
            if text::text_eq(stem.as_str(), "index") {
                match path::parent(file) {
                    Some(parent) => match path::file_name(parent.as_str()) {
                        Some(name) => Ok(Some(name)),
                        None => Err(PageError::NoDirectoryName),
                    },
                    None => Err(PageError::NoDirectoryName),
                }
            } else {
                Ok(Some(stem))
            }
        },
    }
}

/// Puts a value into the page's own data, and the same as a term into a taxonomy.
fn insert_term(page: &mut FrontMatter, key: &str, value: String)
    requires
        old(page).wf(),
    ensures
        final(page).wf(),
        final(page)@ == with_term(old(page)@, key@, value@),
{
    let terms = Terms { terms: vec![value.clone()] };
    assert(terms@ =~= seq![value@]);
    page.taxonomies.insert(key.to_owned(), terms);
    page.extra.insert(key.to_owned(), ExtraValue::Text(value));
}

/// Appends a prefix with the digits of a number to the list.
fn push_numbered(list: &mut Vec<String>, prefix: &str, number: u32)
    ensures
        text::views(final(list)@) == text::views(old(list)@).push(
            prefix@ + text::decimal_digits(number as nat),
        ),
{
    let ghost before = list@;
    let mut alias = prefix.to_owned();
    let digits = text::decimal(number as usize);
    alias.append(digits.as_str());
    assert(text::views(before.push(alias)) =~= text::views(before).push(alias@));
    list.push(alias);
}

/// Puts a field into the front matter of the page of `file`.
pub fn apply_field(
    page: FrontMatter,
    file: &str,
    field: ReadField,
    context: &LinkContext,
    targets: &Vec<RequiredTarget>,
) -> (out: Result<FrontMatter, PageError>)
    requires
        page.wf(),
    ensures
        match out {
            Ok(made) => made.wf() && with_field(page@, file@, field@, context, targets@) == Ok::<
                FrontMatterView,
                PageFailure,
            >(made@),
            Err(error) => with_field(page@, file@, field@, context, targets@) == Err::<
                FrontMatterView,
                PageFailure,
            >(error@),
        },
{
    let ghost start = page@;
    let mut page = page;
    match field {
        ReadField::Title(value) => {
            page.title = value;
        },
        ReadField::Description(value) => {
            page.description = value;
        },
        ReadField::Created(date) => match date {
            Some(date) => {
                page.date = Some(date);
            },
            None => return Err(PageError::BadCreated),
        },
        ReadField::Status(value) => {
            if !text::text_eq(value.as_str(), "Final") && !text::text_eq(value.as_str(), "Living") {
                page.draft = true;
            }
            insert_term(&mut page, "status", value);
        },
        ReadField::Type(value) => {
            insert_term(&mut page, "type", value);
        },
        ReadField::Category(value) => {
            insert_term(&mut page, "category", value);
        },
        ReadField::Number(number) => match number {
            None => return Err(PageError::BadNumber),
            Some(number) => {
                let name = match file_alias(file) {
                    Ok(name) => name,
                    Err(error) => return Err(error),
                };
                page.template = Some("eip.html".to_owned());
                page.slug = text::decimal(number as usize);
                page.extra.insert("number".to_owned(), ExtraValue::Number(number));
                let ghost given = text::optional(name);
                if let Some(name) = name {
                    let ghost before = page.aliases@;
                    assert(text::views(before.push(name)) =~= text::views(before).push(name@));
                    page.aliases.push(name);
                }
                push_numbered(&mut page.aliases, "ERCS/erc-", number);
                push_numbered(&mut page.aliases, "EIPS/eip-", number);
                assert(text::views(page.aliases@) =~= start.aliases + proposal_aliases(
                    given,
                    number,
                ));
            },
        },
        ReadField::Authors(list) => match list {
            None => return Err(PageError::InvalidAuthor),
            Some(list) => {
                let mut names: Vec<String> = Vec::new();
                let mut i: usize = 0;
                while i < list.len()
                    invariant
                        i <= list@.len(),
                        names@.len() == i,
                        forall|k: int| 0 <= k < i ==> (#[trigger] names@[k])@ == list@[k]@.name,
                    decreases list.len() - i,
                {
                    names.push(list[i].name.clone());
                    i += 1;
                }
                proof {
                    let views = authors::author_views(list@);
                    assert(text::views(names@) =~= Seq::new(views.len(), |i: int| views[i].name));
                }
                page.authors = names;
                page.extra.insert("author_details".to_owned(), ExtraValue::Authors(list));
            },
        },
        ReadField::Requires(numbers) => match numbers {
            None => return Err(PageError::BadRequires),
            Some(numbers) => {
                let list = match required_list(&numbers, context, targets) {
                    Ok(list) => list,
                    Err(error) => return Err(error),
                };
                page.extra.insert("requires".to_owned(), ExtraValue::List(list));
            },
        },
        ReadField::Other { name, value } => {
            let key = text::replace_char(name.as_str(), '-', '_');
            page.extra.insert(key, ExtraValue::Text(value));
        },
    }
    Ok(page)
}

/// What asking the version control for the time of a file's last change gave.
#[derive(Debug, Clone, PartialEq, Eq)]
pub enum History {
    /// What it wrote.
    Output(String),
    /// Why it failed.
    Failed(String),
}

/// A page of the site.
#[derive(Debug, Clone)]
pub struct Page {
    pub front_matter: FrontMatter,
    pub body: String,
}

/// Whether a page has a date of its last change: all but the index of a section.
pub open spec fn has_history(file: Seq<char>) -> bool {
    path::file_name_of(file) != Some("_index.md"@)
}

/// The date of the last change that a page shows.
pub open spec fn updated_of(file: Seq<char>, history: History) -> Result<
    Option<Seq<char>>,
    PageFailure,
> {
    if !has_history(file) {
        Ok(None)
    } else {
        match history {
            History::Failed(cause) => Err(PageFailure::NoHistory(cause@)),
            History::Output(output) => match text::i64_literal(output@) {
                None => Err(PageFailure::BadTimestamp(output@)),
                Some(seconds) => match dates::commit_date(seconds) {
                    None => Err(PageFailure::TimestampRange(seconds)),
                    Some(date) => Ok(Some(date)),
                },
            },
        }
    }
}

/// The fields of a preamble, each read as what its name says.
pub open spec fn read_all(fields: Seq<FieldView>) -> Seq<ReadView> {
    Seq::new(fields.len(), |i: int| read_as(fields[i]))
}

/// The page of a file: its front matter and its body.
pub open spec fn page_of(
    file: Seq<char>,
    contents: Seq<char>,
    context: &LinkContext,
    outcomes: Seq<Canonical>,
    history: History,
    targets: Seq<RequiredTarget>,
) -> Result<(FrontMatterView, Seq<char>), PageFailure> {
    match preamble::divided(contents) {
        Err(failure) => Err(PageFailure::Split(failure)),
        Ok((head, body)) => match transform::transformed(body, context, outcomes) {
            Err(failure) => Err(PageFailure::Transform(failure)),
            Ok(text) => match preamble::fields_of(head) {
                None => Err(PageFailure::Preamble),
                Some(fields) => match updated_of(file, history) {
                    Err(failure) => Err(failure),
                    Ok(updated) => match with_fields(
                        FrontMatterView { updated, ..front_matter::blank() },
                        file,
                        read_all(fields),
                        context,
                        targets,
                    ) {
                        Err(failure) => Err(failure),
                        Ok(page) => Ok((page, text)),
                    },
                },
            },
        },
    }
}

/// The probes that the links of a file ask for.
pub open spec fn probes_of_file(contents: Seq<char>, root: Seq<char>, parent: Seq<char>) -> Seq<
    ProbeView,
> {
    match preamble::divided(contents) {
        Err(_) => Seq::empty(),
        Ok((_, body)) => transform::probes_of(transform::seen_in(body), root, parent),
    }
}

/// The required proposals that read fields name.
pub open spec fn numbers_required(fields: Seq<ReadView>) -> Seq<u32>
    decreases fields.len(),
{
    if fields.len() == 0 {
        Seq::empty()
    } else {
        let before = numbers_required(fields.drop_last());
        match fields.last() {
            ReadView::Requires(Some(numbers)) => before + numbers,
            _ => before,
        }
    }
}

/// The required proposals that a file names.
pub open spec fn numbers_of_file(contents: Seq<char>) -> Seq<u32> {
    match preamble::divided(contents) {
        Err(_) => Seq::empty(),
        Ok((head, _)) => match preamble::fields_of(head) {
            None => Seq::empty(),
            Some(fields) => numbers_required(read_all(fields)),
        },
    }
}

/// Whether a page has a date of its last change.
pub fn needs_history(file: &str) -> (yes: bool)
    ensures
        yes == has_history(file@),
{
    match path::file_name(file) {
        Some(name) => !text::text_eq(name.as_str(), "_index.md"),
        None => true,
    }
}

/// The date of the last change that a page shows.
fn last_modified(file: &str, history: &History) -> (out: Result<Option<String>, PageError>)
    ensures
        match out {
            Ok(date) => updated_of(file@, *history) == Ok::<Option<Seq<char>>, PageFailure>(
                text::optional(date),
            ),
            Err(error) => updated_of(file@, *history) == Err::<Option<Seq<char>>, PageFailure>(
                error@,
            ),
        },
{
    if !needs_history(file) {
        return Ok(None);
    }
    match history {
        History::Failed(cause) => Err(PageError::NoHistory(cause.clone())),
        History::Output(output) => match text::parse_i64(output.as_str()) {
            None => Err(PageError::BadTimestamp(output.clone())),
            Some(seconds) => match dates::date_of_commit(seconds) {
                None => Err(PageError::TimestampRange(seconds)),
                Some(date) => Ok(Some(date)),
            },
        },
    }
}

/// The probes that the links of a file ask for.
pub fn file_probes(contents: &str, root: &str, parent: &str) -> (out: Vec<LinkProbe>)
    ensures
        out@.len() == probes_of_file(contents@, root@, parent@).len(),
        forall|i: int|
            0 <= i < out@.len() ==> (#[trigger] out@[i])@ == probes_of_file(
                contents@,
                root@,
                parent@,
            )[i],
{
    match preamble::split(contents) {
        Err(_) => Vec::new(),
        Ok((_, body)) => {
            let seen = transform::examine(body.as_str());
            transform::link_probes(&seen, root, parent)
        },
    }
}

/// The fields of a preamble, each read as what its name says.
fn read_fields(fields: &Vec<Field>) -> (out: Vec<ReadField>)
    ensures
        read_views(out@) == read_all(preamble::field_views(fields@)),
{
    let mut out: Vec<ReadField> = Vec::new();
    let mut i: usize = 0;
    while i < fields.len()
        invariant
            i <= fields@.len(),
            out@.len() == i,
            forall|k: int| 0 <= k < i ==> (#[trigger] out@[k])@ == read_as(fields@[k]@),
        decreases fields.len() - i,
    {
        out.push(read_field(&fields[i]));
        i += 1;
    }
    assert(read_views(out@) =~= read_all(preamble::field_views(fields@)));
    out
}

/// What a list of read fields stands for.
pub open spec fn read_views(list: Seq<ReadField>) -> Seq<ReadView> {
    Seq::new(list.len(), |i: int| list[i]@)
}

/// The required proposals that a file names.
pub fn file_numbers(contents: &str) -> (out: Vec<u32>)
    ensures
        out@ == numbers_of_file(contents@),
{
    let (head, _) = match preamble::split(contents) {
        Err(_) => return Vec::new(),
        Ok(parts) => parts,
    };
    let fields = match preamble::parse("", head.as_str()) {
        None => return Vec::new(),
        Some(fields) => fields,
    };
    let read = read_fields(&fields);
    let ghost all = read_views(read@);
    let mut out: Vec<u32> = Vec::new();
    let mut i: usize = 0;
    assert(all.take(0) =~= Seq::empty());
    while i < read.len()
        invariant
            i <= read@.len(),
            all == read_views(read@),
            out@ == numbers_required(all.take(i as int)),
        decreases read.len() - i,
    {
        assert(all.take(i + 1).drop_last() =~= all.take(i as int));
        assert(all.take(i + 1).last() == read@[i as int]@);
        if let ReadField::Requires(Some(numbers)) = &read[i] {
            let mut more = numbers.clone();
            assert(more@ =~= numbers@);
            out.append(&mut more);
        }
        i += 1;
    }
    assert(all.take(i as int) =~= all);
    out
}

proof fn fields_stay_failed(
    page: FrontMatterView,
    file: Seq<char>,
    fields: Seq<ReadView>,
    n: int,
    context: &LinkContext,
    targets: Seq<RequiredTarget>,
)
    requires
        0 <= n <= fields.len(),
        with_fields(page, file, fields.take(n), context, targets) is Err,
    ensures
        with_fields(page, file, fields, context, targets) == with_fields(
            page,
            file,
            fields.take(n),
            context,
            targets,
        ),
    decreases fields.len(),
{
    if n == fields.len() {
        assert(fields.take(n) =~= fields);
    } else {
        assert(fields.drop_last().take(n) =~= fields.take(n));
        fields_stay_failed(page, file, fields.drop_last(), n, context, targets);
    }
}

/// The page of a file. The outcomes are those of the probes that its links ask for, and the targets
/// those of the proposals that it requires.
pub fn process_eip(
    file: &str,
    contents: &str,
    context: &LinkContext,
    outcomes: &Vec<Canonical>,
    history: &History,
    targets: &Vec<RequiredTarget>,
) -> (out: Result<Page, PageError>)
    ensures
        match out {
            Ok(page) => page.front_matter.wf() && page_of(
                file@,
                contents@,
                context,
                outcomes@,
                *history,
                targets@,
            ) == Ok::<(FrontMatterView, Seq<char>), PageFailure>((page.front_matter@, page.body@)),
            Err(error) => page_of(file@, contents@, context, outcomes@, *history, targets@) == Err::<
                (FrontMatterView, Seq<char>),
                PageFailure,
            >(error@),
        },
{
    let (head, body) = match preamble::split(contents) {
        Err(failure) => return Err(PageError::Split(failure)),
        Ok(parts) => parts,
    };
    let body = match transform::transform_markdown(body.as_str(), context, outcomes) {
        Err(error) => return Err(PageError::Transform(error)),
        Ok(text) => text,
    };
    let fields = match preamble::parse(file, head.as_str()) {
        None => return Err(PageError::Preamble),
        Some(fields) => fields,
    };
    let updated = match last_modified(file, history) {
        Err(error) => return Err(error),
        Ok(updated) => updated,
    };
    let ghost start = FrontMatterView { updated: text::optional(updated), ..front_matter::blank() };
    let ghost wanted = read_all(preamble::field_views(fields@));
    let mut page = FrontMatter::new();
    page.updated = updated;
    let ghost result = page_of(file@, contents@, context, outcomes@, *history, targets@);
    let ghost folded = match with_fields(start, file@, wanted, context, targets@) {
        Err(failure) => Err::<(FrontMatterView, Seq<char>), PageFailure>(failure),
        Ok(page) => Ok((page, body@)),
    };
    let mut i: usize = 0;
    assert(wanted.take(0) =~= Seq::empty());
    assert(result == folded);
    while i < fields.len()
        invariant
            i <= fields@.len(),
            wanted == read_all(preamble::field_views(fields@)),
            result == page_of(file@, contents@, context, outcomes@, *history, targets@),
            result == (match with_fields(start, file@, wanted, context, targets@) {
                Err(failure) => Err::<(FrontMatterView, Seq<char>), PageFailure>(failure),
                Ok(page) => Ok((page, body@)),
            }),
            page.wf(),
            with_fields(start, file@, wanted.take(i as int), context, targets@) == Ok::<
                FrontMatterView,
                PageFailure,
            >(page@),
        decreases fields.len() - i,
    {
        proof {
            assert(wanted.take(i + 1).drop_last() =~= wanted.take(i as int));
            assert(wanted.take(i + 1).last() == read_as(fields@[i as int]@));
        }
        let field = read_field(&fields[i]);
        page = match apply_field(page, file, field, context, targets) {
            Ok(page) => page,
            Err(error) => {
                proof {
                    fields_stay_failed(start, file@, wanted, i + 1, context, targets@);
                }
                return Err(error);
            },
        };
        i += 1;
    }
    assert(wanted.take(i as int) =~= wanted);
    Ok(Page { front_matter: page, body })
}

/// Whether probing was done for each of the numbers.
pub open spec fn targets_cover(targets: Seq<RequiredTarget>, numbers: Seq<u32>) -> bool {
    forall|i: int|
        0 <= i < numbers.len() ==> #[trigger] numbers[i] == 0 || outcome_for(targets, numbers[i]) is Some
}

proof fn covered_numbers_are_not_stale(
    numbers: Seq<u32>,
    context: &LinkContext,
    targets: Seq<RequiredTarget>,
)
    requires
        targets_cover(targets, numbers),
    ensures
        !(required_texts(numbers, context, targets) matches Err(PageFailure::StaleTargets(_))),
    decreases numbers.len(),
{
    if numbers.len() > 0 {
        let before = numbers.drop_last();
        assert forall|i: int| 0 <= i < before.len() implies #[trigger] before[i] == 0 || outcome_for(
            targets,
            before[i],
        ) is Some by {
            assert(before[i] == numbers[i]);
        }
        covered_numbers_are_not_stale(before, context, targets);
        assert(numbers[numbers.len() - 1] == numbers.last());
    }
}

/// Probing for each proposal that the fields require is all that the front matter needs.
pub proof fn asked_targets_are_enough(
    page: FrontMatterView,
    file: Seq<char>,
    fields: Seq<ReadView>,
    context: &LinkContext,
    targets: Seq<RequiredTarget>,
)
    requires
        targets_cover(targets, numbers_required(fields)),
    ensures
        !(with_fields(page, file, fields, context, targets) matches Err(
            PageFailure::StaleTargets(_),
        )),
    decreases fields.len(),
{
    if fields.len() > 0 {
        let all = numbers_required(fields);
        let before = numbers_required(fields.drop_last());
        assert forall|i: int| 0 <= i < before.len() implies #[trigger] before[i] == 0 || outcome_for(
            targets,
            before[i],
        ) is Some by {
            assert(before[i] == all[i]);
        }
        asked_targets_are_enough(page, file, fields.drop_last(), context, targets);
        if let ReadView::Requires(Some(numbers)) = fields.last() {
            assert forall|i: int| 0 <= i < numbers.len() implies #[trigger] numbers[i] == 0
                || outcome_for(targets, numbers[i]) is Some by {
                assert(numbers[i] == all[before.len() + i]);
            }
            covered_numbers_are_not_stale(numbers, context, targets);
        }
    }
}

/// A field never takes the mark of a draft away.
pub proof fn drafts_stay_drafts(
    page: FrontMatterView,
    file: Seq<char>,
    fields: Seq<ReadView>,
    context: &LinkContext,
    targets: Seq<RequiredTarget>,
)
    requires
        page.draft,
    ensures
        with_fields(page, file, fields, context, targets) matches Ok(made) ==> made.draft,
    decreases fields.len(),
{
    if fields.len() > 0 {
        drafts_stay_drafts(page, file, fields.drop_last(), context, targets);
    }
}

/// The key under which a field of a preamble stands in the data of its page.
pub open spec fn data_key(name: Seq<char>) -> Seq<char> {
    if name == "eip"@ || name == "number"@ {
        "number"@
    } else if name == "author"@ {
        "author_details"@
    } else {
        text::with_replaced(name, '-', '_')
    }
}

/// Whether a page shows a field of a preamble: titles, descriptions, dates, numbers and authors each in
/// their place, a status, a type and a category as data and as a term, required proposals each by what
/// it becomes, and everything else as data under its name with underscores for hyphens.
pub open spec fn shows_field(
    page: FrontMatterView,
    name: Seq<char>,
    value: Seq<char>,
    context: &LinkContext,
    targets: Seq<RequiredTarget>,
) -> bool {
    if name == "title"@ {
        page.title == value
    } else if name == "description"@ {
        page.description == value
    } else if name == "created"@ {
        page.date is Some && page.date == dates::toml_date_of(value)
    } else if name == "status"@ || name == "type"@ || name == "category"@ {
        &&& page.extra.dom().contains(name) && page.extra[name] == ExtraView::Text(value)
        &&& page.taxonomies.dom().contains(name) && page.taxonomies[name] == seq![value]
        &&& name == "status"@ && value != "Final"@ && value != "Living"@ ==> page.draft
    } else if name == "eip"@ || name == "number"@ {
        text::u32_literal(value) matches Some(number) && {
            &&& page.extra.dom().contains("number"@) && page.extra["number"@] == ExtraView::Number(
                number,
            )
            &&& page.slug == text::decimal_digits(number as nat)
            &&& page.template == Some("eip.html"@)
            &&& page.aliases.contains("EIPS/eip-"@ + text::decimal_digits(number as nat))
            &&& page.aliases.contains("ERCS/erc-"@ + text::decimal_digits(number as nat))
        }
    } else if name == "author"@ {
        authors::authors_of(value) matches Some(list) && {
            &&& page.authors.len() == list.len()
            &&& forall|i: int| 0 <= i < list.len() ==> page.authors[i] == (#[trigger] list[i]).name
            &&& page.extra.dom().contains("author_details"@) && page.extra["author_details"@]
                == ExtraView::Authors(list)
        }
    } else if name == "requires"@ {
        &&& numbers_of(value) is Some
        &&& page.extra.dom().contains("requires"@)
        &&& page.extra["requires"@] matches ExtraView::List(list) && list.len() == numbers_of(
            value,
        )->0.len() && forall|i: int|
            0 <= i < list.len() ==> required_text(numbers_of(value)->0[i], context, targets) == Ok::<
                Seq<char>,
                PageFailure,
            >(#[trigger] list[i])
    } else {
        let key = text::with_replaced(name, '-', '_');
        page.extra.dom().contains(key) && page.extra[key] == ExtraView::Text(value)
    }
}

/// A list of required proposals is answered number by number, in its order.
pub proof fn required_texts_answer_each(
    numbers: Seq<u32>,
    context: &LinkContext,
    targets: Seq<RequiredTarget>,
    i: int,
)
    requires
        required_texts(numbers, context, targets) is Ok,
        0 <= i < numbers.len(),
    ensures
        required_texts(numbers, context, targets)->Ok_0.len() == numbers.len(),
        required_text(numbers[i], context, targets) == Ok::<Seq<char>, PageFailure>(
            required_texts(numbers, context, targets)->Ok_0[i],
        ),
    decreases numbers.len(),
{
    let before = numbers.drop_last();
    if i < numbers.len() - 1 {
        required_texts_answer_each(before, context, targets, i);
        assert(before[i] == numbers[i]);
    } else if before.len() > 0 {
        required_texts_answer_each(before, context, targets, 0);
    }
}

proof fn lengths_of_required_texts(
    numbers: Seq<u32>,
    context: &LinkContext,
    targets: Seq<RequiredTarget>,
)
    ensures
        required_texts(numbers, context, targets) matches Ok(list) ==> list.len() == numbers.len(),
    decreases numbers.len(),
{
    if numbers.len() > 0 {
        lengths_of_required_texts(numbers.drop_last(), context, targets);
    }
}

#[verifier::rlimit(60)]
proof fn special_names_differ()
    ensures
        forall|name: Seq<char>|
            name == "title"@ || name == "description"@ || name == "created"@ || name == "status"@
                || name == "type"@ || name == "category"@ || name == "requires"@ || name
                == "number"@ ==> #[trigger] data_key(name) == name,
        "title"@ != "description"@,
        "title"@ != "created"@,
        "title"@ != "status"@,
        "title"@ != "type"@,
        "title"@ != "category"@,
        "title"@ != "eip"@,
        "title"@ != "number"@,
        "title"@ != "author"@,
        "title"@ != "requires"@,
        "status"@ != "type"@,
        "status"@ != "category"@,
        "status"@ != "number"@,
        "status"@ != "requires"@,
        "status"@ != "author_details"@,
        "type"@ != "category"@,
        "type"@ != "number"@,
        "type"@ != "requires"@,
        "type"@ != "author_details"@,
        "category"@ != "number"@,
        "category"@ != "requires"@,
        "category"@ != "author_details"@,
        "number"@ != "requires"@,
        "number"@ != "author_details"@,
        "requires"@ != "author_details"@,
{
    reveal_strlit("title");
    reveal_strlit("description");
    reveal_strlit("created");
    reveal_strlit("status");
    reveal_strlit("type");
    reveal_strlit("category");
    reveal_strlit("requires");
    reveal_strlit("number");
    reveal_strlit("eip");
    reveal_strlit("author");
    reveal_strlit("author_details");
    assert("title"@[0] == 't' && "description"@[0] == 'd' && "created"@[0] == 'c');
    assert("status"@[0] == 's' && "category"@[0] == 'c' && "requires"@[0] == 'r');
    assert("number"@[0] == 'n' && "eip"@[0] == 'e' && "author"@[0] == 'a');
    assert("author_details"@[0] == 'a' && "type"@[0] == 't' && "title"@[1] == 'i' && "type"@[1]
        == 'y');
    assert forall|name: Seq<char>|
        name == "title"@ || name == "description"@ || name == "created"@ || name == "status"@
            || name == "type"@ || name == "category"@ || name == "requires"@ || name
            == "number"@ implies #[trigger] data_key(name) == name by {
        assert(text::with_replaced(name, '-', '_') =~= name);
    }
}

#[verifier::rlimit(60)]
proof fn new_field_is_shown(
    page: FrontMatterView,
    file: Seq<char>,
    field: FieldView,
    context: &LinkContext,
    targets: Seq<RequiredTarget>,
)
    requires
        with_field(page, file, read_as(field), context, targets) is Ok,
    ensures
        shows_field(
            with_field(page, file, read_as(field), context, targets)->Ok_0,
            field.name,
            text::trimmed(field.value),
            context,
            targets,
        ),
{
    let value = text::trimmed(field.value);
    let after = with_field(page, file, read_as(field), context, targets)->Ok_0;
    match read_as(field) {
        ReadView::Number(Some(number)) => {
            let digits = text::decimal_digits(number as nat);
            let last = after.aliases.len() as int;
            assert(after.aliases[last - 1] == "EIPS/eip-"@ + digits);
            assert(after.aliases[last - 2] == "ERCS/erc-"@ + digits);
        },
        ReadView::Requires(Some(numbers)) => {
            lengths_of_required_texts(numbers, context, targets);
            let list = required_texts(numbers, context, targets)->Ok_0;
            assert forall|i: int| 0 <= i < list.len() implies required_text(
                numbers[i],
                context,
                targets,
            ) == Ok::<Seq<char>, PageFailure>(#[trigger] list[i]) by {
                required_texts_answer_each(numbers, context, targets, i);
            }
        },
        _ => {},
    }
}

#[verifier::rlimit(60)]
proof fn shown_field_stays(
    page: FrontMatterView,
    file: Seq<char>,
    field: FieldView,
    context: &LinkContext,
    targets: Seq<RequiredTarget>,
    name: Seq<char>,
    value: Seq<char>,
)
    requires
        with_field(page, file, read_as(field), context, targets) is Ok,
        shows_field(page, name, value, context, targets),
        data_key(field.name) != data_key(name),
    ensures
        shows_field(
            with_field(page, file, read_as(field), context, targets)->Ok_0,
            name,
            value,
            context,
            targets,
        ),
{
    special_names_differ();
    let after = with_field(page, file, read_as(field), context, targets)->Ok_0;
    assert forall|a: Seq<char>| page.aliases.contains(a) implies #[trigger] after.aliases.contains(
        a,
    ) by {
        let k = choose|k: int| 0 <= k < page.aliases.len() && page.aliases[k] == a;
        assert(after.aliases[k] == a);
    }
    assert(name == "eip"@ || name == "number"@ ==> data_key(name) == "number"@);
    assert(name == "author"@ ==> data_key(name) == "author_details"@) by {
        reveal_strlit("author");
        reveal_strlit("eip");
        reveal_strlit("number");
        assert("eip"@[0] == 'e' && "number"@[0] == 'n' && "author"@[0] == 'a');
    }
}

proof fn shown_field_stays_to_the_end(
    page: FrontMatterView,
    file: Seq<char>,
    fields: Seq<FieldView>,
    context: &LinkContext,
    targets: Seq<RequiredTarget>,
    k: int,
)
    requires
        with_fields(page, file, read_all(fields), context, targets) is Ok,
        0 <= k < fields.len(),
        forall|j: int|
            k < j < fields.len() ==> data_key((#[trigger] fields[j]).name) != data_key(
                fields[k].name,
            ),
    ensures
        shows_field(
            with_fields(page, file, read_all(fields), context, targets)->Ok_0,
            fields[k].name,
            text::trimmed(fields[k].value),
            context,
            targets,
        ),
    decreases fields.len(),
{
    let reads = read_all(fields);
    let before = fields.drop_last();
    assert(reads.drop_last() =~= read_all(before));
    assert(reads.last() == read_as(fields.last()));
    let earlier = with_fields(page, file, read_all(before), context, targets)->Ok_0;
    if k == fields.len() - 1 {
        new_field_is_shown(earlier, file, fields.last(), context, targets);
    } else {
        assert forall|j: int| k < j < before.len() implies data_key((#[trigger] before[j]).name)
            != data_key(before[k].name) by {
            assert(before[j] == fields[j]);
        }
        shown_field_stays_to_the_end(page, file, before, context, targets, k);
        assert(data_key(fields[fields.len() - 1].name) != data_key(fields[k].name));
        shown_field_stays(
            earlier,
            file,
            fields.last(),
            context,
            targets,
            fields[k].name,
            text::trimmed(fields[k].value),
        );
    }
}

/// Every field of a preamble, unless a later one takes its place, is shown by the page, without the
/// white space around its value; the body of the page is the transformed body of the file.
pub proof fn pages_show_their_preamble(
    file: Seq<char>,
    contents: Seq<char>,
    context: &LinkContext,
    outcomes: Seq<Canonical>,
    history: History,
    targets: Seq<RequiredTarget>,
    head: Seq<char>,
    body: Seq<char>,
    fields: Seq<FieldView>,
    k: int,
)
    requires
        page_of(file, contents, context, outcomes, history, targets) is Ok,
        preamble::divided(contents) == Ok::<(Seq<char>, Seq<char>), SplitFailure>((head, body)),
        preamble::fields_of(head) == Some(fields),
        0 <= k < fields.len(),
        forall|j: int|
            k < j < fields.len() ==> data_key((#[trigger] fields[j]).name) != data_key(
                fields[k].name,
            ),
    ensures
        ({
            let page = page_of(file, contents, context, outcomes, history, targets)->Ok_0;
            &&& shows_field(
                page.0,
                fields[k].name,
                text::trimmed(fields[k].value),
                context,
                targets,
            )
            &&& transform::transformed(body, context, outcomes) == Ok::<
                Seq<char>,
                transform::TransformFailure,
            >(page.1)
        }),
{
    shown_field_stays_to_the_end(
        FrontMatterView { updated: updated_of(file, history)->Ok_0, ..front_matter::blank() },
        file,
        fields,
        context,
        targets,
        k,
    );
}

proof fn drafts_have_a_reason(
    page: FrontMatterView,
    file: Seq<char>,
    fields: Seq<FieldView>,
    context: &LinkContext,
    targets: Seq<RequiredTarget>,
)
    requires
        with_fields(page, file, read_all(fields), context, targets) is Ok,
    ensures
        ({
            let made = with_fields(page, file, read_all(fields), context, targets)->Ok_0;
            &&& made.draft && !page.draft ==> exists|k: int|
                0 <= k < fields.len() && (#[trigger] fields[k]).name == "status"@ && text::trimmed(
                    fields[k].value,
                ) != "Final"@ && text::trimmed(fields[k].value) != "Living"@
            &&& made.updated == page.updated
            &&& made.weight == page.weight
            &&& made.path == page.path
            &&& made.in_search_index == page.in_search_index
        }),
    decreases fields.len(),
{
    if fields.len() > 0 {
        let reads = read_all(fields);
        let before = fields.drop_last();
        assert(reads.drop_last() =~= read_all(before));
        assert(reads.last() == read_as(fields.last()));
        drafts_have_a_reason(page, file, before, context, targets);
        let earlier = with_fields(page, file, read_all(before), context, targets)->Ok_0;
        let made = with_fields(page, file, reads, context, targets)->Ok_0;
        if made.draft && !page.draft {
            if earlier.draft {
                let k = choose|k: int|
                    0 <= k < before.len() && (#[trigger] before[k]).name == "status"@
                        && text::trimmed(before[k].value) != "Final"@ && text::trimmed(
                        before[k].value,
                    ) != "Living"@;
                assert(fields[k].name == "status"@);
            } else {
                assert(fields[fields.len() - 1].name == "status"@);
            }
        }
    }
}

/// A page is a draft exactly where a status of its preamble is neither `Final` nor `Living`. It shows
/// the date of its last change, which the version control gives in seconds, unless it is the index of
/// a section.
pub proof fn pages_are_drafts_until_they_are_final(
    file: Seq<char>,
    contents: Seq<char>,
    context: &LinkContext,
    outcomes: Seq<Canonical>,
    history: History,
    targets: Seq<RequiredTarget>,
    head: Seq<char>,
    body: Seq<char>,
    fields: Seq<FieldView>,
)
    requires
        page_of(file, contents, context, outcomes, history, targets) is Ok,
        preamble::divided(contents) == Ok::<(Seq<char>, Seq<char>), SplitFailure>((head, body)),
        preamble::fields_of(head) == Some(fields),
    ensures
        ({
            let page = page_of(file, contents, context, outcomes, history, targets)->Ok_0.0;
            &&& page.draft <==> exists|k: int|
                0 <= k < fields.len() && (#[trigger] fields[k]).name == "status"@ && text::trimmed(
                    fields[k].value,
                ) != "Final"@ && text::trimmed(fields[k].value) != "Living"@
            &&& path::file_name_of(file) == Some("_index.md"@) ==> page.updated is None
            &&& path::file_name_of(file) != Some("_index.md"@) ==> (history matches History::Output(
                output,
            ) && text::i64_literal(output@) matches Some(seconds)
                && dates::rfc3339_of(seconds) matches Some(moment) && page.updated is Some
                && page.updated == dates::toml_date_of(moment))
            &&& page.weight == 0
            &&& page.path.len() == 0
            &&& page.in_search_index
        }),
{
    let start = FrontMatterView {
        updated: updated_of(file, history)->Ok_0,
        ..front_matter::blank()
    };
    drafts_have_a_reason(start, file, fields, context, targets);
    let page = page_of(file, contents, context, outcomes, history, targets)->Ok_0.0;
    if exists|k: int|
        0 <= k < fields.len() && (#[trigger] fields[k]).name == "status"@ && text::trimmed(
            fields[k].value,
        ) != "Final"@ && text::trimmed(fields[k].value) != "Living"@ {
        let k = choose|k: int|
            0 <= k < fields.len() && (#[trigger] fields[k]).name == "status"@ && text::trimmed(
                fields[k].value,
            ) != "Final"@ && text::trimmed(fields[k].value) != "Living"@;
        unfinished_status_makes_a_draft(start, file, fields, context, targets, k);
    }
}

proof fn unfinished_status_makes_a_draft(
    page: FrontMatterView,
    file: Seq<char>,
    fields: Seq<FieldView>,
    context: &LinkContext,
    targets: Seq<RequiredTarget>,
    k: int,
)
    requires
        with_fields(page, file, read_all(fields), context, targets) is Ok,
        0 <= k < fields.len(),
        fields[k].name == "status"@,
        text::trimmed(fields[k].value) != "Final"@,
        text::trimmed(fields[k].value) != "Living"@,
    ensures
        with_fields(page, file, read_all(fields), context, targets)->Ok_0.draft,
    decreases fields.len(),
{
    let reads = read_all(fields);
    let before = fields.drop_last();
    assert(reads.drop_last() =~= read_all(before));
    assert(reads.last() == read_as(fields.last()));
    if k < fields.len() - 1 {
        assert(before[k] == fields[k]);
        unfinished_status_makes_a_draft(page, file, before, context, targets, k);
    } else {
        reveal_strlit("status");
        reveal_strlit("title");
        reveal_strlit("description");
        reveal_strlit("created");
        assert("status"@[0] == 's' && "title"@[0] == 't' && "description"@[0] == 'd'
            && "created"@[0] == 'c');
    }
}

/// A required proposal that is positive becomes a reference: with a selection, its path in the site
/// where it is selected and its public address where it is not; without one, the path of its Markdown
/// from the content directory. Zero is no proposal.
pub proof fn required_proposals_are_linked(
    number: u32,
    context: &LinkContext,
    targets: Seq<RequiredTarget>,
)
    requires
        required_text(number, context, targets) is Ok,
    ensures
        number > 0,
        ({
            let out = required_text(number, context, targets)->Ok_0;
            match context.plan {
                Some(plan) => crate::only::lookup(plan.index(), number) matches Some(found) && (
                if plan.selection().contains(number) {
                    out == "@/"@ + found.path
                } else {
                    out == found.url
                }),
                None => outcome_for(targets, number) matches Some(Canonical::Found(target))
                    && *context.canonical_root matches Canonical::Found(base) && path::stripped(
                    target@,
                    base@,
                ) matches Some(relative) && out == "@/"@ + relative,
            }
        }),
{
}

/// Without a selection, the Markdown of a required proposal is looked for at the top of the content
/// directory, under its number with at least five digits.
pub proof fn required_proposals_have_five_digits(number: u32)
    ensures
        ({
            let digits = text::zero_padded(text::decimal_digits(number as nat), 5);
            &&& flat_link(number) == "/"@ + digits + ".md"@
            &&& digits.len() >= 5
            &&& text::all_digits(digits)
            &&& text::decimal_value(digits) == number
        }),
{
    let digits = text::zero_padded(text::decimal_digits(number as nat), 5);
    text::decimal_digits_round_trip(number as nat);
    text::zero_padding_keeps_value(text::decimal_digits(number as nat), 5);
    let parts = seq!["/"@, digits, ".md"@];
    reveal_with_fuel(text::glued, 4);
    assert(parts.drop_last() =~= seq!["/"@, digits]);
    assert(parts.drop_last().drop_last() =~= seq!["/"@]);
    assert(parts.drop_last().drop_last().drop_last() =~= Seq::<Seq<char>>::empty());
    assert(flat_link(number) =~= "/"@ + digits + ".md"@);
}

/// A proposal can be asked for under the name of its file, or of its directory where the file is its
/// index.
pub proof fn proposals_are_known_by_their_file(file: Seq<char>, name: Seq<char>)
    requires
        path::file_name_of(file) == Some(name),
    ensures
        name == "index.md"@ ==> (alias_name(file) matches Ok(found) ==> path::parent_of(
            file,
        ) matches Some(parent) && found == path::file_name_of(parent) && found is Some),
        path::stem_of(name) != "index"@ ==> alias_name(file) == Ok::<Option<Seq<char>>, PageFailure>(
            Some(path::stem_of(name)),
        ),
{
    reveal_strlit("index.md");
    reveal_strlit("index");
    reveal_strlit("md");
    if name == "index.md"@ {
        crate::proposal::dot_behind("index"@, "md"@);
        assert(name =~= "index"@.push('.') + "md"@);
        assert(name.take(5) =~= "index"@);
    }
}

/// The message for a file that cannot become a page.
pub open spec fn page_message(file: Seq<char>, failure: PageFailure) -> Seq<char> {
    match failure {
        PageFailure::Split(_) => text::glued(seq!["couldn't split preamble for `"@, file, "`"@]),
        PageFailure::Transform(failure) => text::glued(
            seq![
                "unable to transform markdown for `"@,
                file,
                "`: "@ + transform::transform_message(failure),
            ],
        ),
        PageFailure::Preamble => text::glued(seq!["couldn't parse preamble in `"@, file, "`"@]),
        PageFailure::NoHistory(cause) => cause,
        PageFailure::BadTimestamp(given) => text::glued(
            seq!["unable to parse timestamp `"@, given, "`"@],
        ),
        PageFailure::TimestampRange(_) => "timestamp out of range"@,
        PageFailure::BadCreated => text::glued(seq!["couldn't parse created in `"@, file, "`"@]),
        PageFailure::BadNumber => "couldn't parse eip/number"@,
        PageFailure::NoDirectoryName => text::glued(
            seq!["index file without a directory name `"@, file, "`"@],
        ),
        PageFailure::InvalidAuthor => "invalid author"@,
        PageFailure::BadRequires => "could not parse requires"@,
        PageFailure::UnknownRequired(number) => text::glued(
            seq![
                "required proposal `"@,
                text::decimal_digits(number as nat),
                "` is not in the content"@,
            ],
        ),
        PageFailure::Required(failure) => links::link_message(failure),
        PageFailure::StaleTargets(_) => "required proposals changed while they were looked up"@,
    }
}

impl PageError {
    /// The message of the error, for the file that cannot become a page.
    pub fn message(&self, file: &str) -> (out: String)
        ensures
            out@ == page_message(file@, self@),
    {
        match self {
            PageError::Split(_) => text::wrap("couldn't split preamble for `", file, "`"),
            PageError::Transform(error) => {
                let why = error.message();
                let mut tail = "`: ".to_owned();
                tail.append(why.as_str());
                text::wrap("unable to transform markdown for `", file, tail.as_str())
            },
            PageError::Preamble => text::wrap("couldn't parse preamble in `", file, "`"),
            PageError::NoHistory(cause) => cause.clone(),
            PageError::BadTimestamp(given) => text::wrap(
                "unable to parse timestamp `",
                given.as_str(),
                "`",
            ),
            PageError::TimestampRange(_) => "timestamp out of range".to_owned(),
            PageError::BadCreated => text::wrap("couldn't parse created in `", file, "`"),
            PageError::BadNumber => "couldn't parse eip/number".to_owned(),
            PageError::NoDirectoryName => text::wrap(
                "index file without a directory name `",
                file,
                "`",
            ),
            PageError::InvalidAuthor => "invalid author".to_owned(),
            PageError::BadRequires => "could not parse requires".to_owned(),
            PageError::UnknownRequired(number) => {
                let digits = text::decimal(*number as usize);
                text::wrap("required proposal `", digits.as_str(), "` is not in the content")
            },
            PageError::Required(error) => error.message(),
            PageError::StaleTargets(_) => {
                "required proposals changed while they were looked up".to_owned()
            },
        }
    }
}

/// One outcome for each link that a file asks for, in their order, is all that its body needs.
pub proof fn asked_links_are_enough(
    file: Seq<char>,
    contents: Seq<char>,
    context: &LinkContext,
    outcomes: Seq<Canonical>,
    history: History,
    targets: Seq<RequiredTarget>,
)
    requires
        outcomes.len() == probes_of_file(contents, context.root@, context.parent@).len(),
    ensures
        page_of(file, contents, context, outcomes, history, targets) != Err::<
            (FrontMatterView, Seq<char>),
            PageFailure,
        >(PageFailure::Transform(TransformFailure::StaleProbes)),
{
    if let Ok((head, body)) = preamble::divided(contents) {
        transform::asked_probes_are_enough(body, context, outcomes);
        if let Some(fields) = preamble::fields_of(head) {
            if let Ok(updated) = updated_of(file, history) {
                fields_fail_for_themselves(
                    FrontMatterView { updated, ..front_matter::blank() },
                    file,
                    read_all(fields),
                    context,
                    targets,
                );
            }
        }
    }
}

proof fn required_fails_for_itself(
    numbers: Seq<u32>,
    context: &LinkContext,
    targets: Seq<RequiredTarget>,
)
    ensures
        !(required_texts(numbers, context, targets) matches Err(PageFailure::Transform(_))),
    decreases numbers.len(),
{
    if numbers.len() > 0 {
        required_fails_for_itself(numbers.drop_last(), context, targets);
    }
}

proof fn fields_fail_for_themselves(
    page: FrontMatterView,
    file: Seq<char>,
    fields: Seq<ReadView>,
    context: &LinkContext,
    targets: Seq<RequiredTarget>,
)
    ensures
        !(with_fields(page, file, fields, context, targets) matches Err(
            PageFailure::Transform(_),
        )),
    decreases fields.len(),
{
    if fields.len() > 0 {
        fields_fail_for_themselves(page, file, fields.drop_last(), context, targets);
        if let ReadView::Requires(Some(numbers)) = fields.last() {
            required_fails_for_itself(numbers, context, targets);
        }
    }
}

/// A list of required proposals is read item by item, between commas, each the value of its digits; an
/// item that is empty or has anything besides digits, other than a plus sign in front, makes it no list.
pub proof fn required_lists_are_read_by_item(value: Seq<char>, i: int)
    requires
        0 <= i < text::split_on(value, ',').len(),
    ensures
        ({
            let item = text::trimmed(text::split_on(value, ',')[i]);
            &&& numbers_of(value) matches Some(list) ==> list.len() == text::split_on(
                value,
                ',',
            ).len()
            &&& text::all_digits(item) && item.len() > 0 ==> (numbers_of(value) matches Some(list)
                ==> list[i] == text::decimal_value(item))
            &&& item.len() == 0 ==> numbers_of(value) is None
            &&& item.len() > 0 && item[0] != '+' && !text::all_digits(item) ==> numbers_of(
                value,
            ) is None
        }),
{
    let items = text::list_items(value);
    let item = items[i];
    if item.len() > 0 && text::all_digits(item) {
        assert(text::is_digit(item[0]));
    }
}

/// A field is refused only for a value that cannot be read: a date, a number, authors or required
/// proposals that are none. Titles, descriptions, statuses, types, categories and all other fields are
/// taken as they are.
#[verifier::rlimit(60)]
pub proof fn fields_are_refused_only_for_their_value(
    page: FrontMatterView,
    file: Seq<char>,
    field: FieldView,
    context: &LinkContext,
    targets: Seq<RequiredTarget>,
)
    ensures
        ({
            let name = field.name;
            let value = text::trimmed(field.value);
            let out = with_field(page, file, read_as(field), context, targets);
            &&& name != "created"@ && name != "eip"@ && name != "number"@ && name != "author"@
                && name != "requires"@ ==> out is Ok
            &&& name == "created"@ ==> (out is Ok <==> dates::toml_date_of(value) is Some)
            &&& name == "author"@ ==> (out is Ok <==> authors::authors_of(value) is Some)
            &&& name == "eip"@ || name == "number"@ ==> (out is Ok <==> text::u32_literal(
                value,
            ) is Some && alias_name(file) is Ok)
        }),
{
    reveal_strlit("title");
    reveal_strlit("description");
    reveal_strlit("created");
    reveal_strlit("status");
    reveal_strlit("type");
    reveal_strlit("category");
    reveal_strlit("eip");
    reveal_strlit("number");
    reveal_strlit("author");
    assert("title"@[0] == 't' && "description"@[0] == 'd' && "created"@[0] == 'c');
    assert("status"@[0] == 's' && "category"@[0] == 'c' && "type"@[0] == 't');
    assert("number"@[0] == 'n' && "eip"@[0] == 'e' && "author"@[0] == 'a');
    assert("created"@[1] == 'r' && "category"@[1] == 'a');
}

#[verifier::rlimit(60)]
proof fn aliases_stay(
    page: FrontMatterView,
    file: Seq<char>,
    fields: Seq<FieldView>,
    context: &LinkContext,
    targets: Seq<RequiredTarget>,
    name: Seq<char>,
    k: int,
)
    requires
        with_fields(page, file, read_all(fields), context, targets) is Ok,
        0 <= k < fields.len(),
        fields[k].name == "eip"@ || fields[k].name == "number"@,
        alias_name(file) == Ok::<Option<Seq<char>>, PageFailure>(Some(name)),
    ensures
        with_fields(page, file, read_all(fields), context, targets)->Ok_0.aliases.contains(name),
    decreases fields.len(),
{
    let reads = read_all(fields);
    let before = fields.drop_last();
    assert(reads.drop_last() =~= read_all(before));
    assert(reads.last() == read_as(fields.last()));
    let earlier = with_fields(page, file, read_all(before), context, targets)->Ok_0;
    let made = with_fields(page, file, reads, context, targets)->Ok_0;
    if k < fields.len() - 1 {
        assert(before[k] == fields[k]);
        aliases_stay(page, file, before, context, targets, name, k);
        let m = choose|m: int| 0 <= m < earlier.aliases.len() && earlier.aliases[m] == name;
        assert(made.aliases[m] == name);
    } else {
        special_names_differ();
        reveal_strlit("eip");
        reveal_strlit("description");
        reveal_strlit("created");
        reveal_strlit("status");
        reveal_strlit("number");
        reveal_strlit("type");
        reveal_strlit("category");
        assert("eip"@[0] == 'e' && "description"@[0] == 'd' && "created"@[0] == 'c' && "status"@[0]
            == 's' && "number"@[0] == 'n' && "type"@[0] == 't' && "category"@[0] == 'c');
        assert(read_as(fields.last()) is Number);
        assert(made.aliases[earlier.aliases.len() as int] == name);
    }
}

/// A page with a number can be asked for under the name of its file, or of its directory, as well.
pub proof fn numbered_pages_keep_the_name_of_their_file(
    file: Seq<char>,
    contents: Seq<char>,
    context: &LinkContext,
    outcomes: Seq<Canonical>,
    history: History,
    targets: Seq<RequiredTarget>,
    head: Seq<char>,
    body: Seq<char>,
    fields: Seq<FieldView>,
    k: int,
    name: Seq<char>,
)
    requires
        page_of(file, contents, context, outcomes, history, targets) is Ok,
        preamble::divided(contents) == Ok::<(Seq<char>, Seq<char>), SplitFailure>((head, body)),
        preamble::fields_of(head) == Some(fields),
        0 <= k < fields.len(),
        fields[k].name == "eip"@ || fields[k].name == "number"@,
        path::file_name_of(file) == Some(name),
        path::stem_of(name) != "index"@,
    ensures
        page_of(
            file,
            contents,
            context,
            outcomes,
            history,
            targets,
        )->Ok_0.0.aliases.contains(path::stem_of(name)),
{
    proposals_are_known_by_their_file(file, name);
    aliases_stay(
        FrontMatterView { updated: updated_of(file, history)->Ok_0, ..front_matter::blank() },
        file,
        fields,
        context,
        targets,
        path::stem_of(name),
        k,
    );
}

/// A required proposal that a selection's content does not have is refused, and so is one whose Markdown
/// is not found below the content directory where there is no selection.
pub proof fn unknown_required_proposals_are_refused(
    number: u32,
    context: &LinkContext,
    targets: Seq<RequiredTarget>,
)
    ensures
        number == 0 ==> required_text(number, context, targets) is Err,
        context.plan matches Some(plan) ==> (crate::only::lookup(plan.index(), number) is None
            ==> required_text(number, context, targets) is Err),
        context.plan matches Some(plan) ==> (number > 0 && crate::only::lookup(
            plan.index(),
            number,
        ) is Some ==> required_text(number, context, targets) is Ok),
        context.plan is None && (outcome_for(targets, number) matches Some(Canonical::Missing(_)))
            ==> required_text(number, context, targets) is Err,
        context.plan is None && number > 0 && (outcome_for(targets, number) matches Some(
            Canonical::Found(target),
        ) && *context.canonical_root matches Canonical::Found(base) && path::under(target@, base@))
            ==> required_text(number, context, targets) is Ok,
{
}

/// What probing gave for a required proposal is the outcome of the first target with its number; there
/// is one wherever that number was probed for.
pub proof fn outcomes_are_found_by_number(targets: Seq<RequiredTarget>, number: u32, k: int)
    requires
        0 <= k < targets.len(),
        targets[k].number == number,
        forall|j: int| 0 <= j < k ==> (#[trigger] targets[j]).number != number,
    ensures
        outcome_for(targets, number) == Some(targets[k].outcome),
    decreases k,
{
    if k > 0 {
        assert(targets[0].number != number);
        let rest = targets.skip(1);
        assert forall|j: int| 0 <= j < k - 1 implies (#[trigger] rest[j]).number != number by {
            assert(rest[j] == targets[j + 1]);
        }
        outcomes_are_found_by_number(rest, number, k - 1);
    }
}

/// Every proposal that a field of a file requires is asked for.
pub proof fn required_proposals_are_asked_for(
    contents: Seq<char>,
    head: Seq<char>,
    body: Seq<char>,
    fields: Seq<FieldView>,
    k: int,
    list: Seq<u32>,
    i: int,
)
    requires
        preamble::divided(contents) == Ok::<(Seq<char>, Seq<char>), SplitFailure>((head, body)),
        preamble::fields_of(head) == Some(fields),
        0 <= k < fields.len(),
        fields[k].name == "requires"@,
        numbers_of(text::trimmed(fields[k].value)) == Some(list),
        0 <= i < list.len(),
    ensures
        numbers_of_file(contents).contains(list[i]),
{
    reveal_strlit("requires");
    reveal_strlit("title");
    reveal_strlit("description");
    reveal_strlit("created");
    reveal_strlit("status");
    reveal_strlit("type");
    reveal_strlit("category");
    reveal_strlit("eip");
    reveal_strlit("number");
    reveal_strlit("author");
    assert("requires"@[0] == 'r' && "title"@[0] == 't' && "description"@[0] == 'd'
        && "created"@[0] == 'c' && "status"@[0] == 's' && "type"@[0] == 't' && "category"@[0] == 'c'
        && "eip"@[0] == 'e' && "number"@[0] == 'n' && "author"@[0] == 'a');
    assert(read_all(fields)[k] == ReadView::Requires(Some(list)));
    numbers_are_collected(read_all(fields), k, list, i);
}

proof fn numbers_are_collected(fields: Seq<ReadView>, k: int, list: Seq<u32>, i: int)
    requires
        0 <= k < fields.len(),
        fields[k] == ReadView::Requires(Some(list)),
        0 <= i < list.len(),
    ensures
        numbers_required(fields).contains(list[i]),
    decreases fields.len(),
{
    let all = numbers_required(fields);
    let before = numbers_required(fields.drop_last());
    if k == fields.len() - 1 {
        assert(all[before.len() + i] == list[i]);
    } else {
        assert(fields.drop_last()[k] == fields[k]);
        numbers_are_collected(fields.drop_last(), k, list, i);
        let m = choose|m: int| 0 <= m < before.len() && before[m] == list[i];
        assert(all[m] == list[i]);
    }
}

} // verus!
