//! Proposal numbers, and which content paths belong to a proposal.

use vstd::prelude::*;

use crate::layout::CONTENT_DIR;
use crate::path;
use crate::path_set;
use crate::path_set::PathSet;
use crate::text;

verus! {

/// Positive proposal number used by CLI selectors and `[render].only` config.
#[derive(Debug, Clone, Copy, PartialEq, Eq, PartialOrd, Ord, Hash, Structural)]
pub struct ProposalNumber {
    number: u32,
}

/// Why a selector is no proposal number.
#[derive(Debug, Clone, Copy, PartialEq, Eq, Structural)]
pub enum ProposalNumberParseFailure {
    Empty,
    NonDigit,
    Zero,
    Overflow,
}

/// What an editorial selector may be.
#[derive(Debug, Clone, Copy, PartialEq, Eq, Structural)]
pub enum EditorialNumberSelector {
    Number(ProposalNumber),
    InvalidNumberLike(ProposalNumberParseFailure),
    PathLike,
}

/// Why a configured integer is no proposal number.
#[derive(Debug, Clone, Copy, PartialEq, Eq, Structural)]
pub enum NumberValueFailure {
    /// The integer does not fit in 32 bits without a sign.
    OutOfRange,
    /// The integer is zero.
    Zero,
}

/// The number that a selector gives, or why it gives none.
pub open spec fn selector_number(s: Seq<char>) -> Result<u32, ProposalNumberParseFailure> {
    if s.len() == 0 {
        Err(ProposalNumberParseFailure::Empty)
    } else if !text::all_digits(s) {
        Err(ProposalNumberParseFailure::NonDigit)
    } else if text::decimal_value(s) > u32::MAX {
        Err(ProposalNumberParseFailure::Overflow)
    } else if text::decimal_value(s) == 0 {
        Err(ProposalNumberParseFailure::Zero)
    } else {
        Ok(text::decimal_value(s) as u32)
    }
}

/// Whether a selector is made of digits, signs and commas.
pub open spec fn number_like(s: Seq<char>) -> bool {
    s.len() > 0 && forall|i: int|
        0 <= i < s.len() ==> text::is_digit(#[trigger] s[i]) || s[i] == '+' || s[i] == '-' || s[i]
            == ','
}

/// The message for a selector that `--only` does not take.
pub open spec fn only_selector_message(s: Seq<char>) -> Seq<char> {
    text::glued(
        seq![
            "`"@,
            s,
            "` is not a valid --only selector; expected a positive proposal number"@,
        ],
    )
}

impl ProposalNumber {
    #[verifier::type_invariant]
    spec fn positive(self) -> bool {
        self.number > 0
    }

    /// The number itself.
    pub closed spec fn value(&self) -> u32 {
        self.number
    }

    /// Two proposal numbers with the same value are the same.
    pub proof fn same_value(a: ProposalNumber, b: ProposalNumber)
        requires
            a.value() == b.value(),
        ensures
            a == b,
    {
    }

    /// Reads a selector made of digits alone.
    pub fn parse_selector(selector: &str) -> (out: Result<Self, ProposalNumberParseFailure>)
        ensures
            match out {
                Ok(number) => selector_number(selector@) == Ok::<u32, ProposalNumberParseFailure>(
                    number.value(),
                ),
                Err(failure) => selector_number(selector@) == Err::<
                    u32,
                    ProposalNumberParseFailure,
                >(failure),
            },
    {
        let chars = text::chars_of(selector);
        if chars.len() == 0 {
            return Err(ProposalNumberParseFailure::Empty);
        }
        if !text::digits_only(&chars, 0) {
            assert(selector@.skip(0) =~= selector@);
            return Err(ProposalNumberParseFailure::NonDigit);
        }
        assert(selector@.skip(0) =~= selector@);
        assert(text::is_digit(selector@[0]));
        match text::parse_u32(selector) {
            None => Err(ProposalNumberParseFailure::Overflow),
            Some(number) => match Self::from_u32(number) {
                Ok(number) => Ok(number),
                Err(_) => Err(ProposalNumberParseFailure::Zero),
            },
        }
    }

    /// Reads a `--only` selector.
    pub fn parse_cli_selector(selector: &str) -> (out: Result<Self, String>)
        ensures
            match out {
                Ok(number) => selector_number(selector@) == Ok::<u32, ProposalNumberParseFailure>(
                    number.value(),
                ),
                Err(message) => selector_number(selector@) is Err && message@
                    == only_selector_message(selector@),
            },
    {
        match Self::parse_selector(selector) {
            Ok(number) => Ok(number),
            Err(_) => {
                let parts = vec![
                    "`",
                    selector,
                    "` is not a valid --only selector; expected a positive proposal number",
                ];
                assert(text::str_views(parts@) =~= seq![
                    "`"@,
                    selector@,
                    "` is not a valid --only selector; expected a positive proposal number"@,
                ]);
                Err(text::glue(parts))
            },
        }
    }

    /// The proposal number `number`, unless it is zero.
    pub fn from_u32(number: u32) -> (out: Result<Self, ()>)
        ensures
            match out {
                Ok(made) => number > 0 && made.value() == number,
                Err(_) => number == 0,
            },
    {
        if number == 0 {
            Err(())
        } else {
            Ok(ProposalNumber { number })
        }
    }

    /// The proposal number that a signed integer of a configuration gives.
    pub fn from_i64(value: i64) -> (out: Result<Self, NumberValueFailure>)
        ensures
            match out {
                Ok(made) => 0 < value <= u32::MAX && made.value() == value,
                Err(NumberValueFailure::OutOfRange) => value < 0 || value > u32::MAX,
                Err(NumberValueFailure::Zero) => value == 0,
            },
    {
        if value < 0 || value > 0xffff_ffff {
            return Err(NumberValueFailure::OutOfRange);
        }
        match Self::from_u32(value as u32) {
            Ok(made) => Ok(made),
            Err(_) => Err(NumberValueFailure::Zero),
        }
    }

    /// The proposal number that an unsigned integer of a configuration gives.
    pub fn from_u64(value: u64) -> (out: Result<Self, NumberValueFailure>)
        ensures
            match out {
                Ok(made) => 0 < value <= u32::MAX && made.value() == value,
                Err(NumberValueFailure::OutOfRange) => value > u32::MAX,
                Err(NumberValueFailure::Zero) => value == 0,
            },
    {
        if value > 0xffff_ffff {
            return Err(NumberValueFailure::OutOfRange);
        }
        match Self::from_u32(value as u32) {
            Ok(made) => Ok(made),
            Err(_) => Err(NumberValueFailure::Zero),
        }
    }

    /// The number itself.
    pub fn get(self) -> (out: u32)
        ensures
            out == self.value(),
            out > 0,
    {
        proof {
            use_type_invariant(&self);
        }
        self.number
    }

    /// The number in decimal digits.
    pub fn to_text(&self) -> (out: String)
        ensures
            out@ == text::decimal_digits(self.value() as nat),
    {
        text::decimal(self.number as usize)
    }
}

/// Whether a selector is made of digits, signs and commas.
pub fn is_number_like_selector(selector: &str) -> (yes: bool)
    ensures
        yes == number_like(selector@),
{
    let chars = text::chars_of(selector);
    if chars.len() == 0 {
        return false;
    }
    let mut i: usize = 0;
    while i < chars.len()
        invariant
            chars@ == selector@,
            i <= chars@.len(),
            forall|k: int|
                0 <= k < i ==> text::is_digit(#[trigger] selector@[k]) || selector@[k] == '+'
                    || selector@[k] == '-' || selector@[k] == ',',
        decreases chars.len() - i,
    {
        let c = chars[i];
        if !(('0' <= c && c <= '9') || c == '+' || c == '-' || c == ',') {
            assert(selector@[i as int] == c);
            return false;
        }
        i += 1;
    }
    true
}

/// Whether an editorial selector is a number, an attempt at one, or a path.
pub fn classify_editorial_number_selector(selector: &str) -> (out: EditorialNumberSelector)
    ensures
        match out {
            EditorialNumberSelector::Number(number) => selector_number(selector@) == Ok::<
                u32,
                ProposalNumberParseFailure,
            >(number.value()),
            EditorialNumberSelector::InvalidNumberLike(failure) => number_like(selector@)
                && selector_number(selector@) == Err::<u32, ProposalNumberParseFailure>(failure),
            EditorialNumberSelector::PathLike => !number_like(selector@) && selector_number(
                selector@,
            ) is Err,
        },
{
    match ProposalNumber::parse_selector(selector) {
        Ok(number) => EditorialNumberSelector::Number(number),
        Err(failure) => {
            if is_number_like_selector(selector) {
                EditorialNumberSelector::InvalidNumberLike(failure)
            } else {
                EditorialNumberSelector::PathLike
            }
        },
    }
}

/// The proposal number that a file or directory name spells.
pub open spec fn number_named(name: Seq<char>) -> Option<u32> {
    match selector_number(name) {
        Ok(number) => Some(number),
        Err(_) => None,
    }
}

/// The number of the proposal that a flat Markdown file holds.
pub open spec fn flat_number(s: Seq<char>) -> Option<u32> {
    if path::extension_of(s) == Some("md"@) {
        match path::file_stem_of(s) {
            Some(stem) => number_named(stem),
            None => None,
        }
    } else {
        None
    }
}

/// The number of the proposal whose Markdown stands at `s` inside the content directory.
pub open spec fn markdown_number(s: Seq<char>) -> Option<u32> {
    let parts = path::components_of(s);
    if parts.len() == 1 {
        flat_number(parts[0])
    } else if parts.len() == 2 && parts[1] == "index.md"@ {
        number_named(parts[0])
    } else {
        None
    }
}

/// Whether a repository path is the Markdown of a proposal.
pub open spec fn proposal_path(s: Seq<char>) -> bool {
    match path::stripped(s, CONTENT_DIR@) {
        Some(rel) => markdown_number(rel) is Some,
        None => false,
    }
}

/// Whether an optional proposal number is the wanted one.
pub open spec fn number_is(found: Option<ProposalNumber>, wanted: Option<u32>) -> bool {
    match found {
        Some(number) => wanted == Some(number.value()),
        None => wanted is None,
    }
}

/// The proposal number that a component spells.
pub fn path_component_proposal_number(component: Option<&str>) -> (out: Option<ProposalNumber>)
    ensures
        number_is(
            out,
            match component {
                Some(name) => number_named(name@),
                None => None,
            },
        ),
{
    match component {
        None => None,
        Some(name) => match ProposalNumber::parse_selector(name) {
            Ok(number) => Some(number),
            Err(_) => None,
        },
    }
}

/// The number of the proposal that a flat Markdown file holds.
pub fn flat_proposal_number(file: &str) -> (out: Option<ProposalNumber>)
    ensures
        number_is(out, flat_number(file@)),
{
    if !path::has_extension(file, "md") {
        return None;
    }
    match path::file_stem(file) {
        Some(stem) => path_component_proposal_number(Some(stem.as_str())),
        None => None,
    }
}

/// The number of the proposal whose Markdown stands at a path inside the content directory.
pub fn proposal_number_from_content_markdown_path(content_relative_path: &str) -> (out: Option<
    ProposalNumber,
>)
    ensures
        number_is(out, markdown_number(content_relative_path@)),
{
    let parts = path::components(content_relative_path);
    let ghost wanted = path::components_of(content_relative_path@);
    assert(wanted.len() == parts@.len());
    if parts.len() == 1 {
        assert(wanted[0] == parts@[0]@);
        flat_proposal_number(parts[0].as_str())
    } else if parts.len() == 2 {
        assert(wanted[0] == parts@[0]@ && wanted[1] == parts@[1]@);
        if text::text_eq(parts[1].as_str(), "index.md") {
            path_component_proposal_number(Some(parts[0].as_str()))
        } else {
            None
        }
    } else {
        None
    }
}

/// Whether a repository path is the Markdown of a proposal.
pub fn is_proposal_path(file: &str) -> (yes: bool)
    ensures
        yes == proposal_path(file@),
{
    match path::strip_prefix(file, CONTENT_DIR) {
        Some(rel) => proposal_number_from_content_markdown_path(rel.as_str()).is_some(),
        None => false,
    }
}

/// What kind of thing a directory entry is.
#[derive(Debug, Clone, Copy, PartialEq, Eq, Structural)]
pub enum EntryKind {
    File,
    Directory,
    Other,
}

/// What stands at the `index.md` of a directory entry.
#[derive(Debug, Clone, PartialEq, Eq)]
pub enum IndexProbe {
    /// A regular file.
    File,
    /// Something else, or nothing.
    NoFile,
    /// The probe failed with this message.
    Failed(String),
}

/// An entry of a content directory.
#[derive(Debug, Clone, PartialEq, Eq)]
pub struct ContentEntry {
    pub name: String,
    pub kind: EntryKind,
    pub index: IndexProbe,
}

/// Why a proposal number has no single Markdown path.
#[derive(Debug, Clone, PartialEq, Eq)]
pub enum NumberLookupError {
    /// The `index.md` at `path` could not be examined.
    Unreadable { path: String, cause: String },
    /// No Markdown has the number.
    NotFound(ProposalNumber),
    /// More than one Markdown has the number.
    Ambiguous(ProposalNumber, Vec<String>),
}

/// Whether the entry is a directory that the proposal's number names.
pub open spec fn names_directory(entry: ContentEntry, number: u32) -> bool {
    entry.kind == EntryKind::Directory && number_named(entry.name@) == Some(number)
}

/// The Markdown path, from the repository root, that an entry gives the proposal.
pub open spec fn entry_match(entry: ContentEntry, number: u32) -> Option<Seq<char>> {
    let flat = path::path_joined(CONTENT_DIR@, entry.name@);
    if entry.kind == EntryKind::File && flat_number(entry.name@) == Some(number) {
        Some(flat)
    } else if names_directory(entry, number) && entry.index == IndexProbe::File {
        Some(path::path_joined(flat, "index.md"@))
    } else {
        None
    }
}

/// Whether examining the entry fails the lookup.
pub open spec fn entry_fails(entry: ContentEntry, number: u32) -> bool {
    names_directory(entry, number) && entry.index is Failed
}

/// The Markdown paths that the entries give the proposal, in the order of the entries.
pub open spec fn entry_matches(entries: Seq<ContentEntry>, number: u32) -> Seq<Seq<char>>
    decreases entries.len(),
{
    if entries.len() == 0 {
        Seq::empty()
    } else {
        let before = entry_matches(entries.drop_last(), number);
        match entry_match(entries.last(), number) {
            Some(found) => before.push(found),
            None => before,
        }
    }
}

/// What a failed lookup stands for.
pub enum LookupFailure {
    Unreadable { path: Seq<char>, cause: Seq<char> },
    NotFound(u32),
    Ambiguous(u32, Seq<Seq<char>>),
}

impl View for NumberLookupError {
    type V = LookupFailure;

    open spec fn view(&self) -> LookupFailure {
        match self {
            NumberLookupError::Unreadable { path, cause } => LookupFailure::Unreadable {
                path: path@,
                cause: cause@,
            },
            NumberLookupError::NotFound(number) => LookupFailure::NotFound(number.value()),
            NumberLookupError::Ambiguous(number, paths) => LookupFailure::Ambiguous(
                number.value(),
                text::views(paths@),
            ),
        }
    }
}

/// Why the first entry that fails the lookup does.
pub open spec fn first_unreadable(
    content_root: Seq<char>,
    entries: Seq<ContentEntry>,
    number: u32,
) -> Option<LookupFailure>
    decreases entries.len(),
{
    if entries.len() == 0 {
        None
    } else {
        match first_unreadable(content_root, entries.drop_last(), number) {
            Some(failure) => Some(failure),
            None => if entry_fails(entries.last(), number) {
                Some(
                    LookupFailure::Unreadable {
                        path: path::path_joined(
                            path::path_joined(content_root, entries.last().name@),
                            "index.md"@,
                        ),
                        cause: entries.last().index->Failed_0@,
                    },
                )
            } else {
                None
            },
        }
    }
}

/// What looking up the number in the entries of the content directory gives.
pub open spec fn lookup_of(
    content_root: Seq<char>,
    entries: Seq<ContentEntry>,
    number: u32,
) -> Result<Seq<char>, LookupFailure> {
    let found = path_set::set_of(entry_matches(entries, number));
    match first_unreadable(content_root, entries, number) {
        Some(failure) => Err(failure),
        None => if found.len() == 0 {
            Err(LookupFailure::NotFound(number))
        } else if found.len() == 1 {
            Ok(found[0])
        } else {
            Err(LookupFailure::Ambiguous(number, found))
        },
    }
}

proof fn unreadable_stays(
    content_root: Seq<char>,
    entries: Seq<ContentEntry>,
    number: u32,
    n: int,
)
    requires
        0 <= n <= entries.len(),
        first_unreadable(content_root, entries.take(n), number) is Some,
    ensures
        first_unreadable(content_root, entries, number) == first_unreadable(
            content_root,
            entries.take(n),
            number,
        ),
    decreases entries.len(),
{
    if n == entries.len() {
        assert(entries.take(n) =~= entries);
    } else {
        assert(entries.drop_last().take(n) =~= entries.take(n));
        unreadable_stays(content_root, entries.drop_last(), number, n);
    }
}

/// The Markdown path of a proposal, from the root of the repository whose content directory
/// holds `entries`.
pub fn resolve_proposal_number_markdown_path(
    active_repo_root: &str,
    entries: &Vec<ContentEntry>,
    proposal_number: ProposalNumber,
) -> (out: Result<String, NumberLookupError>)
    ensures
        match out {
            Ok(found) => lookup_of(
                path::path_joined(active_repo_root@, CONTENT_DIR@),
                entries@,
                proposal_number.value(),
            ) == Ok::<Seq<char>, LookupFailure>(found@),
            Err(error) => lookup_of(
                path::path_joined(active_repo_root@, CONTENT_DIR@),
                entries@,
                proposal_number.value(),
            ) == Err::<Seq<char>, LookupFailure>(error@),
        },
{
    let content_root = path::join(active_repo_root, CONTENT_DIR);
    let mut matches = PathSet::new();
    let wanted = proposal_number.get();
    let mut i: usize = 0;
    assert(entries@.take(0) =~= Seq::empty());
    while i < entries.len()
        invariant
            i <= entries@.len(),
            content_root@ == path::path_joined(active_repo_root@, CONTENT_DIR@),
            wanted == proposal_number.value(),
            matches.wf(),
            matches.texts() == path_set::set_of(entry_matches(entries@.take(i as int), wanted)),
            first_unreadable(content_root@, entries@.take(i as int), wanted) is None,
        decreases entries.len() - i,
    {
        let entry = &entries[i];
        let ghost next = entries@.take(i + 1);
        let ghost earlier = entry_matches(entries@.take(i as int), wanted);
        proof {
            assert(next.drop_last() =~= entries@.take(i as int));
            assert(next.last() == *entry);
        }
        match entry.kind {
            EntryKind::File => {
                let found = match flat_proposal_number(entry.name.as_str()) {
                    Some(number) => number.get() == wanted,
                    None => false,
                };
                if found {
                    let path = path::join(CONTENT_DIR, entry.name.as_str());
                    assert(earlier.push(path@).drop_last() =~= earlier);
                    matches.insert(path);
                }
            },
            EntryKind::Directory => {
                let named = match path_component_proposal_number(Some(entry.name.as_str())) {
                    Some(number) => number.get() == wanted,
                    None => false,
                };
                if named {
                    match &entry.index {
                        IndexProbe::File => {
                            let directory = path::join(CONTENT_DIR, entry.name.as_str());
                            let path = path::join(directory.as_str(), "index.md");
                            assert(earlier.push(path@).drop_last() =~= earlier);
                            matches.insert(path);
                        },
                        IndexProbe::NoFile => {},
                        IndexProbe::Failed(cause) => {
                            let directory = path::join(content_root.as_str(), entry.name.as_str());
                            proof {
                                assert(entry_fails(entries@[i as int], wanted));
                                unreadable_stays(content_root@, entries@, wanted, i + 1);
                            }
                            return Err(
                                NumberLookupError::Unreadable {
                                    path: path::join(directory.as_str(), "index.md"),
                                    cause: cause.clone(),
                                },
                            );
                        },
                    }
                }
            },
            EntryKind::Other => {},
        }
        i += 1;
    }
    assert(entries@.take(i as int) =~= entries@);
    if matches.len() == 0 {
        Err(NumberLookupError::NotFound(proposal_number))
    } else if matches.len() == 1 {
        Ok(matches.get(0).to_owned())
    } else {
        Err(NumberLookupError::Ambiguous(proposal_number, matches.to_vec()))
    }
}

/// The paths, each quoted, in a line.
pub open spec fn quoted_list(paths: Seq<Seq<char>>) -> Seq<char> {
    text::joined(
        Seq::new(paths.len(), |i: int| text::glued(seq!["`"@, paths[i], "`"@])),
        ", "@,
    )
}

/// The message for a proposal number without a single Markdown path.
pub open spec fn lookup_message(failure: LookupFailure) -> Seq<char> {
    match failure {
        LookupFailure::Unreadable { path, cause } => text::glued(
            seq!["unable to inspect proposal markdown `"@, path, "`: "@ + cause],
        ),
        LookupFailure::NotFound(number) => text::glued(
            seq![
                "proposal `"@,
                text::decimal_digits(number as nat),
                "` was not found in active repository content"@,
            ],
        ),
        LookupFailure::Ambiguous(number, paths) => text::glued(
            seq![
                "proposal `"@,
                text::decimal_digits(number as nat),
                "` has more than one markdown path in active repository content: "@
                    + quoted_list(paths),
            ],
        ),
    }
}

/// The paths, each quoted, in a line.
fn quote_list(paths: &Vec<String>) -> (out: String)
    ensures
        out@ == quoted_list(text::views(paths@)),
{
    let ghost all = text::views(paths@);
    let mut quoted: Vec<String> = Vec::new();
    let mut i: usize = 0;
    while i < paths.len()
        invariant
            i <= paths@.len(),
            all == text::views(paths@),
            quoted@.len() == i,
            forall|k: int|
                0 <= k < i ==> (#[trigger] quoted@[k])@ == text::glued(seq!["`"@, all[k], "`"@]),
        decreases paths.len() - i,
    {
        quoted.push(text::wrap("`", paths[i].as_str(), "`"));
        i += 1;
    }
    assert(text::views(quoted@) =~= Seq::new(
        all.len(),
        |i: int| text::glued(seq!["`"@, all[i], "`"@]),
    ));
    text::join(&quoted, ", ")
}

impl NumberLookupError {
    /// The message of the error.
    pub fn message(&self) -> (out: String)
        ensures
            out@ == lookup_message(self@),
    {
        match self {
            NumberLookupError::Unreadable { path, cause } => {
                let mut tail = "`: ".to_owned();
                tail.append(cause.as_str());
                text::wrap("unable to inspect proposal markdown `", path.as_str(), tail.as_str())
            },
            NumberLookupError::NotFound(number) => {
                let digits = number.to_text();
                text::wrap(
                    "proposal `",
                    digits.as_str(),
                    "` was not found in active repository content",
                )
            },
            NumberLookupError::Ambiguous(number, paths) => {
                let digits = number.to_text();
                let mut tail = "` has more than one markdown path in active repository content: ".to_owned();
                let list = quote_list(paths);
                tail.append(list.as_str());
                text::wrap("proposal `", digits.as_str(), tail.as_str())
            },
        }
    }
}

/// The digits of a proposal number, with or without leading zeros, name it.
pub proof fn padded_digits_name_their_number(number: u32, width: nat)
    requires
        number > 0,
    ensures
        number_named(text::zero_padded(text::decimal_digits(number as nat), width)) == Some(number),
{
    let digits = text::decimal_digits(number as nat);
    text::decimal_digits_round_trip(number as nat);
    text::zero_padding_keeps_value(digits, width);
}

/// A text without a dot has no last one.
pub proof fn no_dot_in(s: Seq<char>)
    requires
        forall|i: int| 0 <= i < s.len() ==> s[i] != '.',
    ensures
        path::last_index(s, '.') == -1,
    decreases s.len(),
{
    if s.len() > 0 {
        no_dot_in(s.drop_last());
    }
}

/// The dot before an extension is the last one.
pub proof fn dot_behind(s: Seq<char>, tail: Seq<char>)
    requires
        forall|i: int| 0 <= i < tail.len() ==> tail[i] != '.',
    ensures
        path::last_index(s.push('.') + tail, '.') == s.len(),
    decreases tail.len(),
{
    let all = s.push('.') + tail;
    if tail.len() == 0 {
        assert(all =~= s.push('.'));
    } else {
        dot_behind(s, tail.drop_last());
        assert(all.drop_last() =~= s.push('.') + tail.drop_last());
    }
}

proof fn one_component_is_all(s: Seq<char>)
    requires
        path::components_of(s) == seq![s],
    ensures
        path::text_from(s, 0) == s,
{
    path::spans_are_ordered(s);
    assert(path::components_of(s)[0] == s);
    assert(path::components_of(s).len() == path::spans(s).len());
    assert(seq![s].len() == 1);
    assert(path::spans(s).len() == 1);
    assert(path::spans(s)[0].1 - path::spans(s)[0].0 == s.len());
    assert(path::text_from(s, 0) =~= s);
}

/// Digits whose value is positive and fits name a proposal: as a selector, as a Markdown file of that
/// name, and as a directory with an `index.md`; and such a path of the content directory is that of a
/// proposal.
#[verifier::rlimit(60)]
pub proof fn digits_name_proposals(digits: Seq<char>)
    requires
        digits.len() > 0,
        text::all_digits(digits),
        0 < text::decimal_value(digits) <= u32::MAX,
    ensures
        selector_number(digits) == Ok::<u32, ProposalNumberParseFailure>(
            text::decimal_value(digits) as u32,
        ),
        markdown_number(digits + ".md"@) == Some(text::decimal_value(digits) as u32),
        markdown_number(digits + "/index.md"@) == Some(text::decimal_value(digits) as u32),
        proposal_path("content/"@ + digits + ".md"@),
        proposal_path("content/"@ + digits + "/index.md"@),
{
    flat_files_have_their_number(digits);
    directories_have_their_number(digits);
    let base = CONTENT_DIR@;
    let flat = digits + ".md"@;
    let deep = digits + "/index.md"@;
    assert("content/"@ + digits + ".md"@ =~= path::path_joined(base, flat)) by {
        content_is_joined(flat);
    }
    path::joined_path_strips_back(base, flat);
    assert("content/"@ + digits + "/index.md"@ =~= path::path_joined(base, deep)) by {
        content_is_joined(deep);
    }
    path::joined_path_strips_back(base, deep);
}

proof fn content_is_joined(rel: Seq<char>)
    requires
        rel.len() > 0,
        text::is_digit(rel[0]),
    ensures
        path::path_joined(CONTENT_DIR@, rel) == "content/"@ + rel,
{
    reveal_strlit("content");
    reveal_strlit("content/");
    assert(path::path_joined(CONTENT_DIR@, rel) =~= "content/"@ + rel);
}

#[verifier::rlimit(60)]
proof fn flat_files_have_their_number(digits: Seq<char>)
    requires
        digits.len() > 0,
        text::all_digits(digits),
        0 < text::decimal_value(digits) <= u32::MAX,
    ensures
        markdown_number(digits + ".md"@) == Some(text::decimal_value(digits) as u32),
        path::text_from(digits + ".md"@, 0) == digits + ".md"@,
        !path::has_start_component(digits + ".md"@),
        text::is_digit((digits + ".md"@)[0]),
{
    reveal_strlit(".md");
    reveal_strlit("md");
    assert(text::is_digit(digits[0]));
    assert forall|i: int| 0 <= i < digits.len() implies digits[i] != '/' && digits[i] != '.' by {
        assert(text::is_digit(digits[i]));
    }
    let flat = digits + ".md"@;
    assert(flat =~= digits.push('.') + "md"@);
    dot_behind(digits, "md"@);
    path::single_component(flat);
    assert(flat.skip(digits.len() as int + 1) =~= "md"@);
    assert(flat.take(digits.len() as int) =~= digits);
    assert(path::components_of(flat)[0] == flat);
    assert(path::file_name_of(flat) == Some(flat));
    assert(flat_number(flat) == Some(text::decimal_value(digits) as u32));
    one_component_is_all(flat);
}

#[verifier::rlimit(60)]
proof fn directories_have_their_number(digits: Seq<char>)
    requires
        digits.len() > 0,
        text::all_digits(digits),
        0 < text::decimal_value(digits) <= u32::MAX,
    ensures
        markdown_number(digits + "/index.md"@) == Some(text::decimal_value(digits) as u32),
        path::text_from(digits + "/index.md"@, 0) == digits + "/index.md"@,
        !path::has_start_component(digits + "/index.md"@),
        text::is_digit((digits + "/index.md"@)[0]),
{
    reveal_strlit("/index.md");
    reveal_strlit("index.md");
    assert(text::is_digit(digits[0]));
    assert forall|i: int| 0 <= i < digits.len() implies digits[i] != '/' && digits[i] != '.' by {
        assert(text::is_digit(digits[i]));
    }
    let deep = digits + "/index.md"@;
    assert(deep =~= path::path_joined(digits, "index.md"@));
    path::single_component(digits);
    path::single_component("index.md"@);
    path::join_appends_components(digits, "index.md"@);
    let parts = path::components_of(deep);
    assert(parts =~= seq![digits, "index.md"@]);
    assert(parts[0] == digits && parts[1] == "index.md"@);
    path::spans_from_are_ordered(deep, 0);
    let ranges = path::spans(deep);
    assert(ranges == path::spans_from(deep, 0));
    assert(parts[0].len() == ranges[0].1 - ranges[0].0);
    assert(parts[1].len() == ranges[1].1 - ranges[1].0);
    assert(ranges[0].1 < ranges[1].0);
    assert(path::text_from(deep, 0) =~= deep);
}

/// Nothing else names a proposal: a selector that gives a number is made of digits whose value it is,
/// a Markdown path that has a number is such digits with the extension, or a directory of that name
/// with its `index.md`, and a path of a proposal begins with the content directory.
#[verifier::rlimit(60)]
pub proof fn only_digits_name_proposals(s: Seq<char>)
    ensures
        selector_number(s) matches Ok(number) ==> number > 0 && s.len() > 0 && text::all_digits(s)
            && text::decimal_value(s) == number,
        markdown_number(s) matches Some(number) ==> number > 0 && ({
            let parts = path::components_of(s);
            let name = parts[0];
            ||| parts.len() == 1 && name.len() > 3 && text::has_suffix(name, ".md"@)
                && text::all_digits(name.take(name.len() - 3)) && text::decimal_value(
                name.take(name.len() - 3),
            ) == number
            ||| parts.len() == 2 && parts[1] == "index.md"@ && text::all_digits(name)
                && text::decimal_value(name) == number
        }),
        proposal_path(s) ==> path::components_of(s).len() >= 1 && path::components_of(s)[0]
            == "content"@,
{
    reveal_strlit(".md");
    reveal_strlit("md");
    reveal_strlit("content");
    let parts = path::components_of(s);
    if let Some(number) = markdown_number(s) {
        if parts.len() == 1 {
            let name = parts[0];
            let inner = path::components_of(name);
            let file = path::file_name_of(name)->0;
            assert(path::extension_in(file) == Some("md"@));
            let dot = path::last_index(file, '.');
            last_index_holds(file, '.');
            assert(file.skip(dot + 1) == "md"@);
            assert(dot > 0 && file.skip(dot + 1).len() == file.len() - dot - 1);
            assert("md"@.len() == 2);
            assert(file.len() == dot + 3);
            assert(file[dot + 1] == file.skip(dot + 1)[0]);
            assert(file[dot + 2] == file.skip(dot + 1)[1]);
            assert(file.skip(file.len() - 3) =~= ".md"@);
            if path::is_name(name) {
                path::name_is_one_component(s, 0);
            } else {
                special_components_have_no_name(name);
            }
            assert(inner == seq![name]);
            assert(inner.last() == name);
            assert(name.take(name.len() - 3) =~= path::stem_of(name));
        }
    }
    if proposal_path(s) {
        path::single_component("content"@);
        assert(path::components_of("content"@)[0] == "content"@);
        assert(parts.take(1)[0] == parts[0]);
    }
}

proof fn special_components_have_no_name(s: Seq<char>)
    requires
        !path::is_name(s),
    ensures
        path::file_name_of(s) is None,
{
    if s == seq!['.', '.'] {
        assert(s[0] == '.' && s[1] == '.' && s.len() == 2);
        path::piece_is_one_component(s);
        assert(path::components_of(s).last() == s);
    } else {
        assert(s.len() == 1);
        assert(path::has_start_component(s));
        assert(path::spans_from(s, 1) =~= Seq::empty());
        assert(path::spans(s) =~= seq![(0int, 1int)]);
        assert(path::components_of(s)[0] =~= s);
    }
}

proof fn last_index_holds(s: Seq<char>, c: char)
    ensures
        path::last_index(s, c) < s.len(),
        path::last_index(s, c) >= 0 ==> s[path::last_index(s, c)] == c,
    decreases s.len(),
{
    if s.len() > 0 && s.last() != c {
        last_index_holds(s.drop_last(), c);
    }
}

proof fn matches_are_found(entries: Seq<ContentEntry>, number: u32, i: int)
    requires
        0 <= i < entries.len(),
        entry_match(entries[i], number) is Some,
    ensures
        entry_matches(entries, number).contains(entry_match(entries[i], number)->0),
    decreases entries.len(),
{
    let all = entry_matches(entries, number);
    let wanted = entry_match(entries[i], number)->0;
    if i == entries.len() - 1 {
        assert(all[all.len() - 1] == wanted);
    } else {
        matches_are_found(entries.drop_last(), number, i);
        let before = entry_matches(entries.drop_last(), number);
        let k = choose|k: int| 0 <= k < before.len() && before[k] == wanted;
        assert(all[k] == wanted);
    }
}

proof fn matches_come_from_entries(entries: Seq<ContentEntry>, number: u32, k: int) -> (i: int)
    requires
        0 <= k < entry_matches(entries, number).len(),
    ensures
        0 <= i < entries.len(),
        entry_match(entries[i], number) == Some(entry_matches(entries, number)[k]),
    decreases entries.len(),
{
    let before = entry_matches(entries.drop_last(), number);
    if k < before.len() {
        matches_come_from_entries(entries.drop_last(), number, k)
    } else {
        entries.len() - 1
    }
}

proof fn no_entry_fails(content_root: Seq<char>, entries: Seq<ContentEntry>, number: u32)
    requires
        forall|i: int| 0 <= i < entries.len() ==> !((#[trigger] entries[i]).index is Failed),
    ensures
        first_unreadable(content_root, entries, number) is None,
    decreases entries.len(),
{
    if entries.len() > 0 {
        assert forall|i: int| 0 <= i < entries.len() - 1 implies !((
        #[trigger] entries.drop_last()[i]).index is Failed) by {
            assert(entries.drop_last()[i] == entries[i]);
        }
        no_entry_fails(content_root, entries.drop_last(), number);
        assert(!(entries[entries.len() - 1].index is Failed));
    }
}

/// A number is looked up by its value: where a Markdown file whose name is digits of that value
/// stands in the content directory, or a directory of such a name with an `index.md`, and nothing
/// else there has the number, the path of that Markdown is found, however many leading zeros the
/// name has.
#[verifier::rlimit(60)]
pub proof fn lone_proposals_are_found(
    content_root: Seq<char>,
    entries: Seq<ContentEntry>,
    digits: Seq<char>,
    i: int,
)
    requires
        digits.len() > 0,
        text::all_digits(digits),
        0 < text::decimal_value(digits) <= u32::MAX,
        0 <= i < entries.len(),
        (entries[i].kind == EntryKind::File && entries[i].name@ == digits + ".md"@) || (
        entries[i].kind == EntryKind::Directory && entries[i].name@ == digits && entries[i].index
            == IndexProbe::File),
        forall|j: int|
            0 <= j < entries.len() && j != i ==> entry_match(
                #[trigger] entries[j],
                text::decimal_value(digits) as u32,
            ) is None,
        forall|j: int| 0 <= j < entries.len() ==> !((#[trigger] entries[j]).index is Failed),
    ensures
        lookup_of(content_root, entries, text::decimal_value(digits) as u32) == Ok::<
            Seq<char>,
            LookupFailure,
        >(
            if entries[i].kind == EntryKind::File {
                "content/"@ + digits + ".md"@
            } else {
                "content/"@ + digits + "/index.md"@
            },
        ),
{
    let number = text::decimal_value(digits) as u32;
    let found = entry_matches(entries, number);
    let set = path_set::set_of(found);
    let wanted = entry_match(entries[i], number)->0;
    digits_name_proposals(digits);
    reveal_strlit(".md");
    reveal_strlit("content");
    reveal_strlit("content/");
    reveal_strlit("index.md");
    reveal_strlit("/index.md");
    assert(text::is_digit(digits[0]));
    assert forall|k: int| 0 <= k < digits.len() implies digits[k] != '/' by {
        assert(text::is_digit(digits[k]));
    }
    path::single_component(digits + ".md"@);
    assert(path::components_of(digits + ".md"@)[0] == digits + ".md"@);
    path::single_component(digits);
    if entries[i].kind == EntryKind::File {
        assert(flat_number(entries[i].name@) == Some(number));
        assert(wanted =~= "content/"@ + digits + ".md"@);
    } else {
        assert(wanted =~= "content/"@ + digits + "/index.md"@);
    }
    no_entry_fails(content_root, entries, number);
    matches_are_found(entries, number, i);
    let at = choose|k: int| 0 <= k < found.len() && found[k] == wanted;
    assert(path_set::holds_path(found, path::components_of(wanted))) by {
        assert(path::components_of(found[at]) == path::components_of(wanted));
    }
    path_set::added_paths_are_held(Seq::empty(), found, path::components_of(wanted));
    assert(set.len() > 0);
    assert forall|k: int| 0 <= k < set.len() implies #[trigger] set[k] == wanted by {
        path_set::members_come_from_somewhere(Seq::empty(), found, k);
        let m = choose|m: int| 0 <= m < found.len() && found[m] == set[k];
        let source = matches_come_from_entries(entries, number, m);
        assert(entry_match(entries[source], number) is Some);
    }
    path_set::sets_stay_ascending(Seq::empty(), found);
    if set.len() > 1 {
        path_set::ascending_paths_differ(set, 0, 1);
        assert(set[0] == set[1]);
    }
}

/// A path of the repository is that of a proposal by its components alone, however it is written.
#[verifier::rlimit(60)]
pub proof fn proposal_paths_have_their_components(s: Seq<char>, digits: Seq<char>)
    requires
        digits.len() > 0,
        text::all_digits(digits),
        0 < text::decimal_value(digits) <= u32::MAX,
        path::components_of(s) == seq!["content"@, digits + ".md"@] || path::components_of(s)
            == seq!["content"@, digits, "index.md"@],
    ensures
        proposal_path(s),
        markdown_number(path::stripped(s, "content"@)->0) == Some(
            text::decimal_value(digits) as u32,
        ),
{
    let parts = path::components_of(s);
    reveal_strlit("content");
    reveal_strlit(".md");
    path::single_component("content"@);
    path::stripping_drops_components(s, "content"@);
    digits_name_proposals(digits);
    assert(text::is_digit(digits[0]));
    assert forall|k: int| 0 <= k < digits.len() implies digits[k] != '/' by {
        assert(text::is_digit(digits[k]));
    }
    let flat = digits + ".md"@;
    path::single_component(flat);
    assert(path::components_of(flat)[0] == flat);
    assert(parts[0] == "content"@);
    assert(parts.take(1) =~= seq!["content"@]);
    assert(path::components_of("content"@) =~= parts.take(1));
    let rel = path::stripped(s, "content"@)->0;
    let inner = path::components_of(rel);
    assert(inner =~= parts.skip(1)) by {
        assert(parts =~= path::components_of("content"@) + inner);
    }
    if parts.len() == 2 {
        assert(inner[0] == flat);
    } else {
        assert(inner[0] == digits && inner[1] == "index.md"@);
    }
}

/// A number that no entry of the content directory has is not found, and one that two different
/// entries have is ambiguous.
#[verifier::rlimit(60)]
pub proof fn numbers_are_looked_up_strictly(
    content_root: Seq<char>,
    entries: Seq<ContentEntry>,
    number: u32,
    i: int,
    j: int,
)
    requires
        forall|k: int| 0 <= k < entries.len() ==> !((#[trigger] entries[k]).index is Failed),
    ensures
        (forall|k: int| 0 <= k < entries.len() ==> entry_match(#[trigger] entries[k], number) is None)
            ==> lookup_of(content_root, entries, number) == Err::<Seq<char>, LookupFailure>(
            LookupFailure::NotFound(number),
        ),
        0 <= i < entries.len() && 0 <= j < entries.len() && entry_match(
            entries[i],
            number,
        ) is Some && entry_match(entries[j], number) is Some && !path::same_path(
            entry_match(entries[i], number)->0,
            entry_match(entries[j], number)->0,
        ) ==> (lookup_of(content_root, entries, number) matches Err(
            LookupFailure::Ambiguous(wanted, _),
        ) && wanted == number),
{
    let found = entry_matches(entries, number);
    let set = path_set::set_of(found);
    no_entry_fails(content_root, entries, number);
    if forall|k: int| 0 <= k < entries.len() ==> entry_match(#[trigger] entries[k], number) is None {
        if found.len() > 0 {
            let k = matches_come_from_entries(entries, number, 0);
            assert(entry_match(entries[k], number) is None);
        }
        assert(found =~= Seq::empty());
        assert(set.len() == 0);
    }
    if 0 <= i < entries.len() && 0 <= j < entries.len() && entry_match(entries[i], number) is Some
        && entry_match(entries[j], number) is Some && !path::same_path(
        entry_match(entries[i], number)->0,
        entry_match(entries[j], number)->0,
    ) {
        let a = entry_match(entries[i], number)->0;
        let b = entry_match(entries[j], number)->0;
        matches_are_found(entries, number, i);
        matches_are_found(entries, number, j);
        let p = choose|p: int| 0 <= p < found.len() && found[p] == a;
        let q = choose|q: int| 0 <= q < found.len() && found[q] == b;
        assert(path::components_of(found[p]) == path::components_of(a));
        assert(path::components_of(found[q]) == path::components_of(b));
        assert(path_set::holds_path(found, path::components_of(a)));
        assert(path_set::holds_path(found, path::components_of(b)));
        path_set::added_paths_are_held(Seq::empty(), found, path::components_of(a));
        path_set::added_paths_are_held(Seq::empty(), found, path::components_of(b));
        let x = choose|x: int|
            0 <= x < set.len() && path::components_of(#[trigger] set[x]) == path::components_of(a);
        let y = choose|y: int|
            0 <= y < set.len() && path::components_of(#[trigger] set[y]) == path::components_of(b);
        assert(x != y);
    }
}

/// A directory with the number whose `index.md` cannot be looked at fails the lookup; what cannot be
/// looked at under another name does not.
pub proof fn unreadable_proposals_fail_the_lookup(
    content_root: Seq<char>,
    entries: Seq<ContentEntry>,
    digits: Seq<char>,
    i: int,
)
    requires
        digits.len() > 0,
        text::all_digits(digits),
        0 < text::decimal_value(digits) <= u32::MAX,
        0 <= i < entries.len(),
        entries[i].kind == EntryKind::Directory,
        entries[i].name@ == digits,
        entries[i].index is Failed,
    ensures
        lookup_of(content_root, entries, text::decimal_value(digits) as u32) matches Err(
            LookupFailure::Unreadable { .. },
        ),
{
    digits_name_proposals(digits);
    unreadable_entries_are_seen(content_root, entries, text::decimal_value(digits) as u32, i);
}

proof fn unreadable_entries_are_seen(
    content_root: Seq<char>,
    entries: Seq<ContentEntry>,
    number: u32,
    i: int,
)
    requires
        0 <= i < entries.len(),
        entry_fails(entries[i], number),
    ensures
        first_unreadable(content_root, entries, number) matches Some(
            LookupFailure::Unreadable { .. },
        ),
    decreases entries.len(),
{
    if i < entries.len() - 1 {
        assert(entries.drop_last()[i] == entries[i]);
        unreadable_entries_are_seen(content_root, entries.drop_last(), number, i);
    } else if entries.len() > 1 {
        failures_are_unreadable(content_root, entries.drop_last(), number);
    }
}

proof fn failures_are_unreadable(
    content_root: Seq<char>,
    entries: Seq<ContentEntry>,
    number: u32,
)
    ensures
        first_unreadable(content_root, entries, number) matches Some(failure)
            ==> failure is Unreadable,
    decreases entries.len(),
{
    if entries.len() > 0 {
        failures_are_unreadable(content_root, entries.drop_last(), number);
    }
}

} // verus!
