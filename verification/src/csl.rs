//! Which citations the citation processor takes: the dates and the number that it can print.

use citationberg::json::{Item, Value, VecDateRange};
use hayagriva::types::Numeric;
use vstd::prelude::*;

use crate::text;

verus! {

/// The key of a date that is written as one text.
pub const RAW_KEY: &'static str = "raw";

/// The key of the kind of work that is cited.
pub const TYPE_KEY: &'static str = "type";

/// The key of the number of the cited work.
pub const NUMBER_KEY: &'static str = "number";

/// The key of the date on which a work came out.
pub const ISSUED_KEY: &'static str = "issued";

/// The key of the date on which a work first came out.
pub const ORIGINAL_DATE_KEY: &'static str = "original-date";

/// The key of the date on which a work was looked up.
pub const ACCESSED_KEY: &'static str = "accessed";

/// The key of the date on which a work was handed in.
pub const SUBMITTED_KEY: &'static str = "submitted";

/// The key of the identifier of a digital work.
pub const DOI_KEY: &'static str = "DOI";

/// The key of the address of a work.
pub const ADDRESS_KEY: &'static str = "URL";

/// The key of the state that a work is in.
pub const STATUS_KEY: &'static str = "status";

/// The key of the works that a work refers to.
pub const REFERENCES_KEY: &'static str = "references";

/// The kind of a law.
pub const LEGISLATION: &'static str = "legislation";

/// The kind of a patent.
pub const PATENT: &'static str = "patent";

/// The greatest year of a date that is written as one text.
pub const LAST_YEAR: u32 = 32767;

/// The greatest number that is read for a month or a day.
pub const LAST_PART: u32 = 255;

/// The members of the JSON object that a text holds: their keys, and their values as JSON. None if
/// the text holds no object.
pub uninterp spec fn json_members(text: Seq<char>) -> Seq<(Seq<char>, Seq<char>)>;

/// What a member of a citation holds.
#[derive(Debug, Clone, PartialEq, Eq)]
pub enum CslValue {
    Text(String),
    Number(i64),
    Names,
    /// Dates, each with its year, month and day as far as they are given.
    Dates(Vec<Vec<i16>>),
}

/// What a value of a citation stands for.
pub enum CslView {
    Text(Seq<char>),
    Number(i64),
    Names,
    Dates(Seq<Seq<i16>>),
}

impl View for CslValue {
    type V = CslView;

    open spec fn view(&self) -> CslView {
        match self {
            CslValue::Text(text) => CslView::Text(text@),
            CslValue::Number(number) => CslView::Number(*number),
            CslValue::Names => CslView::Names,
            CslValue::Dates(dates) => CslView::Dates(
                dates@.map_values(|date: Vec<i16>| date@),
            ),
        }
    }
}

/// The members of the citation that a JSON object describes: their keys and values. None if it
/// describes no citation.
pub uninterp spec fn citation_members(object: Seq<char>) -> Option<Seq<(Seq<char>, CslView)>>;

/// Whether the processor takes a text for a number, or for several, with what may stand around it.
pub uninterp spec fn reads_as_number(text: Seq<char>) -> bool;

/// The keys and values as text.
pub open spec fn member_views(members: Seq<(String, String)>) -> Seq<(Seq<char>, Seq<char>)> {
    members.map_values(|member: (String, String)| (member.0@, member.1@))
}

/// The keys as text, with what the values stand for.
pub open spec fn value_views(members: Seq<(String, CslValue)>) -> Seq<(Seq<char>, CslView)> {
    members.map_values(|member: (String, CslValue)| (member.0@, member.1@))
}

/// The value of the member with the given key.
pub open spec fn value_of<V>(members: Seq<(Seq<char>, V)>, key: Seq<char>) -> Option<V>
    decreases members.len(),
{
    if members.len() == 0 {
        None
    } else if members.last().0 == key {
        Some(members.last().1)
    } else {
        value_of(members.drop_last(), key)
    }
}

/// Whether `c` stands at a place of `s`.
pub open spec fn stands_at(s: Seq<char>, at: int, c: char) -> bool {
    0 <= at < s.len() && s[at] == c
}

/// The end of the ASCII digits that stand at a place of `s`.
pub open spec fn digits_end(s: Seq<char>, from: int) -> int
    decreases s.len() - from,
{
    if 0 <= from < s.len() && text::is_digit(s[from]) {
        digits_end(s, from + 1)
    } else {
        from
    }
}

/// The number, up to `most`, that stands at a place of `s`.
pub open spec fn number_at(s: Seq<char>, from: int, most: nat) -> Option<nat> {
    let digits = s.subrange(from, digits_end(s, from));
    if digits.len() > 0 && text::decimal_value(digits) <= most {
        Some(text::decimal_value(digits))
    } else {
        None
    }
}

/// Whether the date at a place of `s`, a year with a month and a day behind hyphens, has zero for
/// its month or its day.
pub open spec fn has_zero_part(s: Seq<char>, from: int) -> bool {
    let month = digits_end(s, from) + 1;
    let day = digits_end(s, month) + 1;
    number_at(s, from, LAST_YEAR as nat) is Some && stands_at(s, month - 1, '-') && (match number_at(
        s,
        month,
        LAST_PART as nat,
    ) {
        Some(m) => m == 0 || (m <= 12 && stands_at(s, day - 1, '-') && number_at(
            s,
            day,
            LAST_PART as nat,
        ) == Some(0nat)),
        None => false,
    })
}

/// The end of the date at a place of `s`: a year, a year with a month up to 12, or one with a day
/// up to 32 as well.
pub open spec fn date_end(s: Seq<char>, from: int) -> Option<int> {
    let month = digits_end(s, from) + 1;
    let day = digits_end(s, month) + 1;
    if number_at(s, from, LAST_YEAR as nat) is None {
        None
    } else if !stands_at(s, month - 1, '-') {
        Some(month - 1)
    } else if !(number_at(s, month, 12) is Some) || number_at(s, month, 12) == Some(0nat) {
        None
    } else if !stands_at(s, day - 1, '-') {
        Some(day - 1)
    } else if !(number_at(s, day, 32) is Some) || number_at(s, day, 32) == Some(0nat) {
        None
    } else {
        Some(digits_end(s, day))
    }
}

/// Whether a JSON text is a date, or two dates with a slash between them, one of which has zero
/// for its month or its day.
pub open spec fn raw_zero(json: Seq<char>) -> bool {
    stands_at(json, 0, '"') && (has_zero_part(json, 1) || match date_end(json, 1) {
        Some(end) => stands_at(json, end, '/') && has_zero_part(json, end + 1),
        None => false,
    })
}

/// Whether the value of a member is a date written as one text with zero for a month or a day.
pub open spec fn is_zero_date(value: Seq<char>) -> bool {
    match value_of(json_members(value), RAW_KEY@) {
        Some(raw) => raw_zero(raw),
        None => false,
    }
}

/// Whether a member of the citation is a date written as one text with zero for a month or a day.
/// There is no such date.
pub open spec fn has_zero_date(object: Seq<char>) -> bool {
    exists|i: int|
        0 <= i < json_members(object).len() && is_zero_date(#[trigger] json_members(object)[i].1)
}

/// Whether the processor can read one date of a member: it has a year, and the month and the day
/// can be counted from zero.
pub open spec fn date_fits(date: Seq<i16>) -> bool {
    &&& date.len() > 0
    &&& date.len() > 1 ==> date[1] != i16::MIN
    &&& date.len() > 2 ==> date[2] != i16::MIN
}

/// Whether the processor can read what a member holds as a date: it does not print a range of two
/// dates, and passes over more than two once it has read the first two.
pub open spec fn dates_fit(value: Option<CslView>) -> bool {
    match value {
        Some(CslView::Dates(dates)) => dates.len() == 0 || (dates.len() != 2 && date_fits(dates[0])
            && (dates.len() > 2 ==> date_fits(dates[1]))),
        _ => true,
    }
}

/// Whether a member holds a date that is printed.
pub open spec fn gives_date(value: Option<CslView>) -> bool {
    match value {
        Some(CslView::Dates(dates)) => dates.len() == 1,
        _ => false,
    }
}

/// Whether a text is all white space.
pub open spec fn blank(text: Seq<char>) -> bool {
    forall|i: int| 0 <= i < text.len() ==> text::is_white_space(#[trigger] text[i])
}

/// Whether a member holds something to print: a number, or a text that is not all white space.
pub open spec fn gives_words(value: Option<CslView>) -> bool {
    match value {
        Some(CslView::Text(text)) => !blank(text),
        Some(CslView::Number(_)) => true,
        _ => false,
    }
}

/// Whether a kind of work is one of those that are handed in to be decided on, and cited with the
/// date on which that was done.
pub open spec fn is_handed_in(kind: Option<CslView>) -> bool {
    match kind {
        Some(CslView::Text(kind)) => {
            ||| kind == "bill"@
            ||| kind == "hearing"@
            ||| kind == LEGISLATION@
            ||| kind == "regulation"@
        },
        _ => false,
    }
}

/// Whether a kind of work is cited without the history of its publication: as a legal source, or as
/// a patent.
pub open spec fn has_no_history(kind: Option<CslView>) -> bool {
    is_handed_in(kind) || match kind {
        Some(CslView::Text(kind)) => {
            ||| kind == "legal_case"@
            ||| kind == "treaty"@
            ||| kind == PATENT@
        },
        _ => false,
    }
}

/// Whether the citation has a date on which the work came out.
pub open spec fn is_dated(members: Seq<(Seq<char>, CslView)>) -> bool {
    gives_date(value_of(members, ISSUED_KEY@))
}

/// Whether the processor reads the date on which the work first came out: beside the date on which
/// it came out, of a work that is handed in, and in the history of a publication that no references
/// stand in the place of.
pub open spec fn reads_original(members: Seq<(Seq<char>, CslView)>) -> bool {
    let kind = value_of(members, TYPE_KEY@);
    ||| is_dated(members)
    ||| is_handed_in(kind)
    ||| !has_no_history(kind) && !gives_words(value_of(members, REFERENCES_KEY@))
}

/// Whether the processor reads the date on which the work was looked up: only of a work with an
/// address and no identifier, that has neither a date on which it came out nor a state.
pub open spec fn reads_accessed(members: Seq<(Seq<char>, CslView)>) -> bool {
    &&& !is_dated(members)
    &&& !gives_words(value_of(members, DOI_KEY@))
    &&& gives_words(value_of(members, ADDRESS_KEY@))
    &&& !gives_words(value_of(members, STATUS_KEY@))
}

/// Whether the processor reads the date on which the work was handed in: only where the work has no
/// date on which it came out.
pub open spec fn reads_submitted(members: Seq<(Seq<char>, CslView)>) -> bool {
    !is_dated(members) && is_handed_in(value_of(members, TYPE_KEY@))
}

/// Whether `c` is white space outside ASCII.
pub open spec fn is_wide_space(c: char) -> bool {
    text::is_white_space(c) && c as u32 > 0x7f
}

/// Whether a text begins with white space outside ASCII, or is a full stop and white space, of which
/// the first is outside ASCII.
pub open spec fn begins_wide(text: Seq<char>) -> bool {
    ||| text.len() > 0 && is_wide_space(text[0])
    ||| text.len() > 1 && text[0] == '.' && is_wide_space(text[1]) && forall|i: int|
        1 <= i < text.len() ==> text::is_white_space(#[trigger] text[i])
}

/// Whether the processor cuts the number of a law inside a character: the number, where it is no
/// number to the processor, is set behind words that end with a space, and white space at its
/// beginning takes the place of that space.
pub open spec fn cuts_number(members: Seq<(Seq<char>, CslView)>) -> bool {
    value_of(members, TYPE_KEY@) == Some(CslView::Text(LEGISLATION@)) && match value_of(
        members,
        NUMBER_KEY@,
    ) {
        Some(CslView::Text(number)) => begins_wide(number) && !reads_as_number(number),
        _ => false,
    }
}

/// Whether the processor can print a citation: every date that it reads is one that it can print,
/// and so is the number.
pub open spec fn is_supported(members: Seq<(Seq<char>, CslView)>) -> bool {
    &&& !cuts_number(members)
    &&& dates_fit(value_of(members, ISSUED_KEY@))
    &&& reads_original(members) ==> dates_fit(value_of(members, ORIGINAL_DATE_KEY@))
    &&& reads_accessed(members) ==> dates_fit(value_of(members, ACCESSED_KEY@))
    &&& reads_submitted(members) ==> dates_fit(value_of(members, SUBMITTED_KEY@))
}

/// `from_str` of the crate `serde_json` into a `Map`, and `Value::to_string`: the members of the
/// object that the text holds, in the order of the map; none where the text is no object.
#[verifier::external_body]
fn members_of(text: &str) -> (out: Vec<(String, String)>)
    ensures
        member_views(out@) == json_members(text@),
{
    let members: serde_json::Map<String, serde_json::Value> = serde_json::from_str(
        text,
    ).unwrap_or_default();
    members.into_iter().map(|(key, value)| (key, value.to_string())).collect()
}

/// `Item` of the crate `citationberg`, read by `from_str` and `from_value` of the crate `serde_json`,
/// and `VecDateRange::from` on its dates: the members of the citation; none where the text is no
/// citation. Reading the item subtracts one from the month and the day of every date that is written
/// as one text, so neither may be zero.
#[verifier::external_body]
pub(crate) fn read_citation(object: &str) -> (out: Option<Vec<(String, CslValue)>>)
    requires
        !has_zero_date(object@),
    ensures
        match out {
            Some(members) => citation_members(object@) == Some(value_views(members@)),
            None => citation_members(object@) is None,
        },
{
    let item: Item = serde_json::from_str(object).and_then(serde_json::from_value).ok()?;
    Some(item.0.into_iter().map(|(key, value)| (key, match value {
        Value::String(text) => CslValue::Text(text),
        Value::Number(number) => CslValue::Number(number),
        Value::Names(_) => CslValue::Names,
        Value::Date(date) => CslValue::Dates(
            VecDateRange::from(date).0.into_iter().map(|date| date.0).collect(),
        ),
    })).collect())
}

/// `Numeric::from_str` of the crate `hayagriva`: whether the text is a number to it.
#[verifier::external_body]
fn is_number(text: &str) -> (yes: bool)
    ensures
        yes == reads_as_number(text@),
{
    text.parse::<Numeric>().is_ok()
}

/// The JSON value of the member with the given key.
fn find_json<'a>(members: &'a Vec<(String, String)>, key: &str) -> (out: Option<&'a str>)
    ensures
        match out {
            Some(value) => value_of(member_views(members@), key@) == Some(value@),
            None => value_of(member_views(members@), key@) is None,
        },
{
    let ghost all = member_views(members@);
    let mut i: usize = members.len();
    assert(all.take(i as int) =~= all);
    while i > 0
        invariant
            i <= members@.len(),
            all == member_views(members@),
            value_of(all, key@) == value_of(all.take(i as int), key@),
        decreases i,
    {
        proof {
            assert(all.take(i as int).last() == (members@[i - 1].0@, members@[i - 1].1@));
            assert(all.take(i as int).drop_last() =~= all.take(i - 1));
        }
        if text::text_eq(members[i - 1].0.as_str(), key) {
            return Some(members[i - 1].1.as_str());
        }
        i -= 1;
    }
    None
}

/// The value of the member with the given key.
pub fn find_value<'a>(members: &'a Vec<(String, CslValue)>, key: &str) -> (out: Option<&'a CslValue>)
    ensures
        match out {
            Some(value) => value_of(value_views(members@), key@) == Some(value@),
            None => value_of(value_views(members@), key@) is None,
        },
{
    let ghost all = value_views(members@);
    let mut i: usize = members.len();
    assert(all.take(i as int) =~= all);
    while i > 0
        invariant
            i <= members@.len(),
            all == value_views(members@),
            value_of(all, key@) == value_of(all.take(i as int), key@),
        decreases i,
    {
        proof {
            assert(all.take(i as int).last() == (members@[i - 1].0@, members@[i - 1].1@));
            assert(all.take(i as int).drop_last() =~= all.take(i - 1));
        }
        if text::text_eq(members[i - 1].0.as_str(), key) {
            return Some(&members[i - 1].1);
        }
        i -= 1;
    }
    None
}

/// Whether `c` stands at a place of `chars`.
fn at(chars: &Vec<char>, place: usize, c: char) -> (yes: bool)
    ensures
        yes == stands_at(chars@, place as int, c),
        yes ==> place < usize::MAX,
{
    place < chars.len() && chars[place] == c
}

/// The number, up to `most`, that stands at a place of `chars`, and the end of its digits.
pub fn read_number(chars: &Vec<char>, from: usize, most: u32) -> (out: (Option<u32>, usize))
    requires
        from <= chars@.len(),
    ensures
        out.1 == digits_end(chars@, from as int),
        from <= out.1 <= chars@.len(),
        match out.0 {
            Some(n) => number_at(chars@, from as int, most as nat) == Some(n as nat),
            None => number_at(chars@, from as int, most as nat) is None,
        },
{
    let mut end: usize = from;
    while end < chars.len() && '0' <= chars[end] && chars[end] <= '9'
        invariant
            from <= end <= chars@.len(),
            digits_end(chars@, from as int) == digits_end(chars@, end as int),
            forall|j: int| from <= j < end ==> text::is_digit(#[trigger] chars@[j]),
        decreases chars.len() - end,
    {
        end += 1;
    }
    let digits = text::substring(chars, from, end);
    assert(text::all_digits(digits@));
    assert(end > from ==> text::is_digit(digits@[0]));
    match text::parse_u32(digits.as_str()) {
        Some(n) => if n <= most {
            (Some(n), end)
        } else {
            (None, end)
        },
        None => (None, end),
    }
}

/// Whether the date at a place of `chars` has zero for its month or its day, and the end of the
/// date.
pub fn read_date(chars: &Vec<char>, from: usize) -> (out: (bool, Option<usize>))
    requires
        from <= chars@.len(),
    ensures
        out.0 == has_zero_part(chars@, from as int),
        match out.1 {
            Some(end) => date_end(chars@, from as int) == Some(end as int) && end <= chars@.len(),
            None => date_end(chars@, from as int) is None,
        },
{
    let (year, year_end) = read_number(chars, from, LAST_YEAR);
    if year.is_none() {
        return (false, None);
    }
    if !at(chars, year_end, '-') {
        return (false, Some(year_end));
    }
    let (month, month_end) = read_number(chars, year_end + 1, LAST_PART);
    match month {
        None => return (false, None),
        Some(month) => {
            if month == 0 || month > 12 {
                return (month == 0, None);
            }
        },
    }
    if !at(chars, month_end, '-') {
        return (false, Some(month_end));
    }
    let (day, day_end) = read_number(chars, month_end + 1, LAST_PART);
    match day {
        None => (false, None),
        Some(day) => if day == 0 || day > 32 {
            (day == 0, None)
        } else {
            (false, Some(day_end))
        },
    }
}

/// Whether a JSON text is a date, or two dates with a slash between them, one of which has zero
/// for its month or its day.
pub fn is_raw_zero(json: &str) -> (yes: bool)
    ensures
        yes == raw_zero(json@),
{
    let chars = text::chars_of(json);
    if !at(&chars, 0, '"') {
        return false;
    }
    let (zero, end) = read_date(&chars, 1);
    if zero {
        return true;
    }
    match end {
        Some(end) => if at(&chars, end, '/') {
            read_date(&chars, end + 1).0
        } else {
            false
        },
        None => false,
    }
}

/// Whether a member of the citation is a date written as one text with zero for a month or a day.
pub fn check_zero_date(object: &str) -> (yes: bool)
    ensures
        yes == has_zero_date(object@),
{
    let members = members_of(object);
    let mut i: usize = 0;
    while i < members.len()
        invariant
            i <= members@.len(),
            member_views(members@) == json_members(object@),
            forall|j: int| 0 <= j < i ==> !is_zero_date(#[trigger] json_members(object@)[j].1),
        decreases members.len() - i,
    {
        assert(json_members(object@)[i as int].1 == members@[i as int].1@);
        let inner = members_of(members[i].1.as_str());
        match find_json(&inner, RAW_KEY) {
            Some(raw) => {
                if is_raw_zero(raw) {
                    return true;
                }
            },
            None => {},
        }
        i += 1;
    }
    assert(json_members(object@).len() == members@.len());
    false
}

/// Whether the processor can read one date of a member.
fn date_readable(date: &Vec<i16>) -> (yes: bool)
    ensures
        yes == date_fits(date@),
{
    date.len() > 0 && (date.len() == 1 || date[1] != i16::MIN) && (date.len() <= 2 || date[2]
        != i16::MIN)
}

/// What a value that may be there stands for.
pub open spec fn optional_view(value: Option<&CslValue>) -> Option<CslView> {
    match value {
        Some(value) => Some(value@),
        None => None,
    }
}

/// Whether the processor can read what a member holds as a date.
pub fn dates_readable(value: Option<&CslValue>) -> (yes: bool)
    ensures
        yes == dates_fit(optional_view(value)),
{
    match value {
        Some(CslValue::Dates(dates)) => dates.len() == 0 || (dates.len() != 2 && date_readable(
            &dates[0],
        ) && (dates.len() == 1 || date_readable(&dates[1]))),
        _ => true,
    }
}

/// Whether a text is all white space.
fn is_blank(text: &str) -> (yes: bool)
    ensures
        yes == blank(text@),
{
    let chars = text::chars_of(text);
    let mut i: usize = 0;
    while i < chars.len()
        invariant
            i <= chars@.len(),
            chars@ == text@,
            forall|j: int| 0 <= j < i ==> text::is_white_space(#[trigger] chars@[j]),
        decreases chars.len() - i,
    {
        if !text::white_space(chars[i]) {
            assert(!text::is_white_space(text@[i as int]));
            return false;
        }
        i += 1;
    }
    true
}

/// Whether a member holds something to print.
pub fn has_words(value: Option<&CslValue>) -> (yes: bool)
    ensures
        yes == gives_words(optional_view(value)),
{
    match value {
        Some(CslValue::Text(text)) => !is_blank(text.as_str()),
        Some(CslValue::Number(_)) => true,
        _ => false,
    }
}

/// Whether `c` is white space outside ASCII.
fn wide_space(c: char) -> (yes: bool)
    ensures
        yes == is_wide_space(c),
{
    text::white_space(c) && c as u32 > 0x7f
}

/// Whether a text begins with white space outside ASCII, or is a full stop and white space, of which
/// the first is outside ASCII.
pub fn starts_wide(text: &str) -> (yes: bool)
    ensures
        yes == begins_wide(text@),
{
    let chars = text::chars_of(text);
    if chars.len() > 0 && wide_space(chars[0]) {
        return true;
    }
    if chars.len() < 2 || chars[0] != '.' || !wide_space(chars[1]) {
        return false;
    }
    let mut i: usize = 2;
    while i < chars.len()
        invariant
            2 <= i <= chars@.len(),
            chars@ == text@,
            text::is_white_space(chars@[1]),
            !is_wide_space(chars@[0]),
            forall|j: int| 1 <= j < i ==> text::is_white_space(#[trigger] chars@[j]),
        decreases chars.len() - i,
    {
        if !text::white_space(chars[i]) {
            assert(!text::is_white_space(text@[i as int]));
            return false;
        }
        i += 1;
    }
    true
}

/// Whether a member holds the given text.
fn holds_text(value: Option<&CslValue>, wanted: &str) -> (yes: bool)
    ensures
        yes == (optional_view(value) == Some(CslView::Text(wanted@))),
{
    match value {
        Some(CslValue::Text(text)) => text::text_eq(text.as_str(), wanted),
        _ => false,
    }
}

/// Whether the processor cuts the number of a law inside a character.
fn number_is_cut(members: &Vec<(String, CslValue)>) -> (yes: bool)
    ensures
        yes == cuts_number(value_views(members@)),
{
    if !holds_text(find_value(members, TYPE_KEY), LEGISLATION) {
        return false;
    }
    match find_value(members, NUMBER_KEY) {
        Some(CslValue::Text(number)) => starts_wide(number.as_str()) && !is_number(
            number.as_str(),
        ),
        _ => false,
    }
}

/// The dates that the processor reads beside the one on which the work came out: the one on which it
/// first came out, the one on which it was looked up, and the one on which it was handed in.
pub fn further_dates(members: &Vec<(String, CslValue)>) -> (out: (bool, bool, bool))
    ensures
        out.0 == reads_original(value_views(members@)),
        out.1 == reads_accessed(value_views(members@)),
        out.2 == reads_submitted(value_views(members@)),
{
    let dated = match find_value(members, ISSUED_KEY) {
        Some(CslValue::Dates(dates)) => dates.len() == 1,
        _ => false,
    };
    if dated {
        return (true, false, false);
    }
    let kind = find_value(members, TYPE_KEY);
    let handed_in = holds_text(kind, "bill") || holds_text(kind, "hearing") || holds_text(
        kind,
        LEGISLATION,
    ) || holds_text(kind, "regulation");
    let no_history = handed_in || holds_text(kind, "legal_case") || holds_text(kind, "treaty")
        || holds_text(kind, PATENT);
    let original = handed_in || (!no_history && !has_words(find_value(members, REFERENCES_KEY)));
    let accessed = !has_words(find_value(members, DOI_KEY)) && has_words(
        find_value(members, ADDRESS_KEY),
    ) && !has_words(find_value(members, STATUS_KEY));
    (original, accessed, handed_in)
}

/// Whether the processor can print the citation with these members.
pub fn check_supported(members: &Vec<(String, CslValue)>) -> (yes: bool)
    ensures
        yes == is_supported(value_views(members@)),
{
    let (original, accessed, submitted) = further_dates(members);
    !number_is_cut(members) && dates_readable(find_value(members, ISSUED_KEY)) && (!original
        || dates_readable(find_value(members, ORIGINAL_DATE_KEY))) && (!accessed || dates_readable(
        find_value(members, ACCESSED_KEY),
    )) && (!submitted || dates_readable(find_value(members, SUBMITTED_KEY)))
}

/// A citation is handed to the processor whatever its dates are where it has none that is read; one
/// whose date of issue is a range, has no year, or counts from a month that one cannot be taken from, is
/// not.
pub proof fn readable_citations_are_supported(members: Seq<(Seq<char>, CslView)>)
    ensures
        (forall|key: Seq<char>|
            !(#[trigger] value_of(members, key) matches Some(CslView::Dates(_)))) && value_of(
            members,
            "type"@,
        ) != Some(CslView::Text("legislation"@)) ==> is_supported(members),
        value_of(members, "issued"@) matches Some(CslView::Dates(dates)) ==> (dates.len() == 2
            || (dates.len() > 0 && dates[0].len() == 0) ==> !is_supported(members)),
{
}

/// Which dates the processor reads beside that of issue: the original date of a dated work, and of an
/// undated one the date of access where it has an address alone.
pub proof fn other_dates_are_read_where_they_are_shown(members: Seq<(Seq<char>, CslView)>)
    ensures
        (value_of(members, "issued"@) matches Some(CslView::Dates(dates)) && dates.len() == 1) ==> {
            &&& reads_original(members)
            &&& !reads_accessed(members)
            &&& !reads_submitted(members)
        },
        value_of(members, "DOI"@) matches Some(CslView::Number(_)) ==> !reads_accessed(members),
        value_of(members, "URL"@) is None ==> !reads_accessed(members),
        value_of(members, "status"@) matches Some(CslView::Number(_)) ==> !reads_accessed(members),
        value_of(members, "issued"@) is None && value_of(members, "DOI"@) is None && value_of(
            members,
            "status"@,
        ) is None && (value_of(members, "URL"@) matches Some(CslView::Number(_)))
            ==> reads_accessed(members),
        value_of(members, "issued"@) is None && value_of(members, "type"@) == Some(
            CslView::Text("bill"@),
        ) ==> reads_submitted(members) && reads_original(members),
{
}

proof fn digits_end_where_they_stop(s: Seq<char>, from: int, to: int)
    requires
        0 <= from <= to <= s.len(),
        forall|i: int| from <= i < to ==> text::is_digit(#[trigger] s[i]),
        to < s.len() ==> !text::is_digit(s[to]),
    ensures
        digits_end(s, from) == to,
    decreases to - from,
{
    if from < to {
        assert(text::is_digit(s[from]));
        digits_end_where_they_stop(s, from + 1, to);
    }
}

/// A date that is written as one text has zero for its month exactly where the digits behind the year
/// and a hyphen have that value.
pub proof fn months_are_read_behind_the_year(
    year: Seq<char>,
    month: Seq<char>,
    rest: Seq<char>,
)
    requires
        year.len() > 0,
        text::all_digits(year),
        text::decimal_value(year) <= 32767,
        month.len() > 0,
        text::all_digits(month),
        text::decimal_value(month) <= 255,
        rest.len() > 0 ==> !text::is_digit(rest[0]) && rest[0] != '-' && rest[0] != '/',
    ensures
        raw_zero(seq!['"'] + year + seq!['-'] + month + rest) <==> text::decimal_value(month) == 0,
{
    let s = seq!['"'] + year + seq!['-'] + month + rest;
    let m = year.len() as int + 2;
    let e = m + month.len();
    assert forall|i: int| 1 <= i < m - 1 implies text::is_digit(#[trigger] s[i]) by {
        assert(s[i] == year[i - 1]);
        assert(text::is_digit(year[i - 1]));
    }
    assert(s[m - 1] == '-');
    digits_end_where_they_stop(s, 1, m - 1);
    assert(s.subrange(1, m - 1) =~= year);
    assert forall|i: int| m <= i < e implies text::is_digit(#[trigger] s[i]) by {
        assert(s[i] == month[i - m]);
        assert(text::is_digit(month[i - m]));
    }
    if e < s.len() {
        assert(s[e] == rest[0]);
    }
    digits_end_where_they_stop(s, m, e);
    assert(s.subrange(m, e) =~= month);
    assert(s[0] == '"');
}

/// The number of a law is cut where it begins with white space outside ASCII and is no number to the
/// processor; other works, and numbers that begin otherwise or are numbers, are not held to that.
pub proof fn only_wide_law_numbers_are_cut(members: Seq<(Seq<char>, CslView)>, number: Seq<char>)
    requires
        value_of(members, "number"@) == Some(CslView::Text(number)),
        number.len() > 0,
    ensures
        value_of(members, "type"@) == Some(CslView::Text("legislation"@)) && text::is_white_space(
            number[0],
        ) && number[0] as u32 > 0x7f && !reads_as_number(number) ==> !is_supported(members),
        value_of(members, "type"@) != Some(CslView::Text("legislation"@)) || reads_as_number(number)
            || (number[0] != '.' && number[0] as u32 <= 0x7f) ==> !cuts_number(members),
{
}

/// A date of issue whose month or day cannot be counted from zero is not printed, and one date with a
/// year and ordinary numbers is.
pub proof fn dates_are_counted_from_zero(members: Seq<(Seq<char>, CslView)>, dates: Seq<Seq<i16>>)
    requires
        value_of(members, "issued"@) == Some(CslView::Dates(dates)),
        dates.len() == 1,
        dates[0].len() > 0,
    ensures
        dates[0].len() > 1 && dates[0][1] == -32768 ==> !is_supported(members),
        dates[0].len() > 2 && dates[0][2] == -32768 ==> !is_supported(members),
        (dates[0].len() > 1 ==> dates[0][1] > -32768) && (dates[0].len() > 2 ==> dates[0][2]
            > -32768) && value_of(members, "original-date"@) is None && value_of(members, "type"@)
            != Some(CslView::Text("legislation"@)) ==> is_supported(members),
{
}

/// A member whose text is all white space counts as none, and one with anything else counts: for the
/// address, the identifier and the state of a work that may show when it was looked up, and for the
/// references that stand in the place of the history of its publication.
pub proof fn blank_members_do_not_count(
    members: Seq<(Seq<char>, CslView)>,
    key: Seq<char>,
    text: Seq<char>,
)
    requires
        value_of(members, key) == Some(CslView::Text(text)),
        !(value_of(members, "issued"@) matches Some(CslView::Dates(_))),
    ensures
        ({
            let filled = exists|i: int|
                0 <= i < text.len() && !text::is_white_space(#[trigger] text[i]);
            let kind = value_of(members, "type"@);
            &&& key == "URL"@ && !filled ==> !reads_accessed(members)
            &&& key == "DOI"@ && filled ==> !reads_accessed(members)
            &&& key == "status"@ && filled ==> !reads_accessed(members)
            &&& key == "URL"@ && filled && value_of(members, "DOI"@) is None && value_of(
                members,
                "status"@,
            ) is None ==> reads_accessed(members)
            &&& key == "references"@ && !filled && kind is None ==> reads_original(members)
            &&& key == "references"@ && filled && kind is None ==> !reads_original(members)
        }),
{
    let filled = exists|i: int| 0 <= i < text.len() && !text::is_white_space(#[trigger] text[i]);
    assert(blank(text) == !filled);
}

/// A legal source shows when it first came out only where it is handed in or dated, and so does a
/// patent; only what is handed in shows when that was done.
pub proof fn kinds_show_their_own_dates(members: Seq<(Seq<char>, CslView)>, kind: Seq<char>)
    requires
        value_of(members, "type"@) == Some(CslView::Text(kind)),
        !(value_of(members, "issued"@) matches Some(CslView::Dates(_))),
    ensures
        kind == "bill"@ || kind == "hearing"@ || kind == "legislation"@ || kind == "regulation"@
            ==> reads_original(members) && reads_submitted(members),
        kind == "legal_case"@ || kind == "treaty"@ || kind == "patent"@ ==> !reads_original(members)
            && !reads_submitted(members),
        kind != "bill"@ && kind != "hearing"@ && kind != "legislation"@ && kind != "regulation"@
            ==> !reads_submitted(members),
{
    reveal_strlit("bill");
    reveal_strlit("hearing");
    reveal_strlit("legislation");
    reveal_strlit("regulation");
    reveal_strlit("legal_case");
    reveal_strlit("treaty");
    reveal_strlit("patent");
    assert("bill"@[0] == 'b' && "hearing"@[0] == 'h' && "legislation"@[2] == 'g'
        && "regulation"@[0] == 'r');
    assert("legal_case"@[0] == 'l' && "legal_case"@[4] == 'l' && "legislation"@[4] == 's');
    assert("legislation"@[0] == 'l' && "treaty"@[0] == 't' && "patent"@[0] == 'p');
}

} // verus!
