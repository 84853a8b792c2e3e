//! Text as sequences of characters: splitting, joining, trimming and decimal numbers.

use vstd::prelude::*;

verus! {

/// `String::push` of std appends one character.
pub assume_specification[ String::push ](s: &mut String, c: char)
    ensures
        final(s)@ == old(s)@.push(c),
;

/// The texts that a list of strings holds.
pub open spec fn views(list: Seq<String>) -> Seq<Seq<char>> {
    Seq::new(list.len(), |i: int| list[i]@)
}

/// The text of an optional string.
pub open spec fn optional(text: Option<String>) -> Option<Seq<char>> {
    match text {
        Some(text) => Some(text@),
        None => None,
    }
}

/// The texts that a list of string slices holds.
pub open spec fn str_views(list: Seq<&str>) -> Seq<Seq<char>> {
    Seq::new(list.len(), |i: int| list[i]@)
}

/// The parts, one behind the other.
pub open spec fn glued(parts: Seq<Seq<char>>) -> Seq<char>
    decreases parts.len(),
{
    if parts.len() == 0 {
        Seq::empty()
    } else {
        glued(parts.drop_last()) + parts.last()
    }
}

/// Whether `s` begins with `prefix`.
pub open spec fn has_prefix(s: Seq<char>, prefix: Seq<char>) -> bool {
    prefix.len() <= s.len() && s.take(prefix.len() as int) == prefix
}

/// What follows `prefix` in `s`, if `s` begins with it.
pub open spec fn after_prefix(s: Seq<char>, prefix: Seq<char>) -> Option<Seq<char>> {
    if has_prefix(s, prefix) {
        Some(s.skip(prefix.len() as int))
    } else {
        None
    }
}

/// Whether `s` ends with `suffix`.
pub open spec fn has_suffix(s: Seq<char>, suffix: Seq<char>) -> bool {
    suffix.len() <= s.len() && s.skip(s.len() - suffix.len()) == suffix
}

/// Whether `needle` occurs in `s` at position `i`.
pub open spec fn occurs_at(s: Seq<char>, needle: Seq<char>, i: int) -> bool {
    0 <= i && i + needle.len() <= s.len() && s.subrange(i, i + needle.len()) == needle
}

/// Whether `needle` occurs somewhere in `s`.
pub open spec fn occurs_in(s: Seq<char>, needle: Seq<char>) -> bool {
    exists|i: int| #[trigger] occurs_at(s, needle, i)
}

/// The position of the first `c` in `s`, or the length of `s` where there is none.
pub open spec fn first_index(s: Seq<char>, c: char) -> int
    decreases s.len(),
{
    if s.len() == 0 || s[0] == c {
        0
    } else {
        1 + first_index(s.skip(1), c)
    }
}

/// The pieces of `s` between the occurrences of `c`.
pub open spec fn split_on(s: Seq<char>, c: char) -> Seq<Seq<char>>
    decreases s.len(),
{
    let k = first_index(s, c);
    if 0 <= k < s.len() {
        seq![s.take(k)] + split_on(s.skip(k + 1), c)
    } else {
        seq![s]
    }
}

/// The texts of `parts` in order, with `sep` between two neighbours.
pub open spec fn joined(parts: Seq<Seq<char>>, sep: Seq<char>) -> Seq<char>
    decreases parts.len(),
{
    if parts.len() == 0 {
        Seq::empty()
    } else if parts.len() == 1 {
        parts[0]
    } else {
        joined(parts.drop_last(), sep) + sep + parts.last()
    }
}

/// The characters with the Unicode property `White_Space`.
pub open spec fn is_white_space(c: char) -> bool {
    let n = c as u32;
    ||| 0x9 <= n <= 0xd
    ||| n == 0x20
    ||| n == 0x85
    ||| n == 0xa0
    ||| n == 0x1680
    ||| 0x2000 <= n <= 0x200a
    ||| n == 0x2028
    ||| n == 0x2029
    ||| n == 0x202f
    ||| n == 0x205f
    ||| n == 0x3000
}

/// `s` without its leading white space.
pub open spec fn trimmed_start(s: Seq<char>) -> Seq<char>
    decreases s.len(),
{
    if s.len() > 0 && is_white_space(s[0]) {
        trimmed_start(s.skip(1))
    } else {
        s
    }
}

/// `s` without its trailing white space.
pub open spec fn trimmed_end(s: Seq<char>) -> Seq<char>
    decreases s.len(),
{
    if s.len() > 0 && is_white_space(s.last()) {
        trimmed_end(s.drop_last())
    } else {
        s
    }
}

/// `s` without the `c` at its start.
pub open spec fn without_leading(s: Seq<char>, c: char) -> Seq<char>
    decreases s.len(),
{
    if s.len() > 0 && s[0] == c {
        without_leading(s.skip(1), c)
    } else {
        s
    }
}

/// `s` without leading and trailing white space.
pub open spec fn trimmed(s: Seq<char>) -> Seq<char> {
    trimmed_end(trimmed_start(s))
}

/// A line without the carriage return that may end it.
pub open spec fn without_carriage_return(s: Seq<char>) -> Seq<char> {
    if s.len() > 0 && s.last() == '\r' {
        s.drop_last()
    } else {
        s
    }
}

/// The pieces between line feeds; a last piece that is empty is no line.
pub open spec fn line_pieces(s: Seq<char>) -> Seq<Seq<char>> {
    let pieces = split_on(s, '\n');
    if pieces.last().len() == 0 {
        pieces.drop_last()
    } else {
        pieces
    }
}

/// The lines of `s`: the last line needs no line feed, and a carriage return in front of a line
/// feed belongs to the line's end.
pub open spec fn lines_of(s: Seq<char>) -> Seq<Seq<char>> {
    let pieces = line_pieces(s);
    let total = split_on(s, '\n').len();
    Seq::new(
        pieces.len(),
        |i: int| if i + 1 < total { without_carriage_return(pieces[i]) } else { pieces[i] },
    )
}

/// Whether `c` is an ASCII digit.
pub open spec fn is_digit(c: char) -> bool {
    '0' <= c <= '9'
}

/// Whether `c` is an ASCII letter or digit.
pub open spec fn is_alphanumeric(c: char) -> bool {
    is_digit(c) || 'a' <= c <= 'z' || 'A' <= c <= 'Z'
}

/// Whether every character of `s` is an ASCII digit.
pub open spec fn all_digits(s: Seq<char>) -> bool {
    forall|i: int| 0 <= i < s.len() ==> is_digit(#[trigger] s[i])
}

/// The number that the decimal digits `s` write.
pub open spec fn decimal_value(s: Seq<char>) -> nat
    decreases s.len(),
{
    if s.len() == 0 {
        0
    } else {
        decimal_value(s.drop_last()) * 10 + ((s.last() as u32) - ('0' as u32)) as nat
    }
}

/// The digit character of `d`.
pub open spec fn digit_char(d: nat) -> char {
    (('0' as u32) + d) as char
}

/// The decimal digits of `n`, without leading zeros.
pub open spec fn decimal_digits(n: nat) -> Seq<char>
    decreases n,
{
    if n < 10 {
        seq![digit_char(n)]
    } else {
        decimal_digits(n / 10).push(digit_char(n % 10))
    }
}

/// `digits` behind as many zeros as it takes to make `width` characters.
pub open spec fn zero_padded(digits: Seq<char>, width: nat) -> Seq<char> {
    if digits.len() >= width {
        digits
    } else {
        Seq::new((width - digits.len()) as nat, |i: int| '0') + digits
    }
}

/// What a decimal `u32` literal writes: an optional plus sign and digits whose value fits.
pub open spec fn u32_literal(s: Seq<char>) -> Option<u32> {
    let digits = if s.len() > 0 && s[0] == '+' {
        s.skip(1)
    } else {
        s
    };
    if digits.len() > 0 && all_digits(digits) && decimal_value(digits) <= u32::MAX {
        Some(decimal_value(digits) as u32)
    } else {
        None
    }
}

/// The items of a comma-separated list, without the white space around them.
pub open spec fn list_items(s: Seq<char>) -> Seq<Seq<char>> {
    let pieces = split_on(s, ',');
    Seq::new(pieces.len(), |i: int| trimmed(pieces[i]))
}

/// The number that `s` writes as a decimal `i64` literal.
pub open spec fn i64_literal(s: Seq<char>) -> Option<i64> {
    let signed = s.len() > 0 && (s[0] == '+' || s[0] == '-');
    let digits = if signed {
        s.skip(1)
    } else {
        s
    };
    let value = if signed && s[0] == '-' {
        -(decimal_value(digits) as int)
    } else {
        decimal_value(digits) as int
    };
    if digits.len() > 0 && all_digits(digits) && i64::MIN <= value <= i64::MAX {
        Some(value as i64)
    } else {
        None
    }
}

/// `s` with every `from` written as `to`.
pub open spec fn with_replaced(s: Seq<char>, from: char, to: char) -> Seq<char> {
    Seq::new(s.len(), |i: int| if s[i] == from { to } else { s[i] })
}

/// The first occurrence lies within the text, and nothing in front of it is `c`.
pub proof fn first_index_is_first(s: Seq<char>, c: char)
    ensures
        0 <= first_index(s, c) <= s.len(),
        first_index(s, c) < s.len() ==> s[first_index(s, c)] == c,
        forall|i: int| 0 <= i < first_index(s, c) ==> s[i] != c,
    decreases s.len(),
{
    if s.len() > 0 && s[0] != c {
        first_index_is_first(s.skip(1), c);
        assert forall|i: int| 0 <= i < first_index(s, c) implies s[i] != c by {
            if i > 0 {
                assert(s[i] == s.skip(1)[i - 1]);
            }
        }
    }
}

/// What makes a position the first occurrence.
pub proof fn first_index_unique(s: Seq<char>, c: char, k: int)
    requires
        0 <= k <= s.len(),
        k < s.len() ==> s[k] == c,
        forall|i: int| 0 <= i < k ==> s[i] != c,
    ensures
        first_index(s, c) == k,
{
    first_index_is_first(s, c);
    let f = first_index(s, c);
    if f < k {
        assert(s[f] != c);
    } else if k < f {
        assert(s[k] != c);
    }
}

/// Every text splits into at least one piece.
pub proof fn split_on_nonempty(s: Seq<char>, c: char)
    ensures
        split_on(s, c).len() >= 1,
{
    reveal_with_fuel(split_on, 2);
}

/// The characters of `text`.
pub fn chars_of(text: &str) -> (out: Vec<char>)
    ensures
        out@ == text@,
{
    let mut out: Vec<char> = Vec::new();
    for c in it: text.chars()
        invariant
            out@ == it.seq().take(it.index()),
            it.seq() == text@,
    {
        out.push(c);
    }
    out
}

/// The characters of `chars` from `from` up to `to` as a string.
pub fn substring(chars: &Vec<char>, from: usize, to: usize) -> (out: String)
    requires
        from <= to <= chars@.len(),
    ensures
        out@ == chars@.subrange(from as int, to as int),
{
    let mut out = String::new();
    let mut i: usize = from;
    while i < to
        invariant
            from <= i <= to <= chars@.len(),
            out@ == chars@.subrange(from as int, i as int),
        decreases to - i,
    {
        out.push(chars[i]);
        i += 1;
    }
    out
}

/// The parts, one behind the other.
pub fn glue(parts: Vec<&str>) -> (out: String)
    ensures
        out@ == glued(str_views(parts@)),
{
    let mut out = String::new();
    let mut i: usize = 0;
    assert(str_views(parts@).take(0) =~= Seq::empty());
    while i < parts.len()
        invariant
            i <= parts@.len(),
            out@ == glued(str_views(parts@).take(i as int)),
        decreases parts.len() - i,
    {
        let ghost all = str_views(parts@);
        assert(all.take(i + 1).drop_last() =~= all.take(i as int));
        assert(all.take(i + 1).last() == parts@[i as int]@);
        out.append(parts[i]);
        i += 1;
    }
    assert(str_views(parts@).take(i as int) =~= str_views(parts@));
    out
}

/// `middle` between `before` and `after`.
pub fn wrap(before: &str, middle: &str, after: &str) -> (out: String)
    ensures
        out@ == glued(seq![before@, middle@, after@]),
{
    let parts = vec![before, middle, after];
    assert(str_views(parts@) =~= seq![before@, middle@, after@]);
    glue(parts)
}

/// Whether the two texts are the same.
pub fn text_eq(a: &str, b: &str) -> (same: bool)
    ensures
        same == (a@ == b@),
{
    a.to_owned() == b.to_owned()
}

/// Whether the characters at `at` spell `needle`.
pub fn matches_at(chars: &Vec<char>, needle: &Vec<char>, at: usize) -> (found: bool)
    requires
        at <= chars@.len(),
    ensures
        found == occurs_at(chars@, needle@, at as int),
{
    let total: usize = chars.len();
    if needle.len() > total - at {
        return false;
    }
    let mut i: usize = 0;
    while i < needle.len()
        invariant
            total == chars@.len(),
            at <= chars@.len(),
            i <= needle@.len() <= chars@.len() - at,
            forall|j: int| 0 <= j < i ==> chars@[at + j] == needle@[j],
        decreases needle.len() - i,
    {
        if chars[at + i] != needle[i] {
            proof {
                assert(chars@.subrange(at as int, at + needle@.len())[i as int] != needle@[i as int]);
            }
            return false;
        }
        i += 1;
    }
    assert(chars@.subrange(at as int, at + needle@.len()) =~= needle@);
    true
}

/// Whether `text` begins with `prefix`.
pub fn starts_with(text: &str, prefix: &str) -> (found: bool)
    ensures
        found == has_prefix(text@, prefix@),
{
    let chars = chars_of(text);
    let needle = chars_of(prefix);
    assert(prefix@.len() <= text@.len() ==> text@.subrange(0, prefix@.len() as int) =~= text@.take(
        prefix@.len() as int,
    ));
    matches_at(&chars, &needle, 0)
}

/// `text` without the `c` at its start.
pub fn trim_leading(text: &str, c: char) -> (out: String)
    ensures
        out@ == without_leading(text@, c),
{
    let chars = chars_of(text);
    let mut start: usize = 0;
    assert(text@.skip(0) =~= text@);
    while start < chars.len() && chars[start] == c
        invariant
            start <= chars@.len(),
            chars@ == text@,
            without_leading(text@.skip(start as int), c) == without_leading(text@, c),
        decreases chars.len() - start,
    {
        assert(text@.skip(start as int).skip(1) =~= text@.skip(start + 1));
        start += 1;
    }
    assert(text@.subrange(start as int, text@.len() as int) =~= text@.skip(start as int));
    substring(&chars, start, chars.len())
}

/// What follows `prefix` in `text`, if `text` begins with it.
pub fn strip_prefix(text: &str, prefix: &str) -> (out: Option<String>)
    ensures
        optional(out) == after_prefix(text@, prefix@),
{
    if starts_with(text, prefix) {
        let chars = chars_of(text);
        let needle = chars_of(prefix);
        assert(text@.subrange(prefix@.len() as int, text@.len() as int) =~= text@.skip(
            prefix@.len() as int,
        ));
        Some(substring(&chars, needle.len(), chars.len()))
    } else {
        None
    }
}

/// Whether `text` ends with `suffix`.
pub fn ends_with(text: &str, suffix: &str) -> (found: bool)
    ensures
        found == has_suffix(text@, suffix@),
{
    let chars = chars_of(text);
    let needle = chars_of(suffix);
    if needle.len() > chars.len() {
        return false;
    }
    let at: usize = chars.len() - needle.len();
    assert(text@.subrange(at as int, at + suffix@.len()) =~= text@.skip(at as int));
    matches_at(&chars, &needle, at)
}

/// Whether `needle` occurs in `text`.
pub fn contains(text: &str, needle: &str) -> (found: bool)
    ensures
        found == occurs_in(text@, needle@),
{
    let chars = chars_of(text);
    let wanted = chars_of(needle);
    let mut at: usize = 0;
    while at < chars.len()
        invariant
            chars@ == text@,
            wanted@ == needle@,
            at <= chars@.len(),
            forall|i: int| 0 <= i < at ==> !occurs_at(text@, needle@, i),
        decreases chars.len() - at,
    {
        if matches_at(&chars, &wanted, at) {
            return true;
        }
        at += 1;
    }
    matches_at(&chars, &wanted, at)
}

/// The position of the first `c` at or behind `from`, or the length where there is none.
pub fn find_char(chars: &Vec<char>, from: usize, c: char) -> (at: usize)
    requires
        from <= chars@.len(),
    ensures
        from <= at <= chars@.len(),
        at == from + first_index(chars@.skip(from as int), c),
        at < chars@.len() ==> chars@[at as int] == c,
        forall|i: int| from <= i < at ==> chars@[i] != c,
{
    let mut at: usize = from;
    while at < chars.len() && chars[at] != c
        invariant
            from <= at <= chars@.len(),
            forall|i: int| from <= i < at ==> chars@[i] != c,
        decreases chars.len() - at,
    {
        at += 1;
    }
    proof {
        let rest = chars@.skip(from as int);
        assert forall|i: int| 0 <= i < at - from implies rest[i] != c by {
            assert(rest[i] == chars@[from + i]);
        }
        first_index_unique(rest, c, at - from);
    }
    at
}

/// The pieces of `text` between the occurrences of `sep`.
pub fn split(text: &str, sep: char) -> (parts: Vec<String>)
    ensures
        views(parts@) == split_on(text@, sep),
{
    let chars = chars_of(text);
    let mut parts: Vec<String> = Vec::new();
    let mut start: usize = 0;
    assert(text@.skip(0) =~= text@);
    assert(views(parts@) + split_on(text@, sep) =~= split_on(text@, sep));
    loop
        invariant
            chars@ == text@,
            start <= chars@.len(),
            views(parts@) + split_on(text@.skip(start as int), sep) == split_on(text@, sep),
        decreases chars.len() + 1 - start,
    {
        let end = find_char(&chars, start, sep);
        let piece = substring(&chars, start, end);
        let ghost rest = text@.skip(start as int);
        let ghost before = views(parts@);
        parts.push(piece);
        proof {
            assert(views(parts@) =~= before.push(text@.subrange(start as int, end as int)));
            assert(rest.take(end - start) =~= text@.subrange(start as int, end as int));
        }
        if end == chars.len() {
            proof {
                assert(rest =~= text@.subrange(start as int, end as int));
                assert(views(parts@) =~= before + seq![rest]);
            }
            return parts;
        }
        proof {
            assert(rest.skip(end - start + 1) =~= text@.skip(end + 1));
            assert(views(parts@) + split_on(text@.skip(end + 1), sep) =~= before + (seq![rest.take(
                end - start,
            )] + split_on(rest.skip(end - start + 1), sep)));
        }
        start = end + 1;
    }
}

/// The texts of `parts` in order, with `sep` between two neighbours.
pub fn join(parts: &Vec<String>, sep: &str) -> (text: String)
    ensures
        text@ == joined(views(parts@), sep@),
{
    let mut text = String::new();
    let mut i: usize = 0;
    while i < parts.len()
        invariant
            i <= parts@.len(),
            text@ == joined(views(parts@).take(i as int), sep@),
        decreases parts.len() - i,
    {
        if i > 0 {
            text.append(sep);
        }
        text.append(parts[i].as_str());
        proof {
            let whole = views(parts@).take(i + 1);
            assert(whole.drop_last() =~= views(parts@).take(i as int));
            if i == 0 {
                assert(text@ =~= whole[0]);
            }
        }
        i += 1;
    }
    assert(views(parts@).take(parts@.len() as int) =~= views(parts@));
    text
}

/// Whether `c` is white space.
pub fn white_space(c: char) -> (yes: bool)
    ensures
        yes == is_white_space(c),
{
    let n = c as u32;
    (0x9 <= n && n <= 0xd) || n == 0x20 || n == 0x85 || n == 0xa0 || n == 0x1680 || (0x2000 <= n
        && n <= 0x200a) || n == 0x2028 || n == 0x2029 || n == 0x202f || n == 0x205f || n == 0x3000
}

/// `text` without leading and trailing white space.
pub fn trim(text: &str) -> (out: String)
    ensures
        out@ == trimmed(text@),
{
    let chars = chars_of(text);
    let mut from: usize = 0;
    assert(text@.skip(0) =~= text@);
    while from < chars.len() && white_space(chars[from])
        invariant
            chars@ == text@,
            from <= chars@.len(),
            trimmed_start(text@) == trimmed_start(text@.skip(from as int)),
        decreases chars.len() - from,
    {
        assert(text@.skip(from as int).skip(1) =~= text@.skip(from + 1));
        from += 1;
    }
    let ghost rest = text@.skip(from as int);
    assert(trimmed_start(text@) == rest);
    let mut to: usize = chars.len();
    assert(text@.subrange(from as int, to as int) =~= rest);
    while to > from && white_space(chars[to - 1])
        invariant
            chars@ == text@,
            from <= to <= chars@.len(),
            trimmed_end(rest) == trimmed_end(text@.subrange(from as int, to as int)),
        decreases to,
    {
        assert(text@.subrange(from as int, to as int).drop_last() =~= text@.subrange(
            from as int,
            to - 1,
        ));
        to -= 1;
    }
    substring(&chars, from, to)
}

/// The lines of `text`.
pub fn lines(text: &str) -> (out: Vec<String>)
    ensures
        views(out@) == lines_of(text@),
{
    let parts = split(text, '\n');
    proof {
        split_on_nonempty(text@, '\n');
    }
    let total: usize = parts.len();
    let count: usize = if parts[total - 1].as_str().is_empty() {
        total - 1
    } else {
        total
    };
    let mut out: Vec<String> = Vec::new();
    let mut i: usize = 0;
    while i < count
        invariant
            views(parts@) == split_on(text@, '\n'),
            total == parts@.len(),
            total >= 1,
            count == line_pieces(text@).len(),
            count <= total,
            i <= count,
            views(out@) == lines_of(text@).take(i as int),
        decreases count - i,
    {
        let chars = chars_of(parts[i].as_str());
        let piece = if i + 1 < total && chars.len() > 0 && chars[chars.len() - 1] == '\r' {
            let cut = substring(&chars, 0, chars.len() - 1);
            assert(cut@ =~= chars@.drop_last());
            cut
        } else {
            substring(&chars, 0, chars.len())
        };
        proof {
            assert(views(parts@)[i as int] == chars@);
            assert(line_pieces(text@)[i as int] == chars@);
            assert(chars@.subrange(0, chars@.len() as int) =~= chars@);
            assert(piece@ == lines_of(text@)[i as int]);
        }
        let ghost before = out@;
        out.push(piece);
        assert(views(out@) =~= views(before).push(piece@));
        assert(lines_of(text@).take(i + 1) =~= lines_of(text@).take(i as int).push(
            lines_of(text@)[i as int],
        ));
        i += 1;
    }
    assert(lines_of(text@).take(count as int) =~= lines_of(text@));
    out
}

/// `text` with every `from` written as `to`.
pub fn replace_char(text: &str, from: char, to: char) -> (out: String)
    ensures
        out@ == with_replaced(text@, from, to),
{
    let chars = chars_of(text);
    let mut out = String::new();
    let mut i: usize = 0;
    while i < chars.len()
        invariant
            chars@ == text@,
            i <= chars@.len(),
            out@ == with_replaced(text@, from, to).take(i as int),
        decreases chars.len() - i,
    {
        out.push(if chars[i] == from { to } else { chars[i] });
        i += 1;
    }
    out
}

/// The value of the digits from `from` on, unless it is over `limit`.
fn digits_value(chars: &Vec<char>, from: usize, limit: u64) -> (value: Option<u64>)
    requires
        from <= chars@.len(),
        all_digits(chars@.skip(from as int)),
    ensures
        value == (if decimal_value(chars@.skip(from as int)) <= limit {
            Some(decimal_value(chars@.skip(from as int)) as u64)
        } else {
            None
        }),
{
    let ghost digits = chars@.skip(from as int);
    let mut value: u128 = 0;
    let mut i: usize = from;
    while i < chars.len()
        invariant
            from <= i <= chars@.len(),
            digits == chars@.skip(from as int),
            all_digits(digits),
            value == decimal_value(digits.take(i - from)),
            value <= limit,
        decreases chars.len() - i,
    {
        let c = chars[i];
        proof {
            assert(digits[i - from] == c);
            let longer = digits.take(i - from + 1);
            assert(longer.drop_last() =~= digits.take(i - from));
            assert(longer.last() == c);
            decimal_value_of_prefix(digits, i - from + 1);
        }
        value = value * 10 + ((c as u32) - ('0' as u32)) as u128;
        if value > limit as u128 {
            return None;
        }
        i += 1;
    }
    assert(digits.take(chars@.len() - from) =~= digits);
    Some(value as u64)
}

/// The value of digits is at least that of any leading part of them.
proof fn decimal_value_of_prefix(s: Seq<char>, k: int)
    requires
        0 <= k <= s.len(),
    ensures
        decimal_value(s.take(k)) <= decimal_value(s),
    decreases s.len() - k,
{
    if k < s.len() {
        decimal_value_of_prefix(s, k + 1);
        assert(s.take(k + 1).drop_last() =~= s.take(k));
    } else {
        assert(s.take(k) =~= s);
    }
}

/// Whether every character of `chars` from `from` on is an ASCII digit.
pub fn digits_only(chars: &Vec<char>, from: usize) -> (yes: bool)
    requires
        from <= chars@.len(),
    ensures
        yes == all_digits(chars@.skip(from as int)),
{
    let mut i: usize = from;
    while i < chars.len()
        invariant
            from <= i <= chars@.len(),
            forall|j: int| from <= j < i ==> is_digit(#[trigger] chars@[j]),
        decreases chars.len() - i,
    {
        if chars[i] < '0' || '9' < chars[i] {
            assert(chars@.skip(from as int)[i - from] == chars@[i as int]);
            return false;
        }
        i += 1;
    }
    true
}

/// The number that `text` writes as a decimal `u32` literal.
pub fn parse_u32(text: &str) -> (value: Option<u32>)
    ensures
        value == u32_literal(text@),
{
    let chars = chars_of(text);
    let from: usize = if chars.len() > 0 && chars[0] == '+' {
        1
    } else {
        0
    };
    assert(text@.skip(0) =~= text@);
    if from == chars.len() || !digits_only(&chars, from) {
        return None;
    }
    match digits_value(&chars, from, 0xffff_ffff) {
        Some(value) => Some(value as u32),
        None => None,
    }
}

/// The number that `text` writes as a decimal `i64` literal.
pub fn parse_i64(text: &str) -> (value: Option<i64>)
    ensures
        value == i64_literal(text@),
{
    let chars = chars_of(text);
    let negative = chars.len() > 0 && chars[0] == '-';
    let from: usize = if chars.len() > 0 && (chars[0] == '+' || chars[0] == '-') {
        1
    } else {
        0
    };
    assert(text@.skip(0) =~= text@);
    if from == chars.len() || !digits_only(&chars, from) {
        return None;
    }
    if negative {
        match digits_value(&chars, from, 0x8000_0000_0000_0000) {
            Some(value) => {
                if value == 0x8000_0000_0000_0000 {
                    Some(i64::MIN)
                } else {
                    Some(-(value as i64))
                }
            },
            None => None,
        }
    } else {
        match digits_value(&chars, from, 0x7fff_ffff_ffff_ffff) {
            Some(value) => Some(value as i64),
            None => None,
        }
    }
}

/// The decimal digits of `n`.
pub fn decimal(n: usize) -> (text: String)
    ensures
        text@ == decimal_digits(n as nat),
    decreases n,
{
    let mut text = if n < 10 {
        String::new()
    } else {
        decimal(n / 10)
    };
    let digit: u8 = (n % 10) as u8;
    let c = (48u8 + digit) as char;
    proof {
        assert(c == digit_char((n % 10) as nat));
    }
    text.push(c);
    proof {
        if n < 10 {
            assert(text@ =~= seq![digit_char(n as nat)]);
        }
    }
    text
}

/// `digits` behind zeros, at least `width` characters in all.
pub fn zero_pad(digits: &str, width: usize) -> (text: String)
    ensures
        text@ == zero_padded(digits@, width as nat),
{
    let count: usize = digits.unicode_len();
    let mut text = String::new();
    if count < width {
        let mut i: usize = 0;
        while i < width - count
            invariant
                count < width,
                i <= width - count,
                text@ == Seq::new(i as nat, |j: int| '0'),
            decreases width - count - i,
        {
            text.push('0');
            assert(text@ =~= Seq::new((i + 1) as nat, |j: int| '0'));
            i += 1;
        }
    }
    text.append(digits);
    assert(text@ =~= zero_padded(digits@, width as nat));
    text
}

/// Decimal digits write the number that they were made from.
pub proof fn decimal_digits_round_trip(n: nat)
    ensures
        decimal_digits(n).len() >= 1,
        all_digits(decimal_digits(n)),
        decimal_value(decimal_digits(n)) == n,
    decreases n,
{
    reveal_with_fuel(decimal_value, 2);
    let low = digit_char(n % 10);
    assert(is_digit(low));
    if n < 10 {
        assert(decimal_digits(n) =~= seq![low]);
        assert(seq![low].drop_last() =~= Seq::<char>::empty());
    } else {
        decimal_digits_round_trip(n / 10);
        let high = decimal_digits(n / 10);
        assert(high.push(low).drop_last() =~= high);
        assert(high.push(low).last() == low);
    }
}

/// Leading zeros do not change the value of digits.
pub proof fn zero_padding_keeps_value(digits: Seq<char>, width: nat)
    requires
        all_digits(digits),
    ensures
        all_digits(zero_padded(digits, width)),
        decimal_value(zero_padded(digits, width)) == decimal_value(digits),
        zero_padded(digits, width).len() >= digits.len(),
{
    if digits.len() < width {
        let zeros = Seq::new((width - digits.len()) as nat, |j: int| '0');
        zeros_before_keep_value(zeros, digits);
    }
}

proof fn zeros_before_keep_value(zeros: Seq<char>, digits: Seq<char>)
    requires
        forall|i: int| 0 <= i < zeros.len() ==> zeros[i] == '0',
    ensures
        decimal_value(zeros + digits) == decimal_value(digits),
    decreases zeros.len() + digits.len(),
{
    if digits.len() > 0 {
        assert((zeros + digits).drop_last() =~= zeros + digits.drop_last());
        assert((zeros + digits).last() == digits.last());
        zeros_before_keep_value(zeros, digits.drop_last());
    } else if zeros.len() > 0 {
        assert(zeros + digits =~= zeros);
        assert(zeros.drop_last() + digits =~= zeros.drop_last());
        zeros_before_keep_value(zeros.drop_last(), digits);
    } else {
        assert(zeros + digits =~= digits);
    }
}

/// Three texts that are glued stand one behind the other.
pub proof fn three_are_glued(a: Seq<char>, b: Seq<char>, c: Seq<char>)
    ensures
        glued(seq![a, b, c]) == a + b + c,
{
    let parts = seq![a, b, c];
    reveal_with_fuel(glued, 4);
    assert(parts.drop_last() =~= seq![a, b]);
    assert(parts.drop_last().drop_last() =~= seq![a]);
    assert(parts.drop_last().drop_last().drop_last() =~= Seq::<Seq<char>>::empty());
    assert(glued(parts) =~= a + b + c);
}

proof fn trimmed_start_drops_white_space(s: Seq<char>) -> (k: int)
    ensures
        0 <= k <= s.len(),
        trimmed_start(s) == s.skip(k),
        forall|i: int| 0 <= i < k ==> is_white_space(#[trigger] s[i]),
        k < s.len() ==> !is_white_space(s[k]),
    decreases s.len(),
{
    if s.len() > 0 && is_white_space(s[0]) {
        let rest = s.skip(1);
        let k = trimmed_start_drops_white_space(rest);
        assert(rest.skip(k) =~= s.skip(k + 1));
        assert forall|i: int| 0 <= i < k + 1 implies is_white_space(#[trigger] s[i]) by {
            if i > 0 {
                assert(s[i] == rest[i - 1]);
            }
        }
        if k < rest.len() {
            assert(s[k + 1] == rest[k]);
        }
        k + 1
    } else {
        assert(s.skip(0) =~= s);
        0
    }
}

proof fn trimmed_end_drops_white_space(s: Seq<char>) -> (k: int)
    ensures
        0 <= k <= s.len(),
        trimmed_end(s) == s.take(k),
        forall|i: int| k <= i < s.len() ==> is_white_space(#[trigger] s[i]),
        k > 0 ==> !is_white_space(s[k - 1]),
    decreases s.len(),
{
    if s.len() > 0 && is_white_space(s.last()) {
        let rest = s.drop_last();
        let k = trimmed_end_drops_white_space(rest);
        assert(rest.take(k) =~= s.take(k));
        assert forall|i: int| k <= i < s.len() implies is_white_space(#[trigger] s[i]) by {
            if i < rest.len() {
                assert(s[i] == rest[i]);
            }
        }
        k
    } else {
        assert(s.take(s.len() as int) =~= s);
        s.len() as int
    }
}

/// Trimming takes away white space from both ends, and all of it there, and nothing else.
pub proof fn trimming_takes_white_space(s: Seq<char>) -> (ends: (int, int))
    ensures
        0 <= ends.0 <= ends.1 <= s.len(),
        trimmed(s) == s.subrange(ends.0, ends.1),
        forall|i: int| 0 <= i < ends.0 ==> is_white_space(#[trigger] s[i]),
        forall|i: int| ends.1 <= i < s.len() ==> is_white_space(#[trigger] s[i]),
        trimmed(s).len() > 0 ==> !is_white_space(trimmed(s)[0]) && !is_white_space(
            trimmed(s).last(),
        ),
{
    let a = trimmed_start_drops_white_space(s);
    let tail = trimmed_start(s);
    let k = trimmed_end_drops_white_space(tail);
    assert(trimmed(s) =~= s.subrange(a, a + k));
    assert forall|i: int| a + k <= i < s.len() implies is_white_space(#[trigger] s[i]) by {
        assert(s[i] == tail[i - a]);
    }
    if trimmed(s).len() > 0 {
        assert(trimmed(s)[0] == s[a]);
        assert(trimmed(s).last() == tail[k - 1]);
    }
    (a, a + k)
}

/// Splitting cuts at every separator and at nothing else: the pieces have none, and joined with it they
/// are the text again.
#[verifier::rlimit(60)]
pub proof fn splitting_cuts_at_every_separator(s: Seq<char>, c: char)
    ensures
        split_on(s, c).len() >= 1,
        joined(split_on(s, c), seq![c]) == s,
        forall|i: int|
            0 <= i < split_on(s, c).len() ==> !(#[trigger] split_on(s, c)[i]).contains(c),
    decreases s.len(),
{
    let k = first_index(s, c);
    first_index_is_first(s, c);
    let all = split_on(s, c);
    if k < s.len() {
        let rest = s.skip(k + 1);
        let tail = split_on(rest, c);
        splitting_cuts_at_every_separator(rest, c);
        assert(all =~= seq![s.take(k)] + tail);
        joined_with_one_in_front(s.take(k), tail, seq![c]);
        assert(s =~= s.take(k) + seq![c] + rest);
        assert forall|i: int| 0 <= i < all.len() implies !(#[trigger] all[i]).contains(c) by {
            if i == 0 {
                assert(all[0] == s.take(k));
                if all[0].contains(c) {
                    let j = choose|j: int| 0 <= j < all[0].len() && all[0][j] == c;
                    assert(s[j] == c);
                }
            } else {
                assert(all[i] == tail[i - 1]);
            }
        }
    } else {
        assert(all =~= seq![s]);
        assert(joined(all, seq![c]) =~= s);
        assert forall|i: int| 0 <= i < all.len() implies !(#[trigger] all[i]).contains(c) by {
            assert(all[i] == s);
            if s.contains(c) {
                let j = choose|j: int| 0 <= j < s.len() && s[j] == c;
                assert(s[j] != c);
            }
        }
    }
}

proof fn joined_with_one_in_front(a: Seq<char>, parts: Seq<Seq<char>>, sep: Seq<char>)
    requires
        parts.len() > 0,
    ensures
        joined(seq![a] + parts, sep) == a + sep + joined(parts, sep),
    decreases parts.len(),
{
    let all = seq![a] + parts;
    if parts.len() == 1 {
        assert(all.drop_last() =~= seq![a]);
        assert(joined(all.drop_last(), sep) =~= a);
        assert(joined(all, sep) =~= a + sep + joined(parts, sep));
    } else {
        joined_with_one_in_front(a, parts.drop_last(), sep);
        assert(all.drop_last() =~= seq![a] + parts.drop_last());
        assert(joined(all, sep) =~= a + sep + joined(parts, sep));
    }
}

/// Blanks, tabs and line ends are white space, inside ASCII and outside it; letters, digits and
/// punctuation are not.
pub proof fn white_space_is_what_it_is(c: char)
    ensures
        c == ' ' || c == '\t' || c == '\n' || c == '\r' ==> is_white_space(c),
        is_alphanumeric(c) || c == '.' || c == ',' || c == '-' || c == '_' || c == '/' || c == '@'
            || c == '#' || c == '<' || c == '(' ==> !is_white_space(c),
{
}

/// Digits are read as their value, with or without a sign, where it fits; anything else is no number.
pub proof fn digits_are_read_as_their_value(digits: Seq<char>)
    requires
        digits.len() > 0,
        all_digits(digits),
    ensures
        decimal_value(digits) <= u32::MAX ==> u32_literal(digits) == Some(
            decimal_value(digits) as u32,
        ),
        decimal_value(digits) > u32::MAX ==> u32_literal(digits) is None,
        decimal_value(digits) <= i64::MAX ==> i64_literal(digits) == Some(
            decimal_value(digits) as i64,
        ) && i64_literal(seq!['-'] + digits) == Some((-(decimal_value(digits) as int)) as i64),
{
    assert(is_digit(digits[0]));
    let signed = seq!['-'] + digits;
    assert(signed[0] == '-');
    assert(signed.skip(1) =~= digits);
}

/// One digit more makes the value ten times as great, and adds the digit.
pub proof fn digits_count_in_tens(digits: Seq<char>, d: nat)
    requires
        d < 10,
    ensures
        decimal_value(digits.push(digit_char(d))) == decimal_value(digits) * 10 + d,
        is_digit(digit_char(d)),
{
    assert(digits.push(digit_char(d)).drop_last() =~= digits);
    assert(digits.push(digit_char(d)).last() == digit_char(d));
}

/// The lines of a text are what stands between its line feeds, without a carriage return before one; a
/// line feed at the end starts no line.
pub proof fn lines_end_with_line_feeds(s: Seq<char>, i: int)
    requires
        0 <= i < lines_of(s).len(),
    ensures
        ({
            let pieces = split_on(s, '\n');
            &&& lines_of(s).len() == (if pieces.last().len() == 0 {
                pieces.len() - 1
            } else {
                pieces.len() as int
            })
            &&& lines_of(s)[i] == pieces[i] || (pieces[i].len() > 0 && pieces[i].last() == '\r'
                && i + 1 < pieces.len() && lines_of(s)[i] == pieces[i].drop_last())
            &&& i + 1 < pieces.len() && pieces[i].len() > 0 && pieces[i].last() == '\r' ==> lines_of(
                s,
            )[i] == pieces[i].drop_last()
        }),
{
    split_on_nonempty(s, '\n');
}

/// Replacing a character exchanges it everywhere, and leaves all others.
pub proof fn replacing_exchanges_one_character(s: Seq<char>, from: char, to: char, i: int)
    requires
        0 <= i < s.len(),
    ensures
        with_replaced(s, from, to).len() == s.len(),
        with_replaced(s, from, to)[i] == (if s[i] == from {
            to
        } else {
            s[i]
        }),
{
}

/// A text begins, ends, and holds another exactly where some text stands before and behind it.
pub proof fn parts_stand_in_the_whole(before: Seq<char>, part: Seq<char>, behind: Seq<char>)
    ensures
        has_prefix(part + behind, part),
        after_prefix(part + behind, part) == Some(behind),
        has_suffix(before + part, part),
        occurs_in(before + part + behind, part),
{
    assert((part + behind).take(part.len() as int) =~= part);
    assert((part + behind).skip(part.len() as int) =~= behind);
    assert((before + part).skip((before + part).len() - part.len()) =~= part);
    let whole = before + part + behind;
    assert(whole.subrange(before.len() as int, before.len() + part.len() as int) =~= part);
    assert(occurs_at(whole, part, before.len() as int));
}

/// Every part of a joined text stands in it.
pub proof fn joined_parts_stand_in_the_whole(parts: Seq<Seq<char>>, sep: Seq<char>, i: int)
    requires
        0 <= i < parts.len(),
    ensures
        occurs_in(joined(parts, sep), parts[i]),
    decreases parts.len(),
{
    let whole = joined(parts, sep);
    if parts.len() == 1 {
        assert(whole.subrange(0, parts[0].len() as int) =~= parts[0]);
        assert(occurs_at(whole, parts[0], 0));
    } else {
        let head = joined(parts.drop_last(), sep);
        if i == parts.len() - 1 {
            let at = head.len() + sep.len();
            assert(whole.subrange(at as int, at + parts[i].len() as int) =~= parts[i]);
            assert(occurs_at(whole, parts[i], at as int));
        } else {
            joined_parts_stand_in_the_whole(parts.drop_last(), sep, i);
            let k = choose|k: int| #[trigger] occurs_at(head, parts[i], k);
            assert(whole.subrange(k, k + parts[i].len()) =~= head.subrange(k, k + parts[i].len()));
            assert(occurs_at(whole, parts[i], k));
        }
    }
}

} // verus!
