//! Slash-separated paths, taken apart by their text alone.
//!
//! A path is a sequence of components: `/` at its start, `.` at its start, `..`, and names. Empty
//! components and a `.` anywhere but at the start do not count.

use vstd::prelude::*;

use crate::text;

verus! {

/// Whether a piece between separators does not count as a component.
pub open spec fn is_skipped(piece: Seq<char>) -> bool {
    piece.len() == 0 || piece == seq!['.']
}

/// Where the piece that starts at `i` ends.
pub open spec fn piece_end(s: Seq<char>, i: int) -> int {
    i + text::first_index(s.skip(i), '/')
}

/// The components of `s` from position `i` on, each as the range of its characters.
pub open spec fn spans_from(s: Seq<char>, i: int) -> Seq<(int, int)>
    decreases s.len() + 1 - i,
{
    let k = piece_end(s, i);
    if i < 0 || i >= s.len() || k < i || k > s.len() {
        Seq::empty()
    } else if is_skipped(s.subrange(i, k)) {
        spans_from(s, k + 1)
    } else {
        seq![(i, k)] + spans_from(s, k + 1)
    }
}

/// Whether `s` starts with a component of its own kind: the root, or the current directory.
pub open spec fn has_start_component(s: Seq<char>) -> bool {
    s.len() > 0 && (s[0] == '/' || (s[0] == '.' && (s.len() == 1 || s[1] == '/')))
}

/// The components of `s`, each as the range of its characters.
pub open spec fn spans(s: Seq<char>) -> Seq<(int, int)> {
    if has_start_component(s) {
        seq![(0int, 1int)] + spans_from(s, 1)
    } else {
        spans_from(s, 0)
    }
}

/// The components of `s`.
pub open spec fn components_of(s: Seq<char>) -> Seq<Seq<char>> {
    Seq::new(spans(s).len(), |i: int| s.subrange(spans(s)[i].0, spans(s)[i].1))
}

/// Whether a component is a name.
pub open spec fn is_name(component: Seq<char>) -> bool {
    component != seq!['/'] && component != seq!['.'] && component != seq!['.', '.']
}

/// Whether the path starts at the root.
pub open spec fn absolute(s: Seq<char>) -> bool {
    s.len() > 0 && s[0] == '/'
}

/// `rel` seen from `base`.
pub open spec fn path_joined(base: Seq<char>, rel: Seq<char>) -> Seq<char> {
    if absolute(rel) || base.len() == 0 {
        rel
    } else if base.last() == '/' {
        base + rel
    } else {
        base.push('/') + rel
    }
}

/// The last component where it is a name.
pub open spec fn file_name_of(s: Seq<char>) -> Option<Seq<char>> {
    let parts = components_of(s);
    if parts.len() > 0 && is_name(parts.last()) {
        Some(parts.last())
    } else {
        None
    }
}

/// The path without its last component; the root and the empty path have no parent.
pub open spec fn parent_of(s: Seq<char>) -> Option<Seq<char>> {
    let ranges = spans(s);
    if ranges.len() == 0 || (ranges.len() == 1 && absolute(s)) {
        None
    } else if ranges.len() == 1 {
        Some(Seq::empty())
    } else {
        Some(s.take(ranges[ranges.len() - 2].1))
    }
}

/// The position of the last `c` in `s`, or -1 where there is none.
pub open spec fn last_index(s: Seq<char>, c: char) -> int
    decreases s.len(),
{
    if s.len() == 0 {
        -1
    } else if s.last() == c {
        s.len() - 1
    } else {
        last_index(s.drop_last(), c)
    }
}

/// A file name without its extension.
pub open spec fn stem_of(name: Seq<char>) -> Seq<char> {
    let dot = last_index(name, '.');
    if dot > 0 {
        name.take(dot)
    } else {
        name
    }
}

/// The extension of a file name: what follows the last dot, unless that dot starts the name.
pub open spec fn extension_in(name: Seq<char>) -> Option<Seq<char>> {
    let dot = last_index(name, '.');
    if dot > 0 {
        Some(name.skip(dot + 1))
    } else {
        None
    }
}

/// The stem of the path's file name.
pub open spec fn file_stem_of(s: Seq<char>) -> Option<Seq<char>> {
    match file_name_of(s) {
        Some(name) => Some(stem_of(name)),
        None => None,
    }
}

/// The extension of the path's file name.
pub open spec fn extension_of(s: Seq<char>) -> Option<Seq<char>> {
    match file_name_of(s) {
        Some(name) => extension_in(name),
        None => None,
    }
}

/// The path up to its file stem.
pub open spec fn extensionless(s: Seq<char>) -> Seq<char> {
    match file_name_of(s) {
        Some(name) => s.take(spans(s).last().0 + stem_of(name).len()),
        None => s,
    }
}

/// The path with `name` in place of its file name, or behind it where it has none.
pub open spec fn renamed(s: Seq<char>, name: Seq<char>) -> Seq<char> {
    match (file_name_of(s), parent_of(s)) {
        (Some(_), Some(parent)) => path_joined(parent, name),
        _ => path_joined(s, name),
    }
}

/// Whether the path begins with the components of `base`.
pub open spec fn under(s: Seq<char>, base: Seq<char>) -> bool {
    let parts = components_of(s);
    let first = components_of(base);
    first.len() <= parts.len() && parts.take(first.len() as int) == first
}

/// The text of `s` from its `n`th component to its last.
pub open spec fn text_from(s: Seq<char>, n: int) -> Seq<char> {
    let ranges = spans(s);
    if n < ranges.len() {
        s.subrange(ranges[n].0, ranges.last().1)
    } else {
        Seq::empty()
    }
}

/// What follows `base` in `s`, where `s` begins with the components of `base`.
pub open spec fn stripped(s: Seq<char>, base: Seq<char>) -> Option<Seq<char>> {
    if under(s, base) {
        Some(text_from(s, components_of(base).len() as int))
    } else {
        None
    }
}

/// Whether the path ends with the components of `tail`.
pub open spec fn path_ends_with(s: Seq<char>, tail: Seq<char>) -> bool {
    let parts = components_of(s);
    let last = components_of(tail);
    last.len() <= parts.len() && parts.skip(parts.len() - last.len()) == last
}

/// Whether two paths have the same components.
pub open spec fn same_path(a: Seq<char>, b: Seq<char>) -> bool {
    components_of(a) == components_of(b)
}

/// The ranges of a path's components lie one behind the other, and none is empty.
pub proof fn spans_from_are_ordered(s: Seq<char>, i: int)
    requires
        0 <= i,
    ensures
        forall|n: int|
            0 <= n < spans_from(s, i).len() ==> i <= (#[trigger] spans_from(s, i)[n]).0
                < spans_from(s, i)[n].1 <= s.len(),
        forall|n: int, m: int|
            0 <= n < m < spans_from(s, i).len() ==> (#[trigger] spans_from(s, i)[n]).1 < (
            #[trigger] spans_from(s, i)[m]).0,
    decreases s.len() + 1 - i,
{
    let k = piece_end(s, i);
    if i < s.len() {
        text::first_index_is_first(s.skip(i), '/');
        spans_from_are_ordered(s, k + 1);
        let rest = spans_from(s, k + 1);
        if !is_skipped(s.subrange(i, k)) {
            let all = spans_from(s, i);
            assert(all =~= seq![(i, k)] + rest);
            assert forall|n: int| 0 <= n < all.len() implies i <= (#[trigger] all[n]).0 < all[n].1
                <= s.len() by {
                if n > 0 {
                    assert(all[n] == rest[n - 1]);
                }
            }
            assert forall|n: int, m: int| 0 <= n < m < all.len() implies (#[trigger] all[n]).1 < (
            #[trigger] all[m]).0 by {
                assert(all[m] == rest[m - 1]);
                if n > 0 {
                    assert(all[n] == rest[n - 1]);
                }
            }
        } else {
            assert(spans_from(s, i) == rest);
        }
    }
}

/// The ranges of a path's components lie one behind the other, and none is empty.
pub proof fn spans_are_ordered(s: Seq<char>)
    ensures
        forall|n: int|
            0 <= n < spans(s).len() ==> 0 <= (#[trigger] spans(s)[n]).0 < spans(s)[n].1 <= s.len(),
        forall|n: int, m: int|
            0 <= n < m < spans(s).len() ==> (#[trigger] spans(s)[n]).1 <= (#[trigger] spans(
                s,
            )[m]).0,
{
    if has_start_component(s) {
        spans_from_are_ordered(s, 1);
        let rest = spans_from(s, 1);
        let all = spans(s);
        assert(all =~= seq![(0int, 1int)] + rest);
        assert forall|n: int| 0 <= n < all.len() implies 0 <= (#[trigger] all[n]).0 < all[n].1
            <= s.len() by {
            if n > 0 {
                assert(all[n] == rest[n - 1]);
            }
        }
        assert forall|n: int, m: int| 0 <= n < m < all.len() implies (#[trigger] all[n]).1 <= (
        #[trigger] all[m]).0 by {
            assert(all[m] == rest[m - 1]);
            if n > 0 {
                assert(all[n] == rest[n - 1]);
            }
        }
    } else {
        spans_from_are_ordered(s, 0);
    }
}

/// The texts of the ranges.
spec fn span_texts(s: Seq<char>, ranges: Seq<(int, int)>) -> Seq<Seq<char>> {
    Seq::new(ranges.len(), |i: int| s.subrange(ranges[i].0, ranges[i].1))
}

/// A tail that follows a separator is taken apart as it would be alone.
proof fn spans_of_tail(s: Seq<char>, rel: Seq<char>, p: int, i: int)
    requires
        0 <= p <= s.len(),
        s.skip(p) == rel,
        0 <= i,
    ensures
        span_texts(s, spans_from(s, p + i)) == span_texts(rel, spans_from(rel, i)),
        spans_from(s, p + i).len() == spans_from(rel, i).len(),
        forall|n: int|
            0 <= n < spans_from(rel, i).len() ==> (#[trigger] spans_from(s, p + i)[n]) == (
                spans_from(rel, i)[n].0 + p,
                spans_from(rel, i)[n].1 + p,
            ),
    decreases rel.len() + 1 - i,
{
    if i < rel.len() {
        assert(s.skip(p + i) =~= rel.skip(i));
        text::first_index_is_first(rel.skip(i), '/');
        let k = piece_end(rel, i);
        assert(s.subrange(p + i, p + k) =~= rel.subrange(i, k));
        spans_of_tail(s, rel, p, k + 1);
        let left = spans_from(s, p + k + 1);
        let right = spans_from(rel, k + 1);
        if !is_skipped(rel.subrange(i, k)) {
            assert(spans_from(s, p + i) == seq![(p + i, p + k)] + left);
            assert(spans_from(rel, i) == seq![(i, k)] + right);
            assert(span_texts(s, seq![(p + i, p + k)] + left) =~= seq![s.subrange(p + i, p + k)]
                + span_texts(s, left));
            assert(span_texts(rel, seq![(i, k)] + right) =~= seq![rel.subrange(i, k)] + span_texts(
                rel,
                right,
            ));
        }
    } else {
        assert(spans_from(s, p + i) =~= Seq::empty());
        assert(spans_from(rel, i) =~= Seq::empty());
        assert(span_texts(s, spans_from(s, p + i)) =~= span_texts(rel, spans_from(rel, i)));
    }
}

/// What precedes a separator is taken apart as it would be alone.
proof fn spans_of_head(head: Seq<char>, rel: Seq<char>, i: int)
    requires
        head.len() > 0,
        head.last() == '/',
        0 <= i <= head.len(),
    ensures
        spans_from(head + rel, i) == spans_from(head, i) + spans_from(head + rel, head.len() as int),
    decreases head.len() - i,
{
    let s = head + rel;
    if i < head.len() {
        text::first_index_is_first(head.skip(i), '/');
        let k = piece_end(head, i);
        assert(head.skip(i)[head.len() - 1 - i] == '/');
        assert(k < head.len());
        assert(s.skip(i)[k - i] == '/');
        assert forall|j: int| 0 <= j < k - i implies s.skip(i)[j] != '/' by {
            assert(s.skip(i)[j] == head.skip(i)[j]);
        }
        text::first_index_unique(s.skip(i), '/', k - i);
        assert(s.subrange(i, k) =~= head.subrange(i, k));
        spans_of_head(head, rel, k + 1);
        assert(spans_from(s, i) =~= spans_from(head, i) + spans_from(s, head.len() as int));
    } else {
        assert(spans_from(head, i) =~= Seq::empty());
        assert(spans_from(s, i) =~= spans_from(head, i) + spans_from(s, head.len() as int));
    }
}

/// A separator at the end adds no component.
proof fn spans_with_final_separator(s: Seq<char>, i: int)
    requires
        0 <= i <= s.len(),
    ensures
        spans_from(s.push('/'), i) == spans_from(s, i),
    decreases s.len() - i,
{
    let long = s.push('/');
    if i < s.len() {
        text::first_index_is_first(s.skip(i), '/');
        let k = piece_end(s, i);
        assert(long.skip(i)[k - i] == '/');
        assert forall|j: int| 0 <= j < k - i implies long.skip(i)[j] != '/' by {
            assert(long.skip(i)[j] == s.skip(i)[j]);
        }
        text::first_index_unique(long.skip(i), '/', k - i);
        assert(long.subrange(i, k) =~= s.subrange(i, k));
        if k < s.len() {
            spans_with_final_separator(s, k + 1);
        } else {
            assert(spans_from(long, k + 1) =~= Seq::empty());
            assert(spans_from(s, k + 1) =~= Seq::empty());
        }
    } else {
        text::first_index_unique(long.skip(i), '/', 0);
        assert(spans_from(long, i + 1) =~= Seq::empty());
        assert(is_skipped(long.subrange(i, i)));
        assert(spans_from(long, i) =~= spans_from(s, i));
    }
}

/// Joining a path that has no start component of its own appends its components.
pub proof fn join_appends_components(base: Seq<char>, rel: Seq<char>)
    requires
        !has_start_component(rel),
    ensures
        components_of(path_joined(base, rel)) == components_of(base) + components_of(rel),
{
    let s = path_joined(base, rel);
    assert(components_of(rel) =~= span_texts(rel, spans_from(rel, 0)));
    if base.len() == 0 {
        assert(components_of(base) =~= Seq::empty());
        assert(components_of(s) =~= components_of(base) + components_of(rel));
    } else {
        let head = if base.last() == '/' {
            base
        } else {
            base.push('/')
        };
        let p = head.len() as int;
        let first: int = if has_start_component(base) {
            1
        } else {
            0
        };
        let start: Seq<(int, int)> = if has_start_component(base) {
            seq![(0int, 1int)]
        } else {
            Seq::empty()
        };
        assert(s =~= head + rel);
        assert(has_start_component(s) == has_start_component(base));
        spans_of_head(head, rel, first);
        if base.last() != '/' {
            spans_with_final_separator(base, first);
        }
        assert(s.skip(p) =~= rel);
        spans_of_tail(s, rel, p, 0);
        let inner = spans_from(base, first);
        let outer = spans_from(s, p);
        assert(spans(base) =~= start + inner);
        assert(spans(s) =~= spans(base) + outer);
        spans_are_ordered(base);
        assert(components_of(s) =~= span_texts(s, spans(base)) + span_texts(s, outer));
        assert forall|n: int| 0 <= n < spans(base).len() implies span_texts(s, spans(base))[n]
            == components_of(base)[n] by {
            assert(s.subrange(spans(base)[n].0, spans(base)[n].1) =~= base.subrange(
                spans(base)[n].0,
                spans(base)[n].1,
            ));
        }
        assert(span_texts(s, spans(base)) =~= components_of(base));
    }
}

/// A path that was joined to a base gives itself back when the base is taken away, without
/// separators at its ends.
pub proof fn joined_path_strips_back(base: Seq<char>, rel: Seq<char>)
    requires
        !has_start_component(rel),
    ensures
        stripped(path_joined(base, rel), base) == Some(text_from(rel, 0)),
{
    let s = path_joined(base, rel);
    let first = components_of(base);
    let n = first.len() as int;
    join_appends_components(base, rel);
    assert((first + components_of(rel)).take(n) =~= first);
    if base.len() == 0 {
        assert(spans(base) =~= Seq::empty());
    } else {
        let head = if base.last() == '/' {
            base
        } else {
            base.push('/')
        };
        let p = head.len() as int;
        let at: int = if has_start_component(base) {
            1
        } else {
            0
        };
        assert(s =~= head + rel);
        spans_of_head(head, rel, at);
        if base.last() != '/' {
            spans_with_final_separator(base, at);
        }
        assert(s.skip(p) =~= rel);
        spans_of_tail(s, rel, p, 0);
        let inner = spans(rel);
        let outer = spans_from(s, p);
        assert(spans(s) =~= spans(base) + outer);
        if inner.len() > 0 {
            spans_are_ordered(rel);
            let last = inner.len() - 1;
            assert(spans(s)[n] == outer[0] && spans(s).last() == outer[last]);
            assert(outer[0] == (inner[0].0 + p, inner[0].1 + p));
            assert(outer[last] == (inner[last].0 + p, inner[last].1 + p));
            assert(inner[0].0 <= inner[last].1 <= rel.len());
            assert(s.subrange(inner[0].0 + p, inner[last].1 + p) =~= rel.subrange(
                inner[0].0,
                inner[last].1,
            ));
        }
    }
}

/// Whether executable ranges are the given ones.
pub open spec fn ranges_are(found: Seq<(usize, usize)>, wanted: Seq<(int, int)>) -> bool {
    &&& found.len() == wanted.len()
    &&& forall|i: int|
        0 <= i < found.len() ==> (#[trigger] found[i]).0 == wanted[i].0 && found[i].1 == wanted[i].1
}

/// The component ranges of a path.
fn component_spans(chars: &Vec<char>) -> (found: Vec<(usize, usize)>)
    ensures
        ranges_are(found@, spans(chars@)),
{
    let mut found: Vec<(usize, usize)> = Vec::new();
    let mut i: usize = 0;
    if chars.len() > 0 && (chars[0] == '/' || (chars[0] == '.' && (chars.len() == 1 || chars[1]
        == '/'))) {
        found.push((0, 1));
        i = 1;
    }
    let ghost start: Seq<(int, int)> = if has_start_component(chars@) {
        seq![(0int, 1int)]
    } else {
        Seq::empty()
    };
    assert(start + spans_from(chars@, i as int) =~= spans(chars@));
    let ghost mut done: Seq<(int, int)> = start;
    while i < chars.len()
        invariant
            i <= chars@.len() + 1,
            ranges_are(found@, done),
            done + spans_from(chars@, i as int) == spans(chars@),
        decreases chars.len() + 1 - i,
    {
        let k = text::find_char(chars, i, '/');
        let skipped = k == i || (k == i + 1 && chars[i] == '.');
        proof {
            let piece = chars@.subrange(i as int, k as int);
            if k == i + 1 && chars@[i as int] == '.' {
                assert(piece =~= seq!['.']);
            }
            if piece.len() > 0 {
                assert(piece[0] == chars@[i as int]);
                assert(seq!['.'].len() == 1 && seq!['.'][0] == '.');
            }
            assert(skipped == is_skipped(piece));
        }
        if !skipped {
            found.push((i, k));
            proof {
                let before = done;
                done = done.push((i as int, k as int));
                assert(done + spans_from(chars@, k + 1) =~= before + spans_from(chars@, i as int));
            }
        }
        if k == chars.len() {
            assert(spans_from(chars@, k + 1) =~= Seq::empty());
            assert(done =~= spans(chars@));
            return found;
        }
        i = k + 1;
    }
    assert(spans_from(chars@, i as int) =~= Seq::empty());
    assert(done =~= spans(chars@));
    found
}

/// The components of `path`.
pub fn components(path: &str) -> (parts: Vec<String>)
    ensures
        text::views(parts@) == components_of(path@),
{
    let chars = text::chars_of(path);
    let ranges = component_spans(&chars);
    proof {
        spans_are_ordered(path@);
    }
    let mut parts: Vec<String> = Vec::new();
    let mut i: usize = 0;
    while i < ranges.len()
        invariant
            chars@ == path@,
            ranges_are(ranges@, spans(path@)),
            forall|n: int|
                0 <= n < spans(path@).len() ==> 0 <= (#[trigger] spans(path@)[n]).0 < spans(
                    path@,
                )[n].1 <= path@.len(),
            i <= ranges@.len(),
            text::views(parts@) == components_of(path@).take(i as int),
        decreases ranges.len() - i,
    {
        let (from, to) = ranges[i];
        assert(ranges@[i as int].0 == spans(path@)[i as int].0);
        let part = text::substring(&chars, from, to);
        let ghost before = parts@;
        parts.push(part);
        assert(text::views(parts@) =~= text::views(before).push(part@));
        assert(components_of(path@).take(i + 1) =~= components_of(path@).take(i as int).push(
            components_of(path@)[i as int],
        ));
        i += 1;
    }
    assert(components_of(path@).take(ranges@.len() as int) =~= components_of(path@));
    parts
}

/// Whether the path starts at the root.
pub fn is_absolute(path: &str) -> (yes: bool)
    ensures
        yes == absolute(path@),
{
    let chars = text::chars_of(path);
    chars.len() > 0 && chars[0] == '/'
}

/// `rel` seen from `base`.
pub fn join(base: &str, rel: &str) -> (out: String)
    ensures
        out@ == path_joined(base@, rel@),
{
    let chars = text::chars_of(base);
    if is_absolute(rel) || chars.len() == 0 {
        return rel.to_owned();
    }
    let mut out = base.to_owned();
    if chars[chars.len() - 1] != '/' {
        out.push('/');
    }
    out.append(rel);
    out
}

/// Whether a component is a name.
pub fn name_component(component: &str) -> (yes: bool)
    ensures
        yes == is_name(component@),
{
    let chars = text::chars_of(component);
    let one = chars.len() == 1 && (chars[0] == '/' || chars[0] == '.');
    let two = chars.len() == 2 && chars[0] == '.' && chars[1] == '.';
    proof {
        if one && chars@[0] == '/' {
            assert(component@ =~= seq!['/']);
        }
        if one && chars@[0] == '.' {
            assert(component@ =~= seq!['.']);
        }
        if two {
            assert(component@ =~= seq!['.', '.']);
        }
        assert(seq!['/'][0] == '/' && seq!['.'][0] == '.');
        assert(seq!['.', '.'][0] == '.' && seq!['.', '.'][1] == '.');
    }
    !one && !two
}

/// The last component where it is a name.
pub fn file_name(path: &str) -> (name: Option<String>)
    ensures
        match name {
            Some(name) => file_name_of(path@) == Some(name@),
            None => file_name_of(path@) is None,
        },
{
    let mut parts = components(path);
    let ghost all = parts@;
    match parts.pop() {
        Some(last) => {
            assert(text::views(all).last() == last@);
            if name_component(last.as_str()) {
                Some(last)
            } else {
                None
            }
        },
        None => None,
    }
}

/// The path without its last component.
pub fn parent(path: &str) -> (out: Option<String>)
    ensures
        match out {
            Some(out) => parent_of(path@) == Some(out@),
            None => parent_of(path@) is None,
        },
{
    let chars = text::chars_of(path);
    let ranges = component_spans(&chars);
    proof {
        spans_are_ordered(path@);
    }
    if ranges.len() == 0 || (ranges.len() == 1 && chars.len() > 0 && chars[0] == '/') {
        return None;
    }
    if ranges.len() == 1 {
        return Some(String::new());
    }
    let end: usize = ranges[ranges.len() - 2].1;
    assert(ranges@[ranges@.len() - 2].1 == spans(path@)[ranges@.len() - 2].1);
    assert(path@.subrange(0, end as int) =~= path@.take(end as int));
    Some(text::substring(&chars, 0, end))
}

/// The position of the last `c`.
fn find_last(chars: &Vec<char>, c: char) -> (at: Option<usize>)
    ensures
        match at {
            Some(at) => last_index(chars@, c) == at && at < chars@.len(),
            None => last_index(chars@, c) == -1,
        },
{
    let mut end: usize = chars.len();
    assert(chars@.take(end as int) =~= chars@);
    while end > 0
        invariant
            end <= chars@.len(),
            last_index(chars@, c) == last_index(chars@.take(end as int), c),
        decreases end,
    {
        assert(chars@.take(end as int).last() == chars@[end - 1]);
        assert(chars@.take(end as int).drop_last() =~= chars@.take(end - 1));
        if chars[end - 1] == c {
            return Some(end - 1);
        }
        end -= 1;
    }
    None
}

/// The stem of a file name.
pub fn name_stem(name: &str) -> (stem: String)
    ensures
        stem@ == stem_of(name@),
{
    let chars = text::chars_of(name);
    match find_last(&chars, '.') {
        Some(dot) if dot > 0 => {
            assert(name@.subrange(0, dot as int) =~= name@.take(dot as int));
            text::substring(&chars, 0, dot)
        },
        _ => name.to_owned(),
    }
}

/// The stem of the path's file name.
pub fn file_stem(path: &str) -> (stem: Option<String>)
    ensures
        match stem {
            Some(stem) => file_stem_of(path@) == Some(stem@),
            None => file_stem_of(path@) is None,
        },
{
    match file_name(path) {
        Some(name) => Some(name_stem(name.as_str())),
        None => None,
    }
}

/// The extension of the path's file name.
pub fn extension(path: &str) -> (ext: Option<String>)
    ensures
        match ext {
            Some(ext) => extension_of(path@) == Some(ext@),
            None => extension_of(path@) is None,
        },
{
    match file_name(path) {
        Some(name) => {
            let chars = text::chars_of(name.as_str());
            let total: usize = chars.len();
            match find_last(&chars, '.') {
                Some(dot) if dot > 0 => {
                    assert(name@.subrange(dot + 1, name@.len() as int) =~= name@.skip(dot + 1));
                    Some(text::substring(&chars, dot + 1, total))
                },
                _ => None,
            }
        },
        None => None,
    }
}

/// Whether the path's extension is `ext`.
pub fn has_extension(path: &str, ext: &str) -> (yes: bool)
    ensures
        yes == (extension_of(path@) == Some(ext@)),
{
    match extension(path) {
        Some(found) => text::text_eq(found.as_str(), ext),
        None => false,
    }
}

/// The position of the last dot in `name` is inside it.
proof fn last_index_bounds(name: Seq<char>, c: char)
    ensures
        -1 <= last_index(name, c) < name.len(),
    decreases name.len(),
{
    if name.len() > 0 && name.last() != c {
        last_index_bounds(name.drop_last(), c);
    }
}

/// The path up to its file stem.
pub fn without_extension(path: &str) -> (out: String)
    ensures
        out@ == extensionless(path@),
{
    let chars = text::chars_of(path);
    match file_name(path) {
        Some(name) => {
            let ranges = component_spans(&chars);
            proof {
                spans_are_ordered(path@);
                last_index_bounds(name@, '.');
            }
            let last: usize = ranges.len() - 1;
            assert(ranges@[last as int].0 == spans(path@)[last as int].0);
            assert(name@ == path@.subrange(spans(path@).last().0, spans(path@).last().1));
            let stem = name_stem(name.as_str());
            let stem_chars = text::chars_of(stem.as_str());
            let end: usize = ranges[last].0 + stem_chars.len();
            assert(path@.subrange(0, end as int) =~= path@.take(end as int));
            text::substring(&chars, 0, end)
        },
        None => path.to_owned(),
    }
}

/// The path with `name` in place of its file name.
pub fn with_file_name(path: &str, name: &str) -> (out: String)
    ensures
        out@ == renamed(path@, name@),
{
    match (file_name(path), parent(path)) {
        (Some(_), Some(parent)) => join(parent.as_str(), name),
        _ => join(path, name),
    }
}

/// Whether `short` is what `long` has from `at` on.
fn parts_match(long: &Vec<String>, short: &Vec<String>, at: usize) -> (yes: bool)
    requires
        at + short@.len() <= long@.len(),
    ensures
        yes == (text::views(long@).subrange(at as int, at + short@.len()) == text::views(short@)),
{
    let total: usize = long.len();
    let mut i: usize = 0;
    while i < short.len()
        invariant
            total == long@.len(),
            i <= short@.len(),
            at + short@.len() <= long@.len(),
            forall|j: int| 0 <= j < i ==> long@[at + j]@ == (#[trigger] short@[j])@,
        decreases short.len() - i,
    {
        if long[at + i] != short[i] {
            proof {
                assert(text::views(long@).subrange(at as int, at + short@.len())[i as int] == long@[at
                    + i]@);
                assert(text::views(short@)[i as int] == short@[i as int]@);
            }
            return false;
        }
        i += 1;
    }
    proof {
        assert forall|j: int| 0 <= j < short@.len() implies text::views(long@).subrange(
            at as int,
            at + short@.len(),
        )[j] == text::views(short@)[j] by {
            assert(long@[at + j]@ == short@[j]@);
        }
        assert(text::views(long@).subrange(at as int, at + short@.len()) =~= text::views(short@));
    }
    true
}

/// Whether the path begins with the components of `base`.
pub fn starts_with(path: &str, base: &str) -> (yes: bool)
    ensures
        yes == under(path@, base@),
{
    let parts = components(path);
    let first = components(base);
    if first.len() > parts.len() {
        return false;
    }
    assert(text::views(parts@).subrange(0, 0 + first@.len() as int) =~= text::views(parts@).take(
        first@.len() as int,
    ));
    parts_match(&parts, &first, 0)
}

/// Whether the path ends with the components of `tail`.
pub fn ends_with(path: &str, tail: &str) -> (yes: bool)
    ensures
        yes == path_ends_with(path@, tail@),
{
    let parts = components(path);
    let last = components(tail);
    if last.len() > parts.len() {
        return false;
    }
    let at: usize = parts.len() - last.len();
    assert(text::views(parts@).subrange(at as int, at + last@.len()) =~= text::views(parts@).skip(
        at as int,
    ));
    parts_match(&parts, &last, at)
}

/// Whether two paths have the same components.
pub fn equal(a: &str, b: &str) -> (same: bool)
    ensures
        same == same_path(a@, b@),
{
    let left = components(a);
    let right = components(b);
    assert(text::views(left@).len() == left@.len() && text::views(right@).len() == right@.len());
    if left.len() != right.len() {
        return false;
    }
    assert(text::views(left@).subrange(0, 0 + right@.len() as int) =~= text::views(left@));
    parts_match(&left, &right, 0)
}

/// What follows `base` in `path`, where `path` begins with the components of `base`.
pub fn strip_prefix(path: &str, base: &str) -> (out: Option<String>)
    ensures
        match out {
            Some(out) => stripped(path@, base@) == Some(out@),
            None => stripped(path@, base@) is None,
        },
{
    if !starts_with(path, base) {
        return None;
    }
    let chars = text::chars_of(path);
    let ranges = component_spans(&chars);
    let first = components(base);
    proof {
        spans_are_ordered(path@);
    }
    assert(text::views(first@).len() == components_of(base@).len());
    if first.len() < ranges.len() {
        let from: usize = ranges[first.len()].0;
        let to: usize = ranges[ranges.len() - 1].1;
        proof {
            let n = first@.len() as int;
            let m = ranges@.len() - 1;
            assert(ranges@[n].0 == spans(path@)[n].0);
            assert(ranges@[m].1 == spans(path@)[m].1);
            assert(spans(path@)[n].0 < spans(path@)[n].1);
            if n < m {
                assert(spans(path@)[n].1 <= spans(path@)[m].0);
                assert(spans(path@)[m].0 < spans(path@)[m].1);
            }
        }
        Some(text::substring(&chars, from, to))
    } else {
        Some(String::new())
    }
}

/// A path that ends with a name has a parent.
pub proof fn named_path_has_parent(s: Seq<char>)
    requires
        file_name_of(s) is Some,
    ensures
        parent_of(s) is Some,
{
    if spans(s).len() == 1 && absolute(s) {
        assert(has_start_component(s));
        assert(spans(s)[0] == (0int, 1int));
        assert(components_of(s)[0] =~= seq!['/']);
    }
}

/// The text of an absolute path behind the root.
pub fn after_root(path: &str) -> (out: String)
    requires
        absolute(path@),
    ensures
        out@ == text_from(path@, 1),
{
    let chars = text::chars_of(path);
    let ranges = component_spans(&chars);
    if ranges.len() > 1 {
        let last: usize = ranges.len() - 1;
        proof {
            spans_are_ordered(path@);
        }
        text::substring(&chars, ranges[1].0, ranges[last].1)
    } else {
        String::new()
    }
}

/// A text without slashes that is not the current directory is a path of one component.
pub proof fn piece_is_one_component(s: Seq<char>)
    requires
        s.len() > 0,
        s != seq!['.'],
        forall|i: int| 0 <= i < s.len() ==> s[i] != '/',
    ensures
        components_of(s) == seq![s],
        !has_start_component(s),
{
    assert(s.skip(0) =~= s);
    text::first_index_is_first(s, '/');
    assert(piece_end(s, 0) == s.len());
    reveal_with_fuel(spans_from, 2);
    assert(s.subrange(0, s.len() as int) =~= s);
    if has_start_component(s) {
        assert(s =~= seq!['.']);
    }
    assert(spans(s) =~= seq![(0int, s.len() as int)]);
    assert(components_of(s) =~= seq![s]);
}

/// A word that starts with a letter and has no slash is a path of one component.
pub proof fn word_is_one_component(s: Seq<char>)
    requires
        s.len() > 0,
        s[0] != '.',
        forall|i: int| 0 <= i < s.len() ==> s[i] != '/',
    ensures
        components_of(s) == seq![s],
        !has_start_component(s),
{
    assert(seq!['.'][0] == '.');
    piece_is_one_component(s);
}

/// A text without slashes that is no special component is a path of one component.
pub proof fn single_component(s: Seq<char>)
    requires
        s.len() > 0,
        s[0] != '.',
        forall|i: int| 0 <= i < s.len() ==> s[i] != '/',
    ensures
        components_of(s) == seq![s],
        is_name(s),
{
    assert(s != seq!['/'] && s != seq!['.'] && s != seq!['.', '.']) by {
        assert(seq!['/'][0] == '/' && seq!['.'][0] == '.' && seq!['.', '.'][0] == '.');
    }
    piece_is_one_component(s);
}

proof fn spans_have_no_separator(s: Seq<char>, i: int, n: int, k: int)
    requires
        0 <= i,
        0 <= n < spans_from(s, i).len(),
        spans_from(s, i)[n].0 <= k < spans_from(s, i)[n].1,
    ensures
        0 <= k < s.len(),
        s[k] != '/',
        spans_from(s, i)[n].1 <= s.len(),
    decreases s.len() + 1 - i,
{
    let end = piece_end(s, i);
    text::first_index_is_first(s.skip(i), '/');
    if is_skipped(s.subrange(i, end)) {
        spans_have_no_separator(s, end + 1, n, k);
    } else if n == 0 {
        assert(s.skip(i)[k - i] == s[k]);
    } else {
        spans_have_no_separator(s, end + 1, n - 1, k);
    }
}

/// A component that is a name is a path of one component: itself.
pub proof fn name_is_one_component(s: Seq<char>, n: int)
    requires
        0 <= n < components_of(s).len(),
        is_name(components_of(s)[n]),
    ensures
        components_of(components_of(s)[n]) == seq![components_of(s)[n]],
        !has_start_component(components_of(s)[n]),
{
    let name = components_of(s)[n];
    let range = spans(s)[n];
    spans_are_ordered(s);
    assert(range.0 < range.1 <= s.len());
    let first: int = if has_start_component(s) {
        1
    } else {
        0
    };
    if has_start_component(s) && n == 0 {
        assert(name =~= seq![s[0]]);
    }
    assert forall|i: int| 0 <= i < name.len() implies name[i] != '/' by {
        spans_have_no_separator(s, first, n - first, range.0 + i);
    }
    piece_is_one_component(name);
}

/// A parent is shorter than its path.
pub proof fn parent_is_shorter(s: Seq<char>)
    ensures
        parent_of(s) matches Some(parent) ==> parent.len() < s.len(),
{
    spans_are_ordered(s);
    let ranges = spans(s);
    if ranges.len() > 1 {
        assert(ranges[ranges.len() - 2].1 <= ranges[ranges.len() - 1].0);
        assert(ranges[ranges.len() - 1].0 < ranges[ranges.len() - 1].1);
    } else if ranges.len() == 1 {
        assert(ranges[0].0 < ranges[0].1);
    }
}

/// A path and the paths above it, from itself up.
pub open spec fn ancestors_of(s: Seq<char>) -> Seq<Seq<char>>
    decreases s.len(),
{
    match parent_of(s) {
        Some(parent) => if parent.len() < s.len() {
            seq![s] + ancestors_of(parent)
        } else {
            seq![s]
        },
        None => seq![s],
    }
}

/// A path and the paths above it, from itself up.
pub fn ancestors(path: &str) -> (out: Vec<String>)
    ensures
        text::views(out@) == ancestors_of(path@),
{
    let mut out: Vec<String> = Vec::new();
    let mut current = path.to_owned();
    assert(text::views(out@) + ancestors_of(current@) =~= ancestors_of(path@));
    loop
        invariant
            text::views(out@) + ancestors_of(current@) == ancestors_of(path@),
        decreases current@.len(),
    {
        let ghost before = out@;
        let next = parent(current.as_str());
        proof {
            parent_is_shorter(current@);
            assert(text::views(before.push(current)) =~= text::views(before).push(current@));
        }
        out.push(current);
        match next {
            Some(above) => {
                assert(text::views(before).push(current@) + ancestors_of(above@) =~= text::views(
                    before,
                ) + (seq![current@] + ancestors_of(above@)));
                current = above;
            },
            None => {
                assert(text::views(out@) =~= text::views(before) + seq![current@]);
                return out;
            },
        }
    }
}

proof fn spans_start_again(s: Seq<char>, i: int, n: int)
    requires
        0 <= i,
        0 <= n < spans_from(s, i).len(),
    ensures
        spans_from(s, spans_from(s, i)[n].0) == spans_from(s, i).skip(n),
        !is_skipped(s.subrange(spans_from(s, i)[n].0, spans_from(s, i)[n].1)),
        spans_from(s, i)[n].1 == piece_end(s, spans_from(s, i)[n].0),
    decreases s.len() + 1 - i,
{
    let k = piece_end(s, i);
    text::first_index_is_first(s.skip(i), '/');
    if is_skipped(s.subrange(i, k)) {
        spans_start_again(s, k + 1, n);
    } else if n == 0 {
        assert(spans_from(s, i).skip(0) =~= spans_from(s, i));
    } else {
        spans_start_again(s, k + 1, n - 1);
        assert(spans_from(s, i).skip(n) =~= spans_from(s, k + 1).skip(n - 1));
    }
}

#[verifier::rlimit(60)]
proof fn spans_need_no_tail(s: Seq<char>, i: int)
    requires
        0 <= i,
        spans_from(s, i).len() > 0,
    ensures
        spans_from(s.take(spans_from(s, i).last().1), i) == spans_from(s, i),
    decreases s.len() + 1 - i,
{
    let all = spans_from(s, i);
    let e = all.last().1;
    let t = s.take(e);
    let k = piece_end(s, i);
    spans_from_are_ordered(s, i);
    text::first_index_is_first(s.skip(i), '/');
    let rest = spans_from(s, k + 1);
    if is_skipped(s.subrange(i, k)) || rest.len() > 0 {
        spans_from_are_ordered(s, k + 1);
        assert(all.last() == rest.last());
        assert(k + 1 <= rest.last().0);
        assert(rest.last().0 < e);
        spans_need_no_tail(s, k + 1);
        assert(k < e);
    } else {
        assert(all =~= seq![(i, k)]);
        assert(spans_from(t, k + 1) =~= Seq::empty());
    }
    assert forall|j: int| 0 <= j < k - i implies t.skip(i)[j] != '/' by {
        assert(t.skip(i)[j] == s.skip(i)[j]);
    }
    if k < e {
        assert(t.skip(i)[k - i] == s.skip(i)[k - i]);
    }
    text::first_index_unique(t.skip(i), '/', k - i);
    assert(t.subrange(i, k) =~= s.subrange(i, k));
    assert(spans_from(t, i) =~= all);
}

/// The text of a path from one of its components on has the components from there on.
#[verifier::rlimit(60)]
pub proof fn text_from_keeps_components(s: Seq<char>, n: int)
    requires
        0 <= n <= components_of(s).len(),
        n > 0 || !has_start_component(s),
    ensures
        components_of(text_from(s, n)) == components_of(s).skip(n),
        !has_start_component(text_from(s, n)),
{
    let ranges = spans(s);
    let rel = text_from(s, n);
    if n == ranges.len() {
        assert(spans(rel) =~= Seq::empty());
        assert(components_of(rel) =~= components_of(s).skip(n));
    } else {
        let first: int = if has_start_component(s) {
            1
        } else {
            0
        };
        let inner = spans_from(s, first);
        let m = n - first;
        assert(ranges[n] == inner[m]);
        assert(ranges.last() == inner.last());
        spans_from_are_ordered(s, first);
        spans_start_again(s, first, m);
        let a = inner[m].0;
        let e = inner.last().1;
        let t = s.take(e);
        let tail = spans_from(s, a);
        assert(tail =~= inner.skip(m));
        assert(tail.last() == inner.last());
        spans_need_no_tail(s, a);
        assert(t.skip(a) =~= rel);
        spans_of_tail(t, rel, a, 0);
        text::first_index_is_first(s.skip(a), '/');
        assert(inner[m].1 <= e) by {
            if m < inner.len() - 1 {
                assert(inner[m].1 < inner[inner.len() - 1].0);
            }
        }
        let k = inner[m].1 - a;
        assert(s.skip(a)[0] == rel[0]);
        assert(rel[0] != '/');
        if rel[0] == '.' && (rel.len() == 1 || rel[1] == '/') {
            if k > 1 {
                assert(s.skip(a)[1] == rel[1]);
            }
            assert(k == 1);
            assert(s.subrange(a, inner[m].1) =~= seq!['.']);
        }
        assert(!has_start_component(rel));
        assert(components_of(rel) =~= span_texts(rel, spans_from(rel, 0)));
        assert(span_texts(t, tail) =~= components_of(s).skip(n)) by {
            assert forall|j: int| 0 <= j < tail.len() implies #[trigger] t.subrange(
                tail[j].0,
                tail[j].1,
            ) == components_of(s)[n + j] by {
                assert(tail[j] == ranges[n + j]);
                assert(inner[m + j].1 <= e) by {
                    if m + j < inner.len() - 1 {
                        assert(inner[m + j].1 < inner[inner.len() - 1].0);
                    }
                }
                assert(t.subrange(tail[j].0, tail[j].1) =~= s.subrange(tail[j].0, tail[j].1));
            }
        }
    }
}

/// What is left of a path without a directory that it begins with has the components behind those of
/// the directory.
pub proof fn stripping_drops_components(s: Seq<char>, base: Seq<char>)
    requires
        components_of(base).len() > 0,
    ensures
        stripped(s, base) matches Some(rel) ==> components_of(s) == components_of(base)
            + components_of(rel),
{
    if under(s, base) {
        let n = components_of(base).len() as int;
        text_from_keeps_components(s, n);
        assert(components_of(s) =~= components_of(s).take(n) + components_of(s).skip(n));
    }
}

#[verifier::rlimit(60)]
proof fn spans_of_prefix(s: Seq<char>, i: int, m: int)
    requires
        0 <= i,
        0 <= m < spans_from(s, i).len(),
    ensures
        spans_from(s.take(spans_from(s, i)[m].1), i) == spans_from(s, i).take(m + 1),
    decreases s.len() + 1 - i,
{
    let all = spans_from(s, i);
    let e = all[m].1;
    let t = s.take(e);
    let k = piece_end(s, i);
    spans_from_are_ordered(s, i);
    text::first_index_is_first(s.skip(i), '/');
    let rest = spans_from(s, k + 1);
    let skipped = is_skipped(s.subrange(i, k));
    if skipped || m > 0 {
        let inner = if skipped {
            m
        } else {
            m - 1
        };
        spans_from_are_ordered(s, k + 1);
        assert(all[m] == rest[inner]);
        assert(k + 1 <= rest[inner].0);
        spans_of_prefix(s, k + 1, inner);
        assert(k < e);
    } else {
        assert(all[0] == (i, k));
        assert(spans_from(t, k + 1) =~= Seq::empty());
    }
    assert forall|j: int| 0 <= j < k - i implies t.skip(i)[j] != '/' by {
        assert(t.skip(i)[j] == s.skip(i)[j]);
    }
    if k < e {
        assert(t.skip(i)[k - i] == s.skip(i)[k - i]);
    }
    text::first_index_unique(t.skip(i), '/', k - i);
    assert(t.subrange(i, k) =~= s.subrange(i, k));
    assert(spans_from(t, i) =~= all.take(m + 1));
}

/// The parent of a path has all its components but the last.
#[verifier::rlimit(60)]
pub proof fn parents_drop_the_last_component(s: Seq<char>)
    ensures
        parent_of(s) matches Some(parent) ==> components_of(parent) == components_of(s).drop_last(),
{
    let ranges = spans(s);
    spans_are_ordered(s);
    if parent_of(s) is Some {
        let parent = parent_of(s)->0;
        if ranges.len() == 1 {
            assert(spans(parent) =~= Seq::empty());
            assert(components_of(parent) =~= components_of(s).drop_last());
        } else {
            let n = ranges.len() as int;
            let e = ranges[n - 2].1;
            assert(e > 0);
            assert(parent[0] == s[0]);
            if has_start_component(s) {
                let inner = spans_from(s, 1);
                if n == 2 {
                    assert(e == 1);
                    assert(spans_from(parent, 1) =~= Seq::empty());
                    assert(spans(parent) =~= ranges.take(1));
                } else {
                    assert(inner[n - 3] == ranges[n - 2]);
                    spans_from_are_ordered(s, 1);
                    if e > 1 {
                        assert(parent[1] == s[1]);
                    }
                    assert(has_start_component(parent));
                    spans_of_prefix(s, 1, n - 3);
                    assert(spans(parent) =~= ranges.take(n - 1));
                }
            } else {
                if parent.len() > 1 {
                    assert(parent[1] == s[1]);
                }
                if has_start_component(parent) {
                    assert(parent.len() == 1 && parent[0] == '.');
                    spans_start_again(s, 0, n - 2);
                    spans_from_are_ordered(s, 0);
                    assert(ranges[n - 2] == (0int, 1int));
                    assert(s.subrange(0, 1) =~= seq!['.']);
                }
                spans_of_prefix(s, 0, n - 2);
                assert(spans(parent) =~= ranges.take(n - 1));
            }
            assert forall|j: int| 0 <= j < n - 1 implies #[trigger] components_of(parent)[j]
                == components_of(s)[j] by {
                assert(spans(parent)[j] == ranges[j]);
                if j < n - 2 {
                    assert(ranges[j].1 <= ranges[n - 2].0);
                }
                assert(parent.subrange(ranges[j].0, ranges[j].1) =~= s.subrange(
                    ranges[j].0,
                    ranges[j].1,
                ));
            }
            assert(components_of(parent) =~= components_of(s).drop_last());
        }
    }
}

/// A path with another file name has that name in the place of its last component.
pub proof fn renaming_replaces_the_last_component(s: Seq<char>, name: Seq<char>)
    requires
        file_name_of(s) is Some,
        components_of(name) == seq![name],
        !has_start_component(name),
    ensures
        components_of(renamed(s, name)) == components_of(s).drop_last().push(name),
{
    named_path_has_parent(s);
    parents_drop_the_last_component(s);
    join_appends_components(parent_of(s)->0, name);
    assert(components_of(s).drop_last() + seq![name] =~= components_of(s).drop_last().push(name));
}

/// The parent of a directory's entry is the directory, as it is written, where it does not end with a
/// slash.
pub proof fn parent_of_joined(dir: Seq<char>, name: Seq<char>)
    requires
        components_of(name) == seq![name],
        !has_start_component(name),
        components_of(dir).len() > 0,
        spans(dir).last().1 == dir.len(),
        dir.last() != '/',
    ensures
        parent_of(path_joined(dir, name)) == Some(dir),
{
    let s = path_joined(dir, name);
    join_spans(dir, name);
    let n = spans(dir).len() as int;
    assert(components_of(name).len() == spans(name).len());
    assert(seq![name].len() == 1);
    assert(spans(s).len() == n + 1);
    assert(spans(s)[n - 1] == spans(dir)[n - 1]);
    assert(s.take(dir.len() as int) =~= dir);
}

#[verifier::rlimit(60)]
proof fn join_spans(base: Seq<char>, rel: Seq<char>)
    requires
        base.len() > 0,
        base.last() != '/',
        !has_start_component(rel),
    ensures
        spans(path_joined(base, rel)) == spans(base) + spans_from(
            path_joined(base, rel),
            base.len() + 1int,
        ),
        spans_from(path_joined(base, rel), base.len() + 1int).len() == spans(rel).len(),
        forall|n: int|
            0 <= n < spans(rel).len() ==> (#[trigger] spans_from(
                path_joined(base, rel),
                base.len() + 1int,
            )[n]) == (spans(rel)[n].0 + base.len() + 1, spans(rel)[n].1 + base.len() + 1),
{
    let s = path_joined(base, rel);
    let head = base.push('/');
    let at: int = if has_start_component(base) {
        1
    } else {
        0
    };
    assert(s =~= head + rel);
    spans_of_head(head, rel, at);
    spans_with_final_separator(base, at);
    assert(s.skip(head.len() as int) =~= rel);
    spans_of_tail(s, rel, head.len() as int, 0);
    if base.len() > 1 {
        assert(s[1] == base[1]);
    }
    assert(spans(s) =~= spans(base) + spans_from(s, head.len() as int));
}

/// An entry of a directory ends with its last component.
#[verifier::rlimit(60)]
pub proof fn last_span_of_join(dir: Seq<char>, name: Seq<char>)
    requires
        components_of(name) == seq![name],
        !has_start_component(name),
    ensures
        spans(path_joined(dir, name)).len() > 0,
        spans(path_joined(dir, name)).last().1 == path_joined(dir, name).len(),
        spans(path_joined(dir, name)).last().0 == path_joined(dir, name).len() - name.len(),
{
    let s = path_joined(dir, name);
    assert(components_of(name).len() == spans(name).len());
    assert(seq![name].len() == 1);
    spans_are_ordered(name);
    assert(components_of(name)[0] == name);
    assert(spans(name)[0] == (0int, name.len() as int)) by {
        assert(spans(name)[0].1 - spans(name)[0].0 == name.len());
    }
    if dir.len() == 0 {
        assert(s == name);
    } else if dir.last() == '/' {
        let at: int = if has_start_component(dir) {
            1
        } else {
            0
        };
        assert(s =~= dir + name);
        spans_of_head(dir, name, at);
        assert(s.skip(dir.len() as int) =~= name);
        spans_of_tail(s, name, dir.len() as int, 0);
        if dir.len() > 1 {
            assert(s[1] == dir[1]);
        }
        assert(spans(s) =~= spans(dir) + spans_from(s, dir.len() as int));
        assert(spans(s).last() == spans_from(s, dir.len() as int)[0]);
    } else {
        join_spans(dir, name);
        assert(spans(s).last() == spans_from(s, dir.len() + 1int)[0]);
    }
}

/// Taking the extension off a directory's entry leaves the entry without it.
#[verifier::rlimit(60)]
pub proof fn extensionless_keeps_the_rest(dir: Seq<char>, name: Seq<char>, extension: Seq<char>)
    requires
        components_of(name + extension) == seq![name + extension],
        !has_start_component(name + extension),
        is_name(name + extension),
        stem_of(name + extension) == name,
        name.len() > 0,
    ensures
        extensionless(path_joined(dir, name + extension)) == path_joined(dir, name),
{
    let full = name + extension;
    let s = path_joined(dir, full);
    join_appends_components(dir, full);
    assert(components_of(s).last() == full);
    last_span_of_join(dir, full);
    assert(name[0] == full[0]);
    assert(absolute(full) == absolute(name));
    assert(s.take(s.len() - full.len() + name.len()) =~= path_joined(dir, name));
}

/// A path comes first among those above it, each of the others is the parent of the one before, and
/// the last has no parent.
pub proof fn ancestors_are_parents(s: Seq<char>, i: int)
    requires
        0 <= i < ancestors_of(s).len(),
    ensures
        ancestors_of(s)[0] == s,
        i + 1 < ancestors_of(s).len() ==> parent_of(ancestors_of(s)[i]) == Some(
            ancestors_of(s)[i + 1],
        ),
        i + 1 == ancestors_of(s).len() ==> parent_of(ancestors_of(s)[i]) is None,
    decreases s.len(),
{
    parent_is_shorter(s);
    if let Some(parent) = parent_of(s) {
        let rest = ancestors_of(parent);
        assert(ancestors_of(s) =~= seq![s] + rest);
        reveal_with_fuel(ancestors_of, 2);
        assert(rest.len() > 0 && rest[0] == parent);
        if i > 0 {
            ancestors_are_parents(parent, i - 1);
        }
    }
}

/// The extension of a file is what stands behind the last dot of its name, and its stem what stands
/// before it.
pub proof fn extensions_follow_the_last_dot(stem: Seq<char>, extension: Seq<char>)
    requires
        stem.len() > 0,
        forall|i: int| 0 <= i < extension.len() ==> extension[i] != '.',
    ensures
        extension_in(stem.push('.') + extension) == Some(extension),
        stem_of(stem.push('.') + extension) == stem,
{
    let name = stem.push('.') + extension;
    crate::proposal::dot_behind(stem, extension);
    assert(name.skip(stem.len() as int + 1) =~= extension);
    assert(name.take(stem.len() as int) =~= stem);
}

/// A path that starts at the root is the same from everywhere, and any other stands below where it is
/// seen from.
pub proof fn joined_paths_start_where_they_are_seen_from(base: Seq<char>, rel: Seq<char>)
    ensures
        rel.len() > 0 && rel[0] == '/' ==> path_joined(base, rel) == rel,
        !has_start_component(rel) ==> under(path_joined(base, rel), base),
{
    if !has_start_component(rel) {
        join_appends_components(base, rel);
        let first = components_of(base);
        assert((first + components_of(rel)).take(first.len() as int) =~= first);
    }
}

} // verus!
