use std::path::Path;

use build_eips::dates::date_of_commit;
use build_eips::path;
use build_eips::path_set::{order_of_paths, order_of_texts, Order, PathSet};
use build_eips::text;

const PATHS: [&str; 26] = [
    "", "/", ".", "..", "a", "a/", "/a", "a/b", "a//b", "a/./b", "./a", "./", "a/..", "../a",
    "/a/b.md", "a.b/c.d.e", ".hidden", "a/.hidden", "a/b/", "//a", "/..", "a.", "...", "a/...",
    "\u{e9}/\u{1f600}.md", " a /b ",
];

const TEXTS: [&str; 16] = [
    "", "a", " a ", "\t\n", "a,b", ",", "a,,b", "\u{a0}x\u{3000}", "00042", "42", "+7", "-7",
    "4294967296", "a\r\nb\n", "a\n\nb", "x\u{85}",
];

fn text_of(path: Option<&Path>) -> Option<String> {
    path.map(|path| path.to_str().unwrap().to_owned())
}

#[test]
fn paths_are_taken_apart_as_std_does() {
    for path in PATHS {
        let std_path = Path::new(path);
        let parts: Vec<String> = std_path
            .components()
            .map(|part| part.as_os_str().to_str().unwrap().to_owned())
            .collect();
        assert_eq!(path::components(path), parts, "{path}");
        assert_eq!(path::is_absolute(path), std_path.is_absolute(), "{path}");
        assert_eq!(path::parent(path), text_of(std_path.parent()), "{path}");
        assert_eq!(path::file_name(path), text_of(std_path.file_name().map(Path::new)), "{path}");
        assert_eq!(path::file_stem(path), text_of(std_path.file_stem().map(Path::new)), "{path}");
        assert_eq!(path::extension(path), text_of(std_path.extension().map(Path::new)), "{path}");
        assert_eq!(
            path::without_extension(path),
            std_path.with_extension("").to_str().unwrap(),
            "{path}"
        );
        assert_eq!(
            path::with_file_name(path, "n"),
            std_path.with_file_name("n").to_str().unwrap(),
            "{path}"
        );
        let ancestors: Vec<String> =
            std_path.ancestors().map(|dir| dir.to_str().unwrap().to_owned()).collect();
        assert_eq!(path::ancestors(path), ancestors, "{path}");
    }
}

#[test]
fn pairs_of_paths_relate_as_std_has_it() {
    for a in PATHS {
        for b in PATHS {
            let (left, right) = (Path::new(a), Path::new(b));
            assert_eq!(path::join(a, b), left.join(right).to_str().unwrap(), "{a} {b}");
            assert_eq!(path::starts_with(a, b), left.starts_with(right), "{a} {b}");
            assert_eq!(path::ends_with(a, b), left.ends_with(right), "{a} {b}");
            assert_eq!(path::equal(a, b), left == right, "{a} {b}");
            assert_eq!(
                path::strip_prefix(a, b),
                text_of(left.strip_prefix(right).ok()),
                "{a} {b}"
            );
            let order = match left.cmp(right) {
                std::cmp::Ordering::Less => Order::Before,
                std::cmp::Ordering::Equal => Order::Same,
                std::cmp::Ordering::Greater => Order::After,
            };
            assert_eq!(order_of_paths(a, b), order, "{a} {b}");
        }
    }
}

#[test]
fn texts_are_taken_apart_as_std_does() {
    for text in TEXTS {
        assert_eq!(text::trim(text), text.trim(), "{text:?}");
        let pieces: Vec<&str> = text.split(',').collect();
        assert_eq!(text::split(text, ','), pieces, "{text:?}");
        let lines: Vec<&str> = text.lines().collect();
        assert_eq!(text::lines(text), lines, "{text:?}");
        assert_eq!(text::parse_u32(text), text.parse::<u32>().ok(), "{text:?}");
        assert_eq!(text::parse_i64(text), text.parse::<i64>().ok(), "{text:?}");
        assert_eq!(text::trim_leading(text, 'a'), text.trim_start_matches('a'), "{text:?}");
        assert_eq!(text::replace_char(text, 'a', '_'), text.replace('a', "_"), "{text:?}");
        for other in TEXTS {
            assert_eq!(text::starts_with(text, other), text.starts_with(other));
            assert_eq!(text::ends_with(text, other), text.ends_with(other));
            assert_eq!(text::contains(text, other), text.contains(other));
            assert_eq!(text::text_eq(text, other), text == other);
            assert_eq!(
                text::strip_prefix(text, other).as_deref(),
                text.strip_prefix(other),
                "{text:?} {other:?}"
            );
            let order = if text < other {
                Order::Before
            } else if text == other {
                Order::Same
            } else {
                Order::After
            };
            assert_eq!(order_of_texts(text, other), order, "{text:?} {other:?}");
        }
    }
}

#[test]
fn white_space_is_that_of_std() {
    for code in 0..0x3100 {
        if let Some(c) = char::from_u32(code) {
            assert_eq!(text::white_space(c), c.is_whitespace(), "{code:x}");
        }
    }
    assert!(!text::white_space('\u{feff}'));
}

#[test]
fn numbers_are_written_in_decimal() {
    for number in [0, 1, 9, 10, 42, 65535, 4294967295] {
        assert_eq!(text::decimal(number), number.to_string());
    }
    assert_eq!(text::zero_pad("42", 5), "00042");
    assert_eq!(text::zero_pad("123456", 5), "123456");
    assert_eq!(text::join(&vec!["a".to_owned(), "b".to_owned()], ", "), "a, b");
    assert_eq!(text::join(&Vec::new(), ", "), "");
    assert_eq!(text::glue(vec!["a", "", "b"]), "ab");
    assert_eq!(text::wrap("<", "x", ">"), "<x>");
}

#[test]
fn sets_of_paths_are_those_of_std() {
    let mut set = PathSet::new();
    let mut wanted = std::collections::BTreeSet::new();
    assert!(set.is_empty());
    for path in PATHS.iter().chain(TEXTS.iter()) {
        assert_eq!(set.insert(path.to_string()), wanted.insert(Path::new(*path).to_path_buf()));
        assert!(set.contains(path));
    }
    let listed: Vec<String> =
        wanted.iter().map(|path| path.to_str().unwrap().to_owned()).collect();
    assert_eq!(set.to_vec(), listed);
    assert_eq!(set.len(), wanted.len());
    assert_eq!(set.get(0), listed[0]);
    assert_eq!(set.copy().to_vec(), listed);
    assert!(!set.contains("not there"));
}

#[test]
fn commit_times_are_dates() {
    assert_eq!(date_of_commit(0).unwrap(), "1970-01-01T00:00:00+00:00");
    assert_eq!(date_of_commit(1700000000).unwrap(), "2023-11-14T22:13:20+00:00");
    assert_eq!(date_of_commit(i64::MAX), None);
}
