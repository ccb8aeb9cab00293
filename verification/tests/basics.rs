use std::path::{Component, Path};
use yedit::docs::ViewMode;
use yedit::json::{at, flag_at, text_at, text_or_empty, texts_at, Json};
use yedit::paths;
use yedit::text;

#[test]
fn mode_names() {
    for mode in [ViewMode::Markdown, ViewMode::Split, ViewMode::Text] {
        assert_eq!(ViewMode::parse(mode.as_str()), Some(mode));
    }
    assert_eq!(ViewMode::parse("split"), Some(ViewMode::Split));
    assert_eq!(ViewMode::parse("Split"), None);
}

#[test]
fn spaces_are_those_of_std() {
    for n in 0..=0x10ffffu32 {
        if let Some(c) = char::from_u32(n) {
            assert_eq!(text::space(c), c.is_whitespace(), "{n:x}");
        }
    }
}

#[test]
fn texts_are_trimmed_and_split_as_std_does() {
    let samples = [
        "", " ", "a", " a", "a ", " a b ", "\t\u{a0}x\u{3000}\r\n", "GET /x HTTP/1.1\r\n", "one",
        "\u{2003}two\u{2003}words", "a:b:c", ":", "no colon", "aaa", "abab", "\u{1f600}:\u{e9}",
        "a\r\n\r\nb\r\n\r\nc", "\r\n\r\n", "x?y?z",
    ];
    for s in samples {
        assert_eq!(text::trim(s), s.trim(), "{s:?}");
        let mut words = s.split_whitespace();
        let first = words.next().map(str::to_string);
        let second = words.next().map(str::to_string);
        assert_eq!(text::two_words(s), (first, second), "{s:?}");
        assert_eq!(text::count_words(s), s.split_whitespace().count(), "{s:?}");
        assert_eq!(text::count_char(s, 'a'), s.matches('a').count(), "{s:?}");
        assert_eq!(text::chars_of(s), s.chars().collect::<Vec<_>>());
        for needle in ["", ":", "a", "ab", "aa", "\r\n\r\n", "?"] {
            let halves =
                s.split_once(needle).map(|(a, b)| (a.to_string(), b.to_string()));
            assert_eq!(text::split_once(s, needle), halves, "{s:?} {needle:?}");
            assert_eq!(text::has(s, needle), s.contains(needle), "{s:?} {needle:?}");
            assert_eq!(
                text::count_matches(s, needle),
                s.matches(needle).count() as u128,
                "{s:?} {needle:?}"
            );
            assert_eq!(
                text::strip_prefix(s, needle),
                s.strip_prefix(needle).map(str::to_string),
                "{s:?} {needle:?}"
            );
        }
        for t in samples {
            assert_eq!(text::same(s, t), s == t);
            assert_eq!(text::same_ignoring_case(s, t), s.eq_ignore_ascii_case(t));
        }
    }
    assert!(text::same_ignoring_case("Content-LENGTH", "content-length"));
    assert!(!text::same_ignoring_case("\u{c9}", "\u{e9}"));
    assert!(text::same_option(&Some("a".to_string()), "a"));
    assert!(!text::same_option(&None, ""));
    assert_eq!(text::join2("a", "b"), "ab");
    assert_eq!(text::join3("a", "b", "c"), "abc");
}

#[test]
fn numerals_are_those_of_std() {
    for n in [0u128, 1, 9, 10, 99, 100, 12345, u64::MAX as u128, u128::MAX] {
        assert_eq!(text::decimal_text(n), n.to_string());
        assert_eq!(text::parse_usize(&n.to_string()), n.to_string().parse().ok());
    }
    for s in ["", "+", "+5", "-5", "5a", "007", "18446744073709551615", "18446744073709551616", " 1", "٣"] {
        assert_eq!(text::parse_usize(s), s.parse().ok(), "{s:?}");
    }
    let mut out = "x".to_string();
    text::push_hex(&mut out, 0xbeef, 8);
    assert_eq!(out, "x0000beef");
}

#[test]
fn paths_are_those_of_std() {
    let samples = [
        "", "/", "//", ".", "..", "./", "../", "a", "a/", "a//", "/a", "/a/", "//a", "/a/b", "a/b",
        "a//b", "a/./b", "a/.", "./a", "././a", "/./a", "/.", "/..", "a/..", "a/../b", "a.b", ".a",
        ".a.b", "a.", "a..", "a.b.c", "/x/.hidden", "/x/y.tar.gz", "/x/y.MD", "x y/z w.txt", "...",
        "a/...", "/home/u/\u{e9}.md", "\u{1f600}", "~", "~/x", "a/b/", "a/b/.", "a/b/./", "/a/./",
    ];
    for s in samples {
        let path = Path::new(s);
        let parts: Vec<String> = path
            .components()
            .map(|c| match c {
                Component::RootDir => "/".to_string(),
                other => other.as_os_str().to_str().unwrap().to_string(),
            })
            .collect();
        assert_eq!(paths::split(s), parts, "{s:?}");
        assert_eq!(paths::absolute(s), path.is_absolute(), "{s:?}");
        let text = |t: Option<&Path>| t.map(|t| t.to_str().unwrap().to_string());
        assert_eq!(paths::parent_of(s), text(path.parent()), "{s:?}");
        let name = path.file_name().map(|n| n.to_str().unwrap().to_string());
        assert_eq!(paths::name_of(s), name, "{s:?}");
        let extension = path.extension().map(|n| n.to_str().unwrap().to_string());
        assert_eq!(paths::extension_of(s), extension, "{s:?}");
        for t in samples {
            assert_eq!(paths::equal(s, t), path == Path::new(t), "{s:?} {t:?}");
            assert_eq!(paths::join(s, t), path.join(t).to_str().unwrap(), "{s:?} {t:?}");
        }
    }
}

#[test]
fn json_members_and_items() {
    let value = Json::object()
        .with("a", Json::text("x"))
        .with("a", Json::text("y"))
        .with("b", Json::Bool(true))
        .with("c", Json::array().and(Json::text("1")).and(Json::Null).and(Json::text("2")))
        .with("d", Json::Number("3".to_string()));
    assert_eq!(text_at(Some(&value), "a"), Some("x"), "the first member counts");
    assert_eq!(text_at(Some(&value), "b"), None);
    assert_eq!(text_or_empty(Some(&value), "z"), "");
    assert_eq!(flag_at(Some(&value), "b"), Some(true));
    assert_eq!(flag_at(Some(&value), "d"), None);
    assert_eq!(texts_at(Some(&value), "c"), vec!["1", "2"]);
    assert!(texts_at(Some(&value), "a").is_empty());
    assert!(at(Some(&value), "z").is_none());
    assert!(at(None, "a").is_none());
    assert!(at(at(Some(&value), "a"), "a").is_none());
    assert!(matches!(Json::Null.with("k", Json::Null), Json::Null));
    assert!(matches!(Json::text("t").and(Json::Null), Json::Text(t) if t == "t"));
    let rows = vec!["p".to_string(), "q".to_string()];
    assert_eq!(texts_at(Some(&Json::object().with("r", Json::texts(&rows))), "r"), rows);
}
