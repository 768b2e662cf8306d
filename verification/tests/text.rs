use wl_sniper::order::{insert_text, is_before, place, sort_by_number, Numbered};
use wl_sniper::split::{drop_empty, find, is_whitespace, lines, split, words};
use wl_sniper::text::{
    chars_of, contains, join, pad_right, same_text, starts_with, string_of, strip_prefix, to_ascii_lower,
    to_ascii_upper, trim_prefix,
};

fn strings(parts: &[Vec<char>]) -> Vec<String> {
    parts.iter().map(|p| string_of(p)).collect()
}

#[test]
fn characters_and_strings() {
    assert_eq!(chars_of("aé→"), ['a', 'é', '→']);
    assert_eq!(string_of(&['a', 'é', '→']), "aé→");
    assert_eq!(string_of(&[]), "");
    assert!(same_text("ab", "ab"));
    assert!(!same_text("ab", "abc"));
    assert!(!same_text("ab", "aB"));
}

#[test]
fn prefixes_and_parts() {
    for (s, p) in [("event6", "event"), ("event", "event"), ("even", "event"), ("", ""), ("x", ""), ("éa", "é")] {
        assert_eq!(starts_with(s, p), s.starts_with(p));
        assert_eq!(strip_prefix(s, p).as_deref(), s.strip_prefix(p));
        assert_eq!(trim_prefix(s, p), s.strip_prefix(p).unwrap_or(s));
    }
    for (h, n) in [("abcabd", "abd"), ("abc", ""), ("", ""), ("", "a"), ("aab", "ab"), ("ab", "abc"), ("ébc", "bc")] {
        assert_eq!(contains(h, n), h.contains(n));
    }
}

#[test]
fn ascii_case() {
    let s = "aZé{[`@09ß";
    assert_eq!(string_of(&to_ascii_upper(s)), s.to_ascii_uppercase());
    assert_eq!(string_of(&to_ascii_lower(&chars_of(s))), s.to_ascii_lowercase());
}

#[test]
fn joining_and_padding() {
    assert_eq!(join(&vec![], ", "), "");
    assert_eq!(join(&vec!["a".to_string()], ", "), "a");
    assert_eq!(join(&vec!["a".to_string(), "".to_string(), "c".to_string()], ", "), "a, , c");
    for s in ["", "event6", "event12", "event123", "event1234", "éé"] {
        assert_eq!(pad_right(s, 8), format!("{s:<8}"));
    }
}

#[test]
fn splitting_as_the_standard_library_splits() {
    for s in ["", ":", "a:b", ":a::b:", "abc", "é:ß"] {
        let want: Vec<&str> = s.split(':').collect();
        assert_eq!(strings(&split(&chars_of(s), ':')), want);
        let filled: Vec<&str> = s.split(':').filter(|p| !p.is_empty()).collect();
        assert_eq!(strings(&drop_empty(split(&chars_of(s), ':'))), filled);
        assert_eq!(find(&chars_of(s), ':'), s.chars().position(|c| c == ':'));
    }
}

#[test]
fn lines_as_the_standard_library_has_them() {
    for s in ["", "\n", "a", "a\n", "a\nb", "a\r\nb\r\n", "a\r", "\r\n", "\n\n", "a\n\r\nb\r", "a\r\r\n"] {
        let want: Vec<&str> = s.lines().collect();
        assert_eq!(strings(&lines(s)), want, "{s:?}");
    }
}

#[test]
fn words_as_the_standard_library_has_them() {
    for s in ["", " ", "a", " a  b\tc\n", "\u{a0}x\u{3000}y\u{2003}", "1000\t1000 1000", "\u{200b}z"] {
        let want: Vec<&str> = s.split_whitespace().collect();
        assert_eq!(strings(&words(&chars_of(s))), want);
    }
    for u in 0u32..=0x10ffff {
        if let Some(c) = char::from_u32(u) {
            assert_eq!(is_whitespace(c), c.is_whitespace());
        }
    }
}

#[test]
fn order_of_texts() {
    let texts = ["", "a", "ab", "b", "/dev/hidraw1", "/dev/hidraw10", "/dev/hidraw2", "é", "→", "\u{10000}", "\u{ffff}"];
    for a in texts {
        for b in texts {
            assert_eq!(is_before(a, b), a < b);
        }
    }
    let mut list: Vec<String> = Vec::new();
    for t in ["b", "a", "c", "a", "ab"] {
        insert_text(&mut list, t);
    }
    assert_eq!(list, ["a", "ab", "b", "c"]);
    assert_eq!(place(&list, "b"), (2, true));
    assert_eq!(place(&list, "aa"), (1, false));
    assert_eq!(place(&list, "z"), (4, false));
}

#[test]
fn sort_keeps_the_order_of_equals() {
    let list: Vec<Numbered> = [(3u32, "c"), (1, "x"), (3, "a"), (2, "b"), (1, "w")]
        .iter()
        .map(|(n, t)| Numbered { number: *n, text: t.to_string() })
        .collect();
    let sorted: Vec<(u32, String)> = sort_by_number(list).into_iter().map(|n| (n.number, n.text)).collect();
    let mut want = vec![(3u32, "c"), (1, "x"), (3, "a"), (2, "b"), (1, "w")];
    want.sort_by_key(|(n, _)| *n);
    let want: Vec<(u32, String)> = want.into_iter().map(|(n, t)| (n, t.to_string())).collect();
    assert_eq!(sorted, want);
}
