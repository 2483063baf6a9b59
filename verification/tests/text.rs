use app_extract_info::text::{
    chars_of, contains, cut_all, ends_with_at, find_last, matches_at, read_u32, same_text,
    str_contains,
};

fn chars(s: &str) -> Vec<char> {
    s.chars().collect()
}

#[test]
fn chars_of_keeps_every_character() {
    assert_eq!(chars_of("a/ü€😀"), vec!['a', '/', 'ü', '€', '😀']);
    assert_eq!(chars_of(""), Vec::<char>::new());
}

#[test]
fn same_text_compares_contents() {
    assert!(same_text("name", "name"));
    assert!(!same_text("name", "Name"));
    assert!(!same_text("name", "names"));
    assert!(same_text("", ""));
}

#[test]
fn matches_at_looks_at_one_place() {
    assert!(matches_at(&chars("hello"), &chars("ell"), 1));
    assert!(!matches_at(&chars("hello"), &chars("ell"), 0));
    assert!(!matches_at(&chars("hello"), &chars("llo!"), 2));
    assert!(matches_at(&chars("hello"), &chars(""), 5));
    assert!(!matches_at(&chars("hello"), &chars(""), 6));
    assert!(!matches_at(&chars("hello"), &chars("o"), usize::MAX));
}

#[test]
fn contains_finds_a_part_anywhere() {
    assert!(contains(&chars("android:versionCode"), &chars("versionCode")));
    assert!(contains(&chars("versionCode"), &chars("versionCode")));
    assert!(contains(&chars("abc"), &chars("")));
    assert!(contains(&chars(""), &chars("")));
    assert!(!contains(&chars("versionCod"), &chars("versionCode")));
    assert!(!contains(&chars(""), &chars("a")));
    assert!(contains(&chars("aab"), &chars("ab")));
}

#[test]
fn str_contains_agrees_with_the_standard_search() {
    let hays = ["", "a", "ab", "aab", "abab", "Payload/Foo.app/Icon.png", "名前.png"];
    let needles = ["", "a", "b", "ab", "ba", ".app/Icon.png", "前.", "png", "x"];
    for hay in hays {
        for needle in needles {
            assert_eq!(str_contains(hay, needle), hay.contains(needle), "{:?} in {:?}", needle, hay);
        }
    }
}

#[test]
fn cut_all_removes_every_occurrence() {
    assert_eq!(cut_all(&chars("ab12ab34"), &chars("ab")), chars("1234"));
    assert_eq!(cut_all(&chars("aaa"), &chars("aa")), chars("a"));
    assert_eq!(cut_all(&chars("abab"), &chars("ab")), chars(""));
    assert_eq!(cut_all(&chars("xyz"), &chars("ab")), chars("xyz"));
    assert_eq!(cut_all(&chars("aabb"), &chars("ab")), chars("ab"));
    assert_eq!(cut_all(&chars("xyz"), &chars("")), chars("xyz"));
    assert_eq!(cut_all(&chars(""), &chars("ab")), chars(""));
}

#[test]
fn cut_all_agrees_with_the_standard_replace() {
    let texts = ["", "a", "aa", "aaa", "aaaa", "abaab", "ResourceValueType::Reference/12", "xaay"];
    let patterns = ["a", "aa", "ab", "ResourceValueType::Reference/", "y"];
    for text in texts {
        for pattern in patterns {
            assert_eq!(
                cut_all(&chars(text), &chars(pattern)),
                chars(&text.replace(pattern, "")),
                "{:?} without {:?}",
                text,
                pattern
            );
        }
    }
}

#[test]
fn read_u32_reads_decimal_digits() {
    assert_eq!(read_u32(&chars("0")), Some(0));
    assert_eq!(read_u32(&chars("42")), Some(42));
    assert_eq!(read_u32(&chars("007")), Some(7));
    assert_eq!(read_u32(&chars("2131165186")), Some(2131165186));
    assert_eq!(read_u32(&chars("4294967295")), Some(u32::MAX));
    assert_eq!(read_u32(&chars("+17")), Some(17));
}

#[test]
fn read_u32_rejects_what_is_no_number() {
    for text in ["", "+", "-1", "1 ", " 1", "12a", "0x10", "1.0", "++1", "1+", "٣"] {
        assert_eq!(read_u32(&chars(text)), None, "{:?}", text);
    }
}

#[test]
fn read_u32_rejects_what_does_not_fit() {
    assert_eq!(read_u32(&chars("4294967296")), None);
    assert_eq!(read_u32(&chars("42949672950")), None);
    assert_eq!(read_u32(&chars("99999999999999999999999999")), None);
    assert_eq!(read_u32(&chars("00000000004294967295")), Some(u32::MAX));
}

#[test]
fn read_u32_agrees_with_the_standard_parser() {
    for text in ["", "+", "+0", "-0", "12", "4294967295", "4294967296", "1_000", "١٢", "1e3"] {
        assert_eq!(read_u32(&chars(text)), text.parse::<u32>().ok(), "{:?}", text);
    }
}

#[test]
fn find_last_searches_from_a_place_on() {
    assert_eq!(find_last(&chars("a/b/c"), 0, '/'), Some(3));
    assert_eq!(find_last(&chars("a/b/c"), 4, '/'), None);
    assert_eq!(find_last(&chars("a/b/c"), 3, '/'), Some(3));
    assert_eq!(find_last(&chars("abc"), 0, '/'), None);
    assert_eq!(find_last(&chars(""), 0, '/'), None);
    assert_eq!(find_last(&chars("a/b"), 4, '/'), None);
    assert_eq!(find_last(&chars("a/b"), usize::MAX, '/'), None);
}

#[test]
fn ends_with_at_compares_the_rest() {
    assert!(ends_with_at(&chars("file.apk"), &chars("apk"), 5));
    assert!(!ends_with_at(&chars("file.apk"), &chars("ap"), 5));
    assert!(!ends_with_at(&chars("file.apk"), &chars("apk"), 4));
    assert!(ends_with_at(&chars("file."), &chars(""), 5));
    assert!(!ends_with_at(&chars("file."), &chars(""), 6));
    assert!(!ends_with_at(&chars("file."), &chars("e."), usize::MAX));
}
