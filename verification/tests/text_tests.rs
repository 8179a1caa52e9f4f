use path_inspect::text::{chars_of, contains, contains_chars, name_precedes};

#[test]
fn chars_of_gives_every_character() {
    assert_eq!(chars_of("aé\u{10000}z"), vec!['a', 'é', '\u{10000}', 'z']);
    assert!(chars_of("").is_empty());
}

#[test]
fn contains_finds_parts_at_every_place() {
    assert!(contains("readme.md", "read"));
    assert!(contains("readme.md", "me.m"));
    assert!(contains("readme.md", ".md"));
    assert!(contains("readme.md", "readme.md"));
}

#[test]
fn contains_rejects_what_is_not_there() {
    assert!(!contains("readme.md", "bin"));
    assert!(!contains("readme.md", "readme.mdx"));
    assert!(!contains("ab", "ba"));
    assert!(!contains("", "a"));
    assert!(!contains("aab", "abb"));
}

#[test]
fn empty_needle_is_in_every_text() {
    assert!(contains("abc", ""));
    assert!(contains("", ""));
}

#[test]
fn contains_is_exact_about_case() {
    assert!(!contains("BINARY", "bin"));
    assert!(contains("BINARY", "BIN"));
}

#[test]
fn contains_chars_handles_overlaps() {
    let haystack: Vec<char> = "aaab".chars().collect();
    let needle: Vec<char> = "aab".chars().collect();
    assert!(contains_chars(&haystack, &needle));
    let absent: Vec<char> = "aba".chars().collect();
    assert!(!contains_chars(&haystack, &absent));
}

#[test]
fn capitals_sort_before_small_letters() {
    assert!(name_precedes("Apple", "apple"));
    assert!(!name_precedes("apple", "Apple"));
    assert!(name_precedes("apple", "banana"));
    assert!(!name_precedes("banana", "apple"));
    assert!(name_precedes("Apple", "banana"));
}

#[test]
fn a_prefix_sorts_first() {
    assert!(name_precedes("bin", "binary"));
    assert!(!name_precedes("binary", "bin"));
    assert!(name_precedes("", "a"));
    assert!(!name_precedes("a", ""));
}

#[test]
fn equal_names_precede_each_other() {
    assert!(name_precedes("same", "same"));
    assert!(name_precedes("", ""));
}

#[test]
fn order_is_that_of_code_points() {
    assert!(name_precedes("z", "é"));
    assert!(!name_precedes("é", "z"));
    assert!(name_precedes("\u{ffff}", "\u{10000}"));
    assert!(!name_precedes("\u{10000}", "\u{ffff}"));
    for (a, b) in [("a", "b"), ("Z", "a"), ("é", "z"), ("x\u{7ff}", "x\u{800}")] {
        assert_eq!(name_precedes(a, b), a <= b);
        assert_eq!(name_precedes(b, a), b <= a);
    }
}
