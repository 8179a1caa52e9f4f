use path_inspect::lister::{
    entry_of_child, insert_sorted, list_directory, unreadable_entry, ChildRead, LinkRead,
    BROKEN_TARGET, ERROR_PREFIX, INVALID_TARGET, UNREADABLE_LABEL,
};
use path_inspect::{EntryInfo, FileEntry};

fn file(name: &str) -> ChildRead {
    ChildRead { name: Some(name.to_string()), link: LinkRead::NotALink }
}

fn names(entries: &[FileEntry]) -> Vec<String> {
    entries.iter().map(|entry| entry.name.clone()).collect()
}

#[test]
fn listing_is_sorted_by_code_point() {
    let listing = list_directory(Ok(vec![file("banana"), file("Apple"), file("apple")]));
    assert_eq!(names(&listing), vec!["Apple", "apple", "banana"]);
}

#[test]
fn listing_of_empty_directory_is_empty() {
    assert!(list_directory(Ok(Vec::new())).is_empty());
}

#[test]
fn sorted_input_and_reversed_input_give_the_same_listing() {
    let forward = list_directory(Ok(vec![file("a"), file("b"), file("c"), file("d")]));
    let backward = list_directory(Ok(vec![file("d"), file("c"), file("b"), file("a")]));
    assert_eq!(names(&forward), vec!["a", "b", "c", "d"]);
    assert_eq!(names(&backward), vec!["a", "b", "c", "d"]);
}

#[test]
fn children_without_a_name_are_left_out() {
    let listing = list_directory(Ok(vec![
        file("b"),
        ChildRead { name: None, link: LinkRead::NotALink },
        ChildRead { name: None, link: LinkRead::Target("x".to_string()) },
        file("a"),
    ]));
    assert_eq!(names(&listing), vec!["a", "b"]);
}

#[test]
fn ordinary_child_has_no_info() {
    let listing = list_directory(Ok(vec![file("cat")]));
    assert_eq!(listing.len(), 1);
    assert!(!listing[0].is_symlink);
    assert!(matches!(listing[0].info, EntryInfo::NoInfo));
}

#[test]
fn link_carries_its_target() {
    let listing = list_directory(Ok(vec![ChildRead {
        name: Some("sh".to_string()),
        link: LinkRead::Target("/bin/dash".to_string()),
    }]));
    assert!(listing[0].is_symlink);
    assert!(matches!(listing[0].info, EntryInfo::SymlinkTarget(ref t) if t == "/bin/dash"));
}

#[test]
fn undecodable_target_gives_the_invalid_placeholder() {
    let listing = list_directory(Ok(vec![ChildRead {
        name: Some("odd".to_string()),
        link: LinkRead::UndecodableTarget,
    }]));
    assert!(listing[0].is_symlink);
    assert!(matches!(listing[0].info, EntryInfo::SymlinkTarget(ref t) if t == "<invalid UTF-8>"));
    assert_eq!(INVALID_TARGET, "<invalid UTF-8>");
}

#[test]
fn unreadable_target_gives_the_broken_placeholder() {
    let listing = list_directory(Ok(vec![ChildRead {
        name: Some("gone".to_string()),
        link: LinkRead::Unreadable,
    }]));
    assert!(listing[0].is_symlink);
    assert!(matches!(listing[0].info, EntryInfo::SymlinkTarget(ref t) if t == "<broken link>"));
    assert_eq!(BROKEN_TARGET, "<broken link>");
}

#[test]
fn failed_read_gives_exactly_one_error_row() {
    let listing = list_directory(Err("Permission denied (os error 13)".to_string()));
    assert_eq!(listing.len(), 1);
    assert_eq!(listing[0].name, "⚠️  Unable to read directory");
    assert_eq!(listing[0].name, UNREADABLE_LABEL);
    assert!(!listing[0].is_symlink);
    match &listing[0].info {
        EntryInfo::Error(message) => {
            assert_eq!(message, "Error: Permission denied (os error 13)");
            assert!(message.contains("Permission denied (os error 13)"));
            assert!(message.starts_with(ERROR_PREFIX));
        }
        _ => panic!("a failed read must give an error row"),
    }
}

#[test]
fn failed_read_with_empty_reason_still_gives_one_row() {
    let entry = unreadable_entry("");
    assert_eq!(entry.name, UNREADABLE_LABEL);
    assert!(matches!(entry.info, EntryInfo::Error(ref m) if m == "Error: "));
}

#[test]
fn rows_of_one_name_keep_their_order() {
    let listing = list_directory(Ok(vec![
        ChildRead { name: Some("x".to_string()), link: LinkRead::Target("first".to_string()) },
        file("a"),
        ChildRead { name: Some("x".to_string()), link: LinkRead::Target("second".to_string()) },
        ChildRead { name: Some("x".to_string()), link: LinkRead::NotALink },
    ]));
    assert_eq!(names(&listing), vec!["a", "x", "x", "x"]);
    assert!(matches!(listing[1].info, EntryInfo::SymlinkTarget(ref t) if t == "first"));
    assert!(matches!(listing[2].info, EntryInfo::SymlinkTarget(ref t) if t == "second"));
    assert!(matches!(listing[3].info, EntryInfo::NoInfo));
}

#[test]
fn insert_sorted_puts_the_row_in_its_place() {
    let mut listing = list_directory(Ok(vec![file("a"), file("c"), file("e")]));
    insert_sorted(&mut listing, entry_of_child("d".to_string(), LinkRead::NotALink));
    insert_sorted(&mut listing, entry_of_child("0".to_string(), LinkRead::NotALink));
    insert_sorted(&mut listing, entry_of_child("z".to_string(), LinkRead::NotALink));
    assert_eq!(names(&listing), vec!["0", "a", "c", "d", "e", "z"]);
}

#[test]
fn listing_sorts_names_beyond_ascii() {
    let listing = list_directory(Ok(vec![file("é"), file("z"), file("Z"), file("10"), file("9")]));
    assert_eq!(names(&listing), vec!["10", "9", "Z", "z", "é"]);
}
