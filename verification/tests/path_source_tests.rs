use path_inspect::path_source::list_path_entries;

#[test]
fn splits_two_segments_in_order() {
    assert_eq!(list_path_entries(Some("/a:/b")), vec!["/a", "/b"]);
}

#[test]
fn empty_text_is_one_empty_entry() {
    assert_eq!(list_path_entries(Some("")), vec![""]);
}

#[test]
fn absent_search_path_has_no_entries() {
    assert!(list_path_entries(None).is_empty());
}

#[test]
fn single_segment_is_one_entry() {
    assert_eq!(list_path_entries(Some("/usr/local/bin")), vec!["/usr/local/bin"]);
}

#[test]
fn empty_segments_are_kept() {
    assert_eq!(list_path_entries(Some("/a::/b")), vec!["/a", "", "/b"]);
    assert_eq!(list_path_entries(Some(":/a")), vec!["", "/a"]);
    assert_eq!(list_path_entries(Some("/a:")), vec!["/a", ""]);
    assert_eq!(list_path_entries(Some(":")), vec!["", ""]);
}

#[test]
fn nothing_is_trimmed_or_deduplicated() {
    assert_eq!(
        list_path_entries(Some(" /a :/b:/b:/nowhere/é")),
        vec![" /a ", "/b", "/b", "/nowhere/é"]
    );
}

#[test]
fn one_entry_more_than_separators() {
    let text = "/usr/bin:/bin:/usr/sbin:/sbin:/opt/x/bin";
    let entries = list_path_entries(Some(text));
    assert_eq!(entries.len(), text.matches(':').count() + 1);
    assert_eq!(entries.join(":"), text);
}
