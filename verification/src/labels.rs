//! The words the directory screen shows beside its rows: the title, the kind
//! of each row, what a row says in its last column and how that column is
//! headed. How they are laid out and coloured is the terminal's business.

use vstd::prelude::*;
use vstd::view::DeepView;

use crate::types::{
    DirectoryView, DirectoryViewState, EntryInfo, EntryInfoView, FileEntry, FileEntryView,
};

verus! {

/// The kind shown for a symbolic link.
pub const SYMLINK_LABEL: &'static str = "symlink";

/// The kind shown for every other child.
pub const FILE_LABEL: &'static str = "file";

/// Stands before the target of a link.
pub const TARGET_ARROW: &'static str = " -> ";

/// Heads the last column when a row reports an error.
pub const ERROR_HEADER: &'static str = "Error";

/// Heads the last column otherwise.
pub const TARGET_HEADER: &'static str = "Link Target";

/// The kind shown for a row.
pub open spec fn type_label_of(entry: FileEntryView) -> Seq<char> {
    if entry.is_symlink {
        SYMLINK_LABEL@
    } else {
        FILE_LABEL@
    }
}

/// What a row shows in its last column: the target behind an arrow, the
/// error message as it is, or nothing.
pub open spec fn info_text_of(info: EntryInfoView) -> Seq<char> {
    match info {
        EntryInfoView::SymlinkTarget(target) => TARGET_ARROW@ + target,
        EntryInfoView::Error(message) => message,
        EntryInfoView::NoInfo => Seq::empty(),
    }
}

/// Some row reports an error.
pub open spec fn has_error_row(rows: Seq<FileEntryView>) -> bool {
    exists|k: int| 0 <= k < rows.len() && (#[trigger] rows[k]).info is Error
}

/// The heading of the last column for the rows on show.
pub open spec fn last_column_header_of(rows: Seq<FileEntryView>) -> Seq<char> {
    if has_error_row(rows) {
        ERROR_HEADER@
    } else {
        TARGET_HEADER@
    }
}

/// The title of the directory screen: the query during text entry, the
/// directory with the query while a filter is set, the directory alone
/// otherwise.
pub open spec fn title_of(screen: DirectoryViewState) -> Seq<char> {
    if screen.search_mode {
        " Search: "@ + screen.search_query + " "@
    } else if screen.search_query.len() > 0 {
        " Directory: "@ + screen.current_path + " (filtered: "@ + screen.search_query + ") "@
    } else {
        " Directory: "@ + screen.current_path + " "@
    }
}

/// The kind shown for `entry`.
pub fn type_label(entry: &FileEntry) -> (label: &'static str)
    ensures
        label@ == type_label_of(entry@),
{
    if entry.is_symlink {
        SYMLINK_LABEL
    } else {
        FILE_LABEL
    }
}

/// What a row with `info` shows in its last column.
pub fn info_text(info: &EntryInfo) -> (text: String)
    ensures
        text@ == info_text_of(info@),
{
    match info {
        EntryInfo::SymlinkTarget(target) => {
            let mut text = String::from_str(TARGET_ARROW);
            text.append(target.as_str());
            text
        },
        EntryInfo::Error(message) => message.clone(),
        EntryInfo::NoInfo => String::new(),
    }
}

/// The heading of the last column for the rows on show.
pub fn last_column_header(rows: &[FileEntry]) -> (header: &'static str)
    ensures
        header@ == last_column_header_of(rows.deep_view()),
{
    let mut i: usize = 0;
    while i < rows.len()
        invariant
            i <= rows@.len(),
            forall|k: int| 0 <= k < i ==> !((#[trigger] rows@[k])@.info is Error),
        decreases rows@.len() - i,
    {
        match rows[i].info {
            EntryInfo::Error(_) => {
                assert(rows.deep_view()[i as int] == rows@[i as int]@);
                return ERROR_HEADER;
            },
            _ => {},
        }
        i += 1;
    }
    let ghost shown = rows.deep_view();
    assert forall|k: int| 0 <= k < shown.len() implies !((#[trigger] shown[k]).info is Error) by {
        assert(shown[k] == rows@[k]@);
    }
    TARGET_HEADER
}

/// The title of the directory screen.
pub fn title(screen: &DirectoryView) -> (title: String)
    ensures
        title@ == title_of(screen@),
{
    if screen.search_mode {
        let mut title = String::from_str(" Search: ");
        title.append(screen.search_query.as_str());
        title.append(" ");
        title
    } else if !screen.search_query.as_str().is_empty() {
        let mut title = String::from_str(" Directory: ");
        title.append(screen.current_path.as_str());
        title.append(" (filtered: ");
        title.append(screen.search_query.as_str());
        title.append(") ");
        title
    } else {
        let mut title = String::from_str(" Directory: ");
        title.append(screen.current_path.as_str());
        title.append(" ");
        title
    }
}

} // verus!
