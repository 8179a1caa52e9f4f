//! The data the browser shows: directory children and the directory screen.

use vstd::prelude::*;
use vstd::view::DeepView;
use vstd::view::View as _;

verus! {

/// Which screen is active.
#[derive(Debug, PartialEq, Eq, Structural, Clone, Copy)]
pub enum View {
    PathList,
    DirectoryContents,
}

/// What is known about a directory child besides its name.
#[derive(Debug)]
pub enum EntryInfo {
    /// The child is a symbolic link; the text is its target or a placeholder.
    SymlinkTarget(String),
    /// The directory could not be listed; the text says why.
    Error(String),
    /// An ordinary file or directory.
    NoInfo,
}

/// An `EntryInfo` with its texts as character sequences.
pub ghost enum EntryInfoView {
    SymlinkTarget(Seq<char>),
    Error(Seq<char>),
    NoInfo,
}

impl vstd::view::View for EntryInfo {
    type V = EntryInfoView;

    open spec fn view(&self) -> EntryInfoView {
        match *self {
            EntryInfo::SymlinkTarget(target) => EntryInfoView::SymlinkTarget(target@),
            EntryInfo::Error(message) => EntryInfoView::Error(message@),
            EntryInfo::NoInfo => EntryInfoView::NoInfo,
        }
    }
}

impl Clone for EntryInfo {
    fn clone(&self) -> (copy: Self)
        ensures
            copy == *self,
    {
        match self {
            EntryInfo::SymlinkTarget(target) => EntryInfo::SymlinkTarget(target.clone()),
            EntryInfo::Error(message) => EntryInfo::Error(message.clone()),
            EntryInfo::NoInfo => EntryInfo::NoInfo,
        }
    }
}

/// One row of a directory listing.
#[derive(Debug)]
pub struct FileEntry {
    pub name: String,
    pub is_symlink: bool,
    pub info: EntryInfo,
}

/// A `FileEntry` with its texts as character sequences.
pub ghost struct FileEntryView {
    pub name: Seq<char>,
    pub is_symlink: bool,
    pub info: EntryInfoView,
}

impl FileEntryView {
    /// Only a symbolic link carries a link target.
    pub open spec fn wf(self) -> bool {
        self.info is SymlinkTarget ==> self.is_symlink
    }
}

impl vstd::view::View for FileEntry {
    type V = FileEntryView;

    open spec fn view(&self) -> FileEntryView {
        FileEntryView { name: self.name@, is_symlink: self.is_symlink, info: self.info@ }
    }
}

impl DeepView for FileEntry {
    type V = FileEntryView;

    open spec fn deep_view(&self) -> FileEntryView {
        self@
    }
}

impl Clone for FileEntry {
    fn clone(&self) -> (copy: Self)
        ensures
            copy == *self,
    {
        FileEntry {
            name: self.name.clone(),
            is_symlink: self.is_symlink,
            info: self.info.clone(),
        }
    }
}

/// The directory screen: one directory's listing and the search over it.
#[derive(Debug)]
pub struct DirectoryView {
    pub current_path: String,
    pub directory_contents: Vec<FileEntry>,
    pub filtered_contents: Vec<FileEntry>,
    pub search_mode: bool,
    pub search_query: String,
}

/// A `DirectoryView` as mathematical values.
pub ghost struct DirectoryViewState {
    pub current_path: Seq<char>,
    pub directory_contents: Seq<FileEntryView>,
    pub filtered_contents: Seq<FileEntryView>,
    pub search_mode: bool,
    pub search_query: Seq<char>,
}

impl DirectoryViewState {
    /// The screen for `path` before anything is loaded or searched.
    pub open spec fn fresh(path: Seq<char>) -> DirectoryViewState {
        DirectoryViewState {
            current_path: path,
            directory_contents: Seq::empty(),
            filtered_contents: Seq::empty(),
            search_mode: false,
            search_query: Seq::empty(),
        }
    }

    /// The rows on show: the whole listing while no query is set, the
    /// filtered rows otherwise.
    pub open spec fn display_contents(self) -> Seq<FileEntryView> {
        if self.search_query.len() == 0 {
            self.directory_contents
        } else {
            self.filtered_contents
        }
    }
}

impl vstd::view::View for DirectoryView {
    type V = DirectoryViewState;

    open spec fn view(&self) -> DirectoryViewState {
        DirectoryViewState {
            current_path: self.current_path@,
            directory_contents: self.directory_contents.deep_view(),
            filtered_contents: self.filtered_contents.deep_view(),
            search_mode: self.search_mode,
            search_query: self.search_query@,
        }
    }
}

impl DirectoryView {
    /// An empty screen for `path`.
    pub fn new(path: String) -> (view: Self)
        ensures
            view@ == DirectoryViewState::fresh(path@),
    {
        let view = Self {
            current_path: path,
            directory_contents: Vec::new(),
            filtered_contents: Vec::new(),
            search_mode: false,
            search_query: String::new(),
        };
        assert(view.directory_contents.deep_view() =~= Seq::empty());
        assert(view.filtered_contents.deep_view() =~= Seq::empty());
        view
    }

    /// The rows on show. An empty query selects the whole listing without
    /// any filtering.
    pub fn get_display_contents(&self) -> (rows: &[FileEntry])
        ensures
            rows@ == if self.search_query@.len() == 0 {
                self.directory_contents@
            } else {
                self.filtered_contents@
            },
            rows.deep_view() == self@.display_contents(),
    {
        if self.search_query.as_str().is_empty() {
            let rows = self.directory_contents.as_slice();
            assert(rows.deep_view() =~= self.directory_contents.deep_view());
            rows
        } else {
            let rows = self.filtered_contents.as_slice();
            assert(rows.deep_view() =~= self.filtered_contents.deep_view());
            rows
        }
    }

    /// Empties the screen: no path, no rows, no search.
    pub fn clear(&mut self)
        ensures
            final(self)@ == DirectoryViewState::fresh(Seq::empty()),
    {
        self.current_path.clear();
        self.directory_contents.clear();
        self.filtered_contents.clear();
        self.search_mode = false;
        self.search_query.clear();
        assert(self.directory_contents.deep_view() =~= Seq::empty());
        assert(self.filtered_contents.deep_view() =~= Seq::empty());
    }
}

} // verus!
