//! The browser's state machine: two screens, one highlighted row, and a search
//! over the directory screen.
//!
//! The machine never touches the file system. When a directory is to be
//! opened, `handle_key` hands back its path; the caller reads that directory
//! and reports what it found through `select_path`.

use vstd::prelude::*;
use vstd::view::DeepView;
use vstd::view::View as _;

use crate::filter::{filter, filter_entries, lemma_filter_is_part};
use crate::lister::{list_directory, listing_of, read_view, ChildRead};
use crate::path_source::{list_path_entries, path_entries_of};
use crate::types;
use crate::types::{DirectoryView, DirectoryViewState, FileEntryView};

verus! {

/// A key press as the machine understands it.
#[derive(Debug, PartialEq, Eq, Structural, Clone, Copy)]
pub enum Key {
    /// A printable character.
    Char(char),
    Backspace,
    Enter,
    Esc,
    Up,
    Down,
    /// Any key the browser has no use for.
    Other,
}

/// The whole state of the browser.
#[derive(Debug)]
pub struct App {
    /// Set once the user has asked to quit.
    pub exit: bool,
    selected_index: usize,
    path_list_selected_index: usize,
    current_view: types::View,
    directory_view: Option<DirectoryView>,
    path_entries: Vec<String>,
}

/// The state of the browser as mathematical values.
pub ghost struct AppState {
    pub exit: bool,
    /// The highlighted row of the active screen.
    pub selected_index: nat,
    /// The row of the path list that the open directory was chosen from.
    pub path_list_selected_index: nat,
    pub current_view: types::View,
    pub directory_view: Option<DirectoryViewState>,
    /// The entries of the search path, fixed when the browser starts.
    pub path_entries: Seq<Seq<char>>,
}

impl AppState {
    /// The browser as it starts: the path list with its first row highlighted.
    pub open spec fn initial(path_entries: Seq<Seq<char>>) -> AppState {
        AppState {
            exit: false,
            selected_index: 0,
            path_list_selected_index: 0,
            current_view: types::View::PathList,
            directory_view: None,
            path_entries,
        }
    }

    /// How many rows the active screen shows.
    pub open spec fn row_count(self) -> nat {
        match self.current_view {
            types::View::PathList => self.path_entries.len(),
            types::View::DirectoryContents => match self.directory_view {
                Some(screen) => screen.display_contents().len(),
                None => 0,
            },
        }
    }

    /// Keys are taken as text for the query.
    pub open spec fn in_search(self) -> bool {
        &&& self.current_view == types::View::DirectoryContents
        &&& self.directory_view is Some
        &&& self.directory_view->0.search_mode
    }

    /// What holds of every state the browser reaches.
    pub open spec fn wf(self) -> bool {
        &&& self.current_view == types::View::DirectoryContents <==> self.directory_view is Some
        &&& self.selected_index == 0 || self.selected_index < self.row_count()
        &&& self.directory_view is Some ==> {
            let screen = self.directory_view->0;
            &&& self.path_list_selected_index < self.path_entries.len()
            &&& screen.current_path == self.path_entries[self.path_list_selected_index as int]
            &&& screen.filtered_contents.len() <= screen.directory_contents.len()
            &&& screen.search_query.len() > 0 ==> screen.filtered_contents == filter_entries(
                screen.directory_contents,
                screen.search_query,
            )
        }
    }

    /// The query set to `query`, the filtered rows computed anew and the first
    /// row highlighted. The empty query clears the filtered rows without
    /// filtering.
    pub open spec fn with_query(self, query: Seq<char>) -> AppState {
        match self.directory_view {
            Some(screen) => AppState {
                selected_index: 0,
                directory_view: Some(
                    DirectoryViewState {
                        search_query: query,
                        filtered_contents: if query.len() == 0 {
                            Seq::empty()
                        } else {
                            filter_entries(screen.directory_contents, query)
                        },
                        ..screen
                    },
                ),
                ..self
            },
            None => self,
        }
    }

    /// Text entry begins with an empty query.
    pub open spec fn search_started(self) -> AppState {
        match self.directory_view {
            Some(screen) => AppState {
                directory_view: Some(
                    DirectoryViewState { search_mode: true, search_query: Seq::empty(), ..screen },
                ),
                ..self
            },
            None => self,
        }
    }

    /// Text entry ends; the query and the filtered rows stay.
    pub open spec fn search_confirmed(self) -> AppState {
        match self.directory_view {
            Some(screen) => AppState {
                directory_view: Some(DirectoryViewState { search_mode: false, ..screen }),
                ..self
            },
            None => self,
        }
    }

    /// The search is given up: no text entry, no query, no filtered rows, and
    /// the first row highlighted.
    pub open spec fn search_cleared(self) -> AppState {
        match self.directory_view {
            Some(screen) => AppState {
                selected_index: 0,
                directory_view: Some(
                    DirectoryViewState {
                        search_mode: false,
                        search_query: Seq::empty(),
                        filtered_contents: Seq::empty(),
                        ..screen
                    },
                ),
                ..self
            },
            None => self,
        }
    }

    /// The highlight one row up, unless it is on the first row.
    pub open spec fn moved_up(self) -> AppState {
        if self.selected_index > 0 {
            AppState { selected_index: (self.selected_index - 1) as nat, ..self }
        } else {
            self
        }
    }

    /// The highlight one row down, unless it is on the last row or there is
    /// no row.
    pub open spec fn moved_down(self) -> AppState {
        if self.selected_index + 1 < self.row_count() {
            AppState { selected_index: self.selected_index + 1, ..self }
        } else {
            self
        }
    }

    /// Back on the path list, on the row the directory was chosen from.
    pub open spec fn back_to_path_list(self) -> AppState {
        AppState {
            current_view: types::View::PathList,
            selected_index: self.path_list_selected_index,
            directory_view: None,
            ..self
        }
    }

    /// The state after a key press.
    pub open spec fn after_key(self, key: Key) -> AppState {
        if self.in_search() {
            let query = self.directory_view->0.search_query;
            match key {
                Key::Char(c) => self.with_query(query.push(c)),
                Key::Backspace => self.with_query(
                    if query.len() == 0 {
                        query
                    } else {
                        query.drop_last()
                    },
                ),
                Key::Enter => self.search_confirmed(),
                Key::Esc => self.search_cleared(),
                _ => self,
            }
        } else {
            match key {
                Key::Char(c) => if c == 'q' {
                    AppState { exit: true, ..self }
                } else if c == '/' && self.current_view == types::View::DirectoryContents {
                    self.search_started()
                } else {
                    self
                },
                Key::Up => self.moved_up(),
                Key::Down => self.moved_down(),
                Key::Esc => match self.directory_view {
                    Some(screen) => if self.current_view != types::View::DirectoryContents {
                        self
                    } else if screen.search_query.len() > 0 {
                        self.search_cleared()
                    } else {
                        self.back_to_path_list()
                    },
                    None => self,
                },
                _ => self,
            }
        }
    }

    /// The directory that a key press asks the caller to read: the
    /// highlighted entry, when Enter is pressed on a row of the path list.
    pub open spec fn request_of(self, key: Key) -> Option<Seq<char>> {
        if !self.in_search() && key == Key::Enter && self.current_view == types::View::PathList
            && self.selected_index < self.path_entries.len() {
            Some(self.path_entries[self.selected_index as int])
        } else {
            None
        }
    }

    /// The state after the highlighted entry's directory was read and gave
    /// `listing`: the directory screen on its first row, with the row of the
    /// path list remembered. Off the path list, or with no row highlighted
    /// there, nothing changes.
    pub open spec fn after_select(self, listing: Seq<FileEntryView>) -> AppState {
        if self.current_view == types::View::PathList && self.selected_index
            < self.path_entries.len() {
            AppState {
                path_list_selected_index: self.selected_index,
                directory_view: Some(
                    DirectoryViewState {
                        directory_contents: listing,
                        ..DirectoryViewState::fresh(self.path_entries[self.selected_index as int])
                    },
                ),
                current_view: types::View::DirectoryContents,
                selected_index: 0,
                ..self
            }
        } else {
            self
        }
    }
}

/// The browser starts in a state that is well formed.
pub proof fn lemma_initial_wf(path_entries: Seq<Seq<char>>)
    ensures
        AppState::initial(path_entries).wf(),
{
}

/// A key press leads from a well-formed state to a well-formed state.
pub proof fn lemma_after_key_wf(state: AppState, key: Key)
    requires
        state.wf(),
    ensures
        state.after_key(key).wf(),
{
    if state.directory_view is Some {
        let screen = state.directory_view->0;
        let query = screen.search_query;
        match key {
            Key::Char(c) => {
                lemma_filter_is_part(screen.directory_contents, query.push(c));
            },
            Key::Backspace => {
                if query.len() > 0 {
                    lemma_filter_is_part(screen.directory_contents, query.drop_last());
                }
            },
            _ => {},
        }
    }
}

/// Opening a directory leads from a well-formed state to a well-formed state.
pub proof fn lemma_after_select_wf(state: AppState, listing: Seq<FileEntryView>)
    requires
        state.wf(),
    ensures
        state.after_select(listing).wf(),
{
}

/// In every state the browser reaches, the highlight is on a row of the
/// active screen: never past the last row, and on row 0 where the screen
/// has no rows.
pub proof fn lemma_highlight_in_bounds(state: AppState)
    requires
        state.wf(),
    ensures
        state.row_count() == 0 ==> state.selected_index == 0,
        state.row_count() > 0 ==> state.selected_index <= state.row_count() - 1,
{
}

/// A move changes the highlight by at most one row and nothing else: down
/// goes to the next row where there is one, up to the row before. A highlight
/// that is on a row stays on a row. In text entry the two keys are not taken
/// as moves; otherwise they are exactly these steps.
pub proof fn lemma_moves_step_by_one(state: AppState)
    ensures
        state.moved_down() == (AppState {
            selected_index: if state.selected_index + 1 < state.row_count() {
                state.selected_index + 1
            } else {
                state.selected_index
            },
            ..state
        }),
        state.moved_up() == (AppState {
            selected_index: if state.selected_index > 0 {
                (state.selected_index - 1) as nat
            } else {
                state.selected_index
            },
            ..state
        }),
        state.moved_down().row_count() == state.row_count(),
        state.moved_up().row_count() == state.row_count(),
        state.selected_index < state.row_count() ==> {
            &&& state.moved_down().selected_index < state.row_count()
            &&& state.moved_up().selected_index < state.row_count()
        },
        state.wf() ==> state.moved_down().wf() && state.moved_up().wf(),
        !state.in_search() ==> {
            &&& state.after_key(Key::Down) == state.moved_down()
            &&& state.after_key(Key::Up) == state.moved_up()
        },
        state.in_search() ==> {
            &&& state.after_key(Key::Down) == state
            &&& state.after_key(Key::Up) == state
        },
{
}

/// On a screen without rows, moving up or down changes nothing.
pub proof fn lemma_moves_on_empty_screen(state: AppState)
    requires
        state.wf(),
        state.row_count() == 0,
    ensures
        state.after_key(Key::Up) == state,
        state.after_key(Key::Down) == state,
{
}

/// Typing two characters and erasing one leaves the query one character
/// longer than it was, with the rows filtered by exactly that query.
pub proof fn lemma_type_two_erase_one(state: AppState, first: char, second: char)
    requires
        state.in_search(),
    ensures
        ({
            let contents = state.directory_view->0.directory_contents;
            let query = state.directory_view->0.search_query.push(first);
            let end = state.after_key(Key::Char(first)).after_key(Key::Char(second)).after_key(
                Key::Backspace,
            );
            &&& end.in_search()
            &&& end.directory_view->0.search_query == query
            &&& end.directory_view->0.filtered_contents == filter_entries(contents, query)
            &&& end.directory_view->0.directory_contents == contents
            &&& end.selected_index == 0
        }),
{
    let query = state.directory_view->0.search_query.push(first);
    assert(query.push(second).drop_last() =~= query);
}

/// Erasing the only character of the query clears the filtered rows and
/// puts the highlight on the first row.
pub proof fn lemma_erase_last_char(state: AppState)
    requires
        state.in_search(),
        state.directory_view->0.search_query.len() == 1,
    ensures
        ({
            let end = state.after_key(Key::Backspace);
            &&& end.in_search()
            &&& end.directory_view->0.search_query.len() == 0
            &&& end.directory_view->0.filtered_contents.len() == 0
            &&& end.directory_view->0.display_contents()
                == state.directory_view->0.directory_contents
            &&& end.selected_index == 0
        }),
{
}

/// Choosing a row of the path list and leaving the directory again with
/// Esc comes back to the path list with the highlight on that row.
pub proof fn lemma_select_then_escape(state: AppState, listing: Seq<FileEntryView>)
    requires
        state.current_view == types::View::PathList,
        state.selected_index < state.path_entries.len(),
    ensures
        state.request_of(Key::Enter) == Some(state.path_entries[state.selected_index as int]),
        state.after_key(Key::Enter) == state,
        state.after_select(listing).current_view == types::View::DirectoryContents,
        state.after_select(listing).directory_view->0.search_query.len() == 0,
        state.after_select(listing).after_key(Key::Esc) == (AppState {
            path_list_selected_index: state.selected_index,
            directory_view: None,
            ..state
        }),
{
}

/// The state of the directory screen, where there is one.
pub open spec fn screen_view(screen: Option<DirectoryView>) -> Option<DirectoryViewState> {
    match screen {
        Some(screen) => Some(screen@),
        None => None,
    }
}

/// A text, where there is one, as characters.
pub open spec fn text_view(text: Option<String>) -> Option<Seq<char>> {
    match text {
        Some(text) => Some(text@),
        None => None,
    }
}

impl vstd::view::View for App {
    type V = AppState;

    closed spec fn view(&self) -> AppState {
        AppState {
            exit: self.exit,
            selected_index: self.selected_index as nat,
            path_list_selected_index: self.path_list_selected_index as nat,
            current_view: self.current_view,
            directory_view: screen_view(self.directory_view),
            path_entries: self.path_entries.deep_view(),
        }
    }
}

impl Default for App {
    /// The browser for an absent search path.
    fn default() -> (app: Self)
        ensures
            app@ == AppState::initial(Seq::empty()),
            app@.wf(),
    {
        App::new(None)
    }
}

impl App {
    /// The browser for the given search path, on the path list with its
    /// first row highlighted.
    pub fn new(search_path: Option<&str>) -> (app: Self)
        ensures
            app@ == AppState::initial(
                path_entries_of(
                    match search_path {
                        Some(text) => Some(text@),
                        None => None,
                    },
                ),
            ),
            app@.wf(),
    {
        App {
            exit: false,
            selected_index: 0,
            path_list_selected_index: 0,
            current_view: types::View::PathList,
            directory_view: None,
            path_entries: list_path_entries(search_path),
        }
    }

    /// Whether the user has asked to quit.
    pub fn exit_requested(&self) -> (exit: bool)
        ensures
            exit == self@.exit,
    {
        self.exit
    }

    /// The highlighted row of the active screen.
    pub fn selected_index(&self) -> (index: usize)
        ensures
            index == self@.selected_index,
    {
        self.selected_index
    }

    /// The row of the path list that the open directory was chosen from.
    pub fn path_list_selected_index(&self) -> (index: usize)
        ensures
            index == self@.path_list_selected_index,
    {
        self.path_list_selected_index
    }

    /// The active screen.
    pub fn current_view(&self) -> (screen: types::View)
        ensures
            screen == self@.current_view,
    {
        self.current_view
    }

    /// The directory screen, while a directory is open.
    pub fn directory_view(&self) -> (screen: Option<&DirectoryView>)
        ensures
            screen is Some == self@.directory_view is Some,
            screen is Some ==> screen->0@ == self@.directory_view->0,
    {
        self.directory_view.as_ref()
    }

    /// The entries of the search path.
    pub fn path_entries(&self) -> (entries: &Vec<String>)
        ensures
            entries.deep_view() == self@.path_entries,
    {
        &self.path_entries
    }

    /// How many rows the active screen shows.
    pub fn row_count(&self) -> (count: usize)
        ensures
            count == self@.row_count(),
    {
        match self.current_view {
            types::View::PathList => self.path_entries.len(),
            types::View::DirectoryContents => match &self.directory_view {
                Some(screen) => screen.get_display_contents().len(),
                None => 0,
            },
        }
    }

    /// Takes one key press. In text entry the key edits the query; otherwise
    /// it moves the highlight, starts or gives up a search, leaves the
    /// directory, or quits. Enter on a row of the path list changes nothing
    /// yet: the path handed back is the directory to read, and `select_path`
    /// takes what the read gave.
    pub fn handle_key(&mut self, key: Key) -> (request: Option<String>)
        ensures
            final(self)@ == old(self)@.after_key(key),
            text_view(request) == old(self)@.request_of(key),
            old(self)@.wf() ==> final(self)@.wf(),
    {
        proof {
            if self@.wf() {
                lemma_after_key_wf(self@, key);
            }
        }
        if self.searching() {
            match key {
                Key::Char(c) => {
                    self.push_query(c);
                    self.filter_contents();
                },
                Key::Backspace => {
                    if self.pop_query() {
                        self.drop_filtered();
                    } else {
                        self.filter_contents();
                    }
                },
                Key::Enter => self.confirm_search(),
                Key::Esc => self.clear_search(),
                _ => {},
            }
            return None;
        }
        match key {
            Key::Char(c) => {
                if c == 'q' {
                    self.exit = true;
                } else if c == '/' {
                    if self.current_view == types::View::DirectoryContents {
                        self.start_search();
                    }
                }
                None
            },
            Key::Up => {
                self.navigate_up();
                None
            },
            Key::Down => {
                self.navigate_down();
                None
            },
            Key::Enter => {
                if self.current_view == types::View::PathList && self.selected_index
                    < self.path_entries.len() {
                    Some(self.path_entries[self.selected_index].clone())
                } else {
                    None
                }
            },
            Key::Esc => {
                if self.current_view == types::View::DirectoryContents {
                    let searched = match &self.directory_view {
                        Some(screen) => Some(!screen.search_query.as_str().is_empty()),
                        None => None,
                    };
                    match searched {
                        Some(true) => self.clear_search(),
                        Some(false) => self.go_back_to_path_list(),
                        None => {},
                    }
                }
                None
            },
            _ => None,
        }
    }

    /// Opens the highlighted entry of the path list with what reading its
    /// directory gave, and remembers the row. Off the path list, or where no
    /// entry is highlighted, nothing changes.
    pub fn select_path(&mut self, read: Result<Vec<ChildRead>, String>)
        ensures
            final(self)@ == old(self)@.after_select(listing_of(read_view(read))),
            old(self)@.wf() ==> final(self)@.wf(),
    {
        proof {
            if self@.wf() {
                lemma_after_select_wf(self@, listing_of(read_view(read)));
            }
        }
        if self.current_view == types::View::PathList && self.selected_index
            < self.path_entries.len() {
            self.path_list_selected_index = self.selected_index;
            let mut directory_view = DirectoryView::new(
                self.path_entries[self.selected_index].clone(),
            );
            Self::load_directory_contents(&mut directory_view, read);
            self.directory_view = Some(directory_view);
            self.current_view = types::View::DirectoryContents;
            self.selected_index = 0;
        }
    }

    /// Replaces the listing of `directory_view` by the one for `read`.
    fn load_directory_contents(
        directory_view: &mut DirectoryView,
        read: Result<Vec<ChildRead>, String>,
    )
        ensures
            final(directory_view)@ == (DirectoryViewState {
                directory_contents: listing_of(read_view(read)),
                ..old(directory_view)@
            }),
    {
        directory_view.directory_contents = list_directory(read);
    }

    fn searching(&self) -> (yes: bool)
        ensures
            yes == self@.in_search(),
    {
        match &self.directory_view {
            Some(screen) => screen.search_mode && self.current_view
                == types::View::DirectoryContents,
            None => false,
        }
    }

    /// Appends `c` to the query.
    fn push_query(&mut self, c: char)
        requires
            old(self).directory_view is Some,
        ensures
            *final(self) == (App {
                directory_view: Some(
                    DirectoryView {
                        search_query: final(self).directory_view->0.search_query,
                        ..old(self).directory_view->0
                    },
                ),
                ..*old(self)
            }),
            final(self).directory_view->0.search_query@ == old(
                self,
            ).directory_view->0.search_query@.push(c),
    {
        match &mut self.directory_view {
            Some(screen) => {
                screen.search_query.push(c);
            },
            None => {},
        }
    }

    /// Removes the last character of the query and says whether the query is
    /// now empty.
    fn pop_query(&mut self) -> (emptied: bool)
        requires
            old(self).directory_view is Some,
        ensures
            *final(self) == (App {
                directory_view: Some(
                    DirectoryView {
                        search_query: final(self).directory_view->0.search_query,
                        ..old(self).directory_view->0
                    },
                ),
                ..*old(self)
            }),
            final(self).directory_view->0.search_query@ == ({
                let query = old(self).directory_view->0.search_query@;
                if query.len() == 0 {
                    query
                } else {
                    query.drop_last()
                }
            }),
            emptied == (final(self).directory_view->0.search_query@.len() == 0),
    {
        match &mut self.directory_view {
            Some(screen) => {
                screen.search_query.pop();
                screen.search_query.as_str().is_empty()
            },
            None => true,
        }
    }

    /// Empties the filtered rows and highlights the first row.
    fn drop_filtered(&mut self)
        requires
            old(self).directory_view is Some,
        ensures
            final(self)@ == (AppState {
                selected_index: 0,
                directory_view: Some(
                    DirectoryViewState {
                        filtered_contents: Seq::empty(),
                        ..old(self)@.directory_view->0
                    },
                ),
                ..old(self)@
            }),
    {
        match &mut self.directory_view {
            Some(screen) => {
                screen.filtered_contents.clear();
                assert(screen.filtered_contents.deep_view() =~= Seq::empty());
            },
            None => {},
        }
        self.selected_index = 0;
    }

    fn confirm_search(&mut self)
        ensures
            final(self)@ == old(self)@.search_confirmed(),
    {
        match &mut self.directory_view {
            Some(screen) => {
                screen.search_mode = false;
            },
            None => {},
        }
    }

    /// Moves the highlight one row up; on the first row nothing changes.
    pub fn navigate_up(&mut self)
        ensures
            final(self)@ == old(self)@.moved_up(),
            old(self)@.wf() ==> final(self)@.wf(),
    {
        if self.selected_index > 0 {
            self.selected_index -= 1;
        }
    }

    /// Moves the highlight one row down; on the last row, or where the
    /// active screen has no row, nothing changes.
    pub fn navigate_down(&mut self)
        ensures
            final(self)@ == old(self)@.moved_down(),
            old(self)@.wf() ==> final(self)@.wf(),
    {
        let max_index = self.row_count().saturating_sub(1);
        if self.selected_index < max_index {
            self.selected_index += 1;
        }
    }

    fn start_search(&mut self)
        ensures
            final(self)@ == old(self)@.search_started(),
    {
        match &mut self.directory_view {
            Some(screen) => {
                screen.search_mode = true;
                screen.search_query.clear();
            },
            None => {},
        }
    }

    /// Computes the filtered rows anew from the query and highlights the
    /// first row. The machine filters only by a query that is not empty.
    fn filter_contents(&mut self)
        requires
            old(self)@.directory_view is Some ==> old(self)@.directory_view->0.search_query.len()
                > 0,
        ensures
            final(self)@ == (match old(self)@.directory_view {
                Some(screen) => AppState {
                    selected_index: 0,
                    directory_view: Some(
                        DirectoryViewState {
                            filtered_contents: filter_entries(
                                screen.directory_contents,
                                screen.search_query,
                            ),
                            ..screen
                        },
                    ),
                    ..old(self)@
                },
                None => old(self)@,
            }),
    {
        match &mut self.directory_view {
            Some(screen) => {
                screen.filtered_contents = filter(
                    &screen.directory_contents,
                    screen.search_query.as_str(),
                );
                self.selected_index = 0;
            },
            None => {},
        }
    }

    fn clear_search(&mut self)
        ensures
            final(self)@ == old(self)@.search_cleared(),
    {
        match &mut self.directory_view {
            Some(screen) => {
                screen.search_mode = false;
                screen.search_query.clear();
                screen.filtered_contents.clear();
                assert(screen.filtered_contents.deep_view() =~= Seq::empty());
                self.selected_index = 0;
            },
            None => {},
        }
    }

    fn go_back_to_path_list(&mut self)
        ensures
            final(self)@ == old(self)@.back_to_path_list(),
    {
        self.current_view = types::View::PathList;
        self.selected_index = self.path_list_selected_index;
        self.directory_view = None;
    }
}

} // verus!
