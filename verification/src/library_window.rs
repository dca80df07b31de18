//! The state behind the library window: which library is open, which panel
//! shows, what is unsaved, and what the window must do next.
use vstd::prelude::*;
use crate::ids::{AuthorId, BookId};
use crate::library_model::{new_library_view, LibraryModel, LibraryView};
use crate::library_window::author_gui::{
    author_update, author_update_ok, author_update_post, AuthorGuiState, AuthorMessage,
};
use crate::library_window::author_list_gui::{author_list_update, author_list_update_post, AuthorListMessage};

pub mod author_gui;
pub mod author_list_gui;

verus! {

/// The panel that fills the main part of the window.
#[derive(Debug, Clone, Copy, PartialEq, Eq, Structural)]
pub enum MainPanelEnum {
    Empty,
    BookList,
    AuthorList,
    Book,
    Author,
}

/// Which main panel is selected.
#[derive(Debug, Clone, Copy, PartialEq, Eq, Structural)]
pub struct MainPanelGuiState {
    pub panel_state: MainPanelEnum,
}

impl Default for MainPanelGuiState {
    fn default() -> (r: Self)
        ensures
            r.panel_state == MainPanelEnum::Empty,
    {
        MainPanelGuiState { panel_state: MainPanelEnum::Empty }
    }
}

/// What the book panel is to show when it is selected.
#[derive(Debug, Clone, Copy)]
pub enum BookPanelLoad {
    /// There is no library: the panel keeps what it has.
    Nothing,
    /// The book under this identifier, to be edited or only shown.
    Show(BookId, bool),
    /// An empty book, to be edited or only shown, with the library's authors
    /// to choose from.
    Blank(bool),
}

/// What reading the chosen library file gave.
#[derive(Debug)]
pub enum FileContent {
    /// The file was empty: loading was given up.
    Empty,
    /// The library that the file holds.
    Library(LibraryModel),
    /// The file holds no library.
    Unreadable,
}

impl FileContent {
    /// What reading a library file gave, from the text it holds and the
    /// library, if any, that the text describes: an empty file means loading
    /// was given up, whatever else is said of it.
    pub fn from_read(text: &str, parsed: Option<LibraryModel>) -> (r: FileContent)
        ensures
            text@.len() == 0 ==> r is Empty,
            text@.len() > 0 ==> match parsed {
                Some(lib) => r == FileContent::Library(lib),
                None => r is Unreadable,
            },
    {
        if text.is_empty() {
            return FileContent::Empty;
        }
        match parsed {
            Some(lib) => FileContent::Library(lib),
            None => FileContent::Unreadable,
        }
    }
}

/// What the window is asked to take into account.
#[derive(Debug)]
pub enum Message {
    NewLibrary,
    LoadLibrary,
    /// A file to load was chosen; its name.
    LoadFileSelected(String),
    FileRead(FileContent),
    FileCancelled,
    SaveLibrary,
    /// A file to save into was chosen (its name), and whether it could be
    /// created, after an existing file of that name was set aside.
    SaveFileSelected(String, bool),
    BooksPressed,
    AuthorsPressed,
    DiscardAll,
    AuthorListMessages(AuthorListMessage),
    AuthorMessages(AuthorMessage),
}

/// What the window must do after it has taken a message into account.
#[derive(Debug)]
pub enum GuiAction {
    /// Nothing more.
    Nothing,
    /// Ask the user for a file to load the library from.
    SelectLoadFile,
    /// Read the chosen file, and hand over what it holds.
    ReadFile,
    /// Ask the user for a file to save the library into, proposing this name.
    SelectSaveFile(String),
    /// Write the library into the chosen file.
    WriteLibrary,
    /// Empty the book panel, and the book list panel too where `with_list`.
    ClearBookPanels { with_list: bool },
    /// Fill the book list panel afresh.
    RefreshBookList,
    /// Fill the book panel as said.
    LoadBookPanel(BookPanelLoad),
}

/// The state of the library window.
#[derive(Debug)]
pub struct LibraryGuiState {
    pub library: Option<LibraryModel>,
    pub main_state: MainPanelGuiState,
    pub database_dirty: bool,
    pub mainpanel_dirty: bool,
    pub file_name: String,
    pub messageline: Result<String, String>,
    pub alt_control: bool,
    pub filter: String,
    pub author_state: AuthorGuiState,
}

/// Which of the buttons of the top row can be pressed, and the library name
/// shown there.
#[derive(Debug, PartialEq, Eq)]
pub struct TopPanel {
    pub library_name: String,
    pub new_enabled: bool,
    pub load_enabled: bool,
    pub save_enabled: bool,
    pub books_enabled: bool,
    pub authors_enabled: bool,
    pub discard_enabled: bool,
}

impl Default for LibraryGuiState {
    fn default() -> (r: Self)
        ensures
            r.library is None,
            r.main_state.panel_state == MainPanelEnum::Empty,
            !r.database_dirty,
            !r.mainpanel_dirty,
            r.file_name@ == Seq::<char>::empty(),
            r.messageline matches Ok(line) && line@ == Seq::<char>::empty(),
            !r.alt_control,
            r.filter@ == Seq::<char>::empty(),
            r.author_state.is_clean(),
    {
        LibraryGuiState {
            library: None,
            main_state: MainPanelGuiState::default(),
            database_dirty: false,
            mainpanel_dirty: false,
            file_name: String::new(),
            messageline: Ok(String::new()),
            alt_control: false,
            filter: String::new(),
            author_state: AuthorGuiState::default(),
        }
    }
}

impl Clone for LibraryGuiState {
    fn clone(&self) -> (r: Self)
        ensures
            r.library_view() == self.library_view(),
            r.main_state == self.main_state,
            r.database_dirty == self.database_dirty,
            r.mainpanel_dirty == self.mainpanel_dirty,
            r.file_name == self.file_name,
            r.messageline == self.messageline,
            r.alt_control == self.alt_control,
            r.filter == self.filter,
            r.author_state.author == self.author_state.author,
            r.author_state.working_name == self.author_state.working_name,
            r.author_state.aka_choice == self.author_state.aka_choice,
            r.author_state.aka_combo@ == self.author_state.aka_combo@,
    {
        LibraryGuiState {
            library: match &self.library {
                Some(lib) => Some(lib.clone()),
                None => None,
            },
            main_state: self.main_state,
            database_dirty: self.database_dirty,
            mainpanel_dirty: self.mainpanel_dirty,
            file_name: self.file_name.clone(),
            messageline: match &self.messageline {
                Ok(line) => Ok(line.clone()),
                Err(line) => Err(line.clone()),
            },
            alt_control: self.alt_control,
            filter: self.filter.clone(),
            author_state: self.author_state.clone(),
        }
    }
}

impl LibraryGuiState {
    /// The window state `self` and `other` agree on everything but the
    /// library, the two marks of unsaved changes, the message line and the
    /// author panel.
    pub open spec fn same_frame(&self, other: &LibraryGuiState) -> bool {
        &&& self.main_state == other.main_state
        &&& self.file_name == other.file_name
        &&& self.alt_control == other.alt_control
        &&& self.filter == other.filter
    }

    /// The view of the library, if one is open.
    pub open spec fn library_view(&self) -> Option<LibraryView> {
        match self.library {
            Some(lib) => Some(lib@),
            None => None,
        }
    }

    /// The state of a window that has just opened.
    pub fn new() -> (r: Self)
        ensures
            r.library is None,
            r.main_state.panel_state == MainPanelEnum::Empty,
            !r.database_dirty,
            !r.mainpanel_dirty,
            r.file_name@ == Seq::<char>::empty(),
            r.messageline matches Ok(line) && line@ == Seq::<char>::empty(),
            !r.alt_control,
            r.filter@ == Seq::<char>::empty(),
            r.author_state.is_clean(),
    {
        LibraryGuiState::default()
    }

    /// Selects the author panel, showing the author under `aid` with `name`
    /// as the name being edited.
    pub fn set_author(&mut self, aid: AuthorId, name: &str)
        ensures
            final(self).main_state.panel_state == MainPanelEnum::Author,
            final(self).author_state.author == Some(aid),
            final(self).author_state.working_name@ == name@,
            final(self).author_state.aka_choice == old(self).author_state.aka_choice,
            final(self).author_state.aka_combo == old(self).author_state.aka_combo,
            final(self).library == old(self).library,
            final(self).database_dirty == old(self).database_dirty,
            final(self).mainpanel_dirty == old(self).mainpanel_dirty,
            final(self).file_name == old(self).file_name,
            final(self).messageline == old(self).messageline,
            final(self).alt_control == old(self).alt_control,
            final(self).filter == old(self).filter,
    {
        self.main_state.panel_state = MainPanelEnum::Author;
        self.author_state.set_author(aid, name);
    }

    /// Selects the book panel for the book under `bid`, and says what the
    /// panel is to show: that book where the library has it, an empty book
    /// where it does not, nothing new where there is no library.
    pub fn set_book(&mut self, bid: BookId, edit: bool) -> (load: BookPanelLoad)
        ensures
            final(self).main_state.panel_state == MainPanelEnum::Book,
            final(self).library == old(self).library,
            final(self).author_state == old(self).author_state,
            final(self).database_dirty == old(self).database_dirty,
            final(self).mainpanel_dirty == old(self).mainpanel_dirty,
            final(self).file_name == old(self).file_name,
            final(self).messageline == old(self).messageline,
            final(self).alt_control == old(self).alt_control,
            final(self).filter == old(self).filter,
            load == match old(self).library {
                None => BookPanelLoad::Nothing,
                Some(lib) => if lib@.books.contains_key(bid.0) {
                    BookPanelLoad::Show(bid, edit)
                } else {
                    BookPanelLoad::Blank(edit)
                },
            },
    {
        self.main_state.panel_state = MainPanelEnum::Book;
        match &self.library {
            Some(lib) => {
                if lib.get_book(bid).is_some() {
                    BookPanelLoad::Show(bid, edit)
                } else {
                    // should be impossible, but define what to do anyway
                    BookPanelLoad::Blank(edit)
                }
            },
            None => BookPanelLoad::Nothing,
        }
    }

    /// Takes a message into account and says what the window must do next.
    /// The message line is cleared first, then:
    ///
    /// - `NewLibrary` and `DiscardAll` (unless a file operation runs) open a
    ///   new library, select no panel, empty the author panel, mark nothing
    ///   unsaved and have the book panels emptied (both for a new library);
    /// - `LoadLibrary` and `SaveLibrary` (unless a file operation runs) start
    ///   one, say so, and have a file chosen;
    /// - `LoadFileSelected` keeps the file's name and has it read;
    /// - `FileRead` ends the file operation: an empty file gives up loading,
    ///   a library replaces the open one, anything else closes the library
    ///   and reports the error;
    /// - `FileCancelled` ends the file operation;
    /// - `SaveFileSelected` ends the file operation: where the file could be
    ///   created the library takes the file's name, nothing is unsaved any
    ///   more and the library is to be written into it, else the error is
    ///   reported;
    /// - `BooksPressed` and `AuthorsPressed` select the book list (filled
    ///   afresh) or the author list;
    /// - the messages of the author panels go to those panels.
    pub fn update(&mut self, message: Message) -> (action: GuiAction)
        requires
            match message {
                Message::SaveFileSelected(_, created) => created ==> old(self).library is Some,
                Message::AuthorListMessages(alm) => alm is DelAuthor ==> old(self).library is Some,
                Message::AuthorMessages(am) => author_update_ok(*old(self), am),
                _ => true,
            },
        ensures
            match message {
                Message::NewLibrary | Message::DiscardAll => if old(self).alt_control {
                    &&& action is Nothing
                    &&& final(self).messageline matches Ok(line) && line@ == Seq::<char>::empty()
                    &&& final(self).library == old(self).library
                    &&& final(self).main_state == old(self).main_state
                    &&& final(self).author_state == old(self).author_state
                    &&& final(self).database_dirty == old(self).database_dirty
                    &&& final(self).mainpanel_dirty == old(self).mainpanel_dirty
                    &&& final(self).alt_control
                } else {
                    &&& final(self).library_view() == Some(new_library_view(
                        if message is NewLibrary { "DummyName For now"@ } else { "DmmyName for now"@ },
                    ))
                    &&& final(self).main_state.panel_state == MainPanelEnum::Empty
                    &&& final(self).author_state.is_clean()
                    &&& !final(self).database_dirty
                    &&& !final(self).mainpanel_dirty
                    &&& !final(self).alt_control
                    &&& final(self).messageline matches Ok(line) && line@ == Seq::<char>::empty()
                    &&& action == GuiAction::ClearBookPanels { with_list: message is NewLibrary }
                },
                Message::LoadLibrary | Message::SaveLibrary => {
                    &&& final(self).library == old(self).library
                    &&& final(self).main_state == old(self).main_state
                    &&& final(self).author_state == old(self).author_state
                    &&& final(self).database_dirty == old(self).database_dirty
                    &&& final(self).mainpanel_dirty == old(self).mainpanel_dirty
                    &&& final(self).alt_control
                    &&& if old(self).alt_control {
                        &&& action is Nothing
                        &&& final(self).messageline matches Ok(line) && line@ == Seq::<char>::empty()
                    } else if message is LoadLibrary {
                        &&& action is SelectLoadFile
                        &&& final(self).messageline matches Ok(line) && line@ == "Selecting and Reading File"@
                    } else {
                        &&& action == GuiAction::SelectSaveFile(old(self).file_name)
                        &&& final(self).messageline matches Ok(line) && line@ == "Selecting and Saving Rolodex"@
                    }
                },
                Message::LoadFileSelected(name) => {
                    &&& action is ReadFile
                    &&& final(self).file_name == name
                    &&& final(self).library == old(self).library
                    &&& final(self).main_state == old(self).main_state
                    &&& final(self).author_state == old(self).author_state
                    &&& final(self).database_dirty == old(self).database_dirty
                    &&& final(self).mainpanel_dirty == old(self).mainpanel_dirty
                    &&& final(self).alt_control == old(self).alt_control
                },
                Message::FileRead(content) => {
                    &&& action is Nothing
                    &&& !final(self).alt_control
                    &&& final(self).main_state == old(self).main_state
                    &&& final(self).author_state == old(self).author_state
                    &&& final(self).database_dirty == old(self).database_dirty
                    &&& final(self).mainpanel_dirty == old(self).mainpanel_dirty
                    &&& match content {
                        FileContent::Empty => {
                            &&& final(self).library == old(self).library
                            &&& final(self).messageline matches Ok(line) && line@ == "File Load cancelled."@
                        },
                        FileContent::Library(lib) => {
                            &&& final(self).library == Some(lib)
                            &&& final(self).messageline matches Ok(line) && line@ == "File Loaded"@
                        },
                        FileContent::Unreadable => {
                            &&& final(self).library is None
                            &&& final(self).messageline matches Err(line) && line@ == "Error reading JSON file."@
                        },
                    }
                },
                Message::FileCancelled => {
                    &&& action is Nothing
                    &&& !final(self).alt_control
                    &&& final(self).messageline matches Ok(line) && line@ == "File Cancelled"@
                    &&& final(self).library == old(self).library
                    &&& final(self).main_state == old(self).main_state
                    &&& final(self).author_state == old(self).author_state
                    &&& final(self).database_dirty == old(self).database_dirty
                    &&& final(self).mainpanel_dirty == old(self).mainpanel_dirty
                },
                Message::SaveFileSelected(name, created) => {
                    &&& !final(self).alt_control
                    &&& final(self).main_state == old(self).main_state
                    &&& final(self).author_state == old(self).author_state
                    &&& final(self).mainpanel_dirty == old(self).mainpanel_dirty
                    &&& if created {
                        &&& action is WriteLibrary
                        &&& final(self).library_view() == Some(LibraryView { name: name@, ..old(self).library->0@ })
                        &&& !final(self).database_dirty
                        &&& final(self).messageline matches Ok(line) && line@ == "Saved rolodex"@
                    } else {
                        &&& action is Nothing
                        &&& final(self).library == old(self).library
                        &&& final(self).database_dirty == old(self).database_dirty
                        &&& final(self).messageline matches Err(line) && line@ == "Error creating save file."@
                    }
                },
                Message::BooksPressed | Message::AuthorsPressed => {
                    &&& final(self).main_state.panel_state == if message is BooksPressed {
                        MainPanelEnum::BookList
                    } else {
                        MainPanelEnum::AuthorList
                    }
                    &&& action == if message is BooksPressed { GuiAction::RefreshBookList } else { GuiAction::Nothing }
                    &&& final(self).messageline matches Ok(line) && line@ == Seq::<char>::empty()
                    &&& final(self).library == old(self).library
                    &&& final(self).author_state == old(self).author_state
                    &&& final(self).database_dirty == old(self).database_dirty
                    &&& final(self).mainpanel_dirty == old(self).mainpanel_dirty
                    &&& final(self).alt_control == old(self).alt_control
                },
                Message::AuthorListMessages(alm) => {
                    &&& final(self).messageline matches Ok(line) && line@ == Seq::<char>::empty()
                    &&& author_list_update_post(*old(self), *final(self), alm, action)
                },
                Message::AuthorMessages(am) => {
                    &&& final(self).messageline matches Ok(line) && line@ == Seq::<char>::empty()
                    &&& author_update_post(*old(self), *final(self), am, action)
                },
            },
            match message {
                Message::LoadFileSelected(_) | Message::AuthorListMessages(_) | Message::AuthorMessages(_) => true,
                _ => final(self).file_name == old(self).file_name && final(self).filter == old(self).filter,
            },
    {
        self.messageline = Ok(String::new());
        match message {
            Message::NewLibrary => {
                if !self.alt_control {
                    self.library = Some(LibraryModel::new("DummyName For now"));
                    self.main_state.panel_state = MainPanelEnum::Empty;
                    self.author_state.clean();
                    self.database_dirty = false;
                    self.mainpanel_dirty = false;
                    return GuiAction::ClearBookPanels { with_list: true };
                }
            },
            Message::FileCancelled => {
                self.alt_control = false;
                self.messageline = Ok("File Cancelled".to_string());
            },
            Message::LoadLibrary => {
                if !self.alt_control {
                    self.alt_control = true;
                    self.messageline = Ok("Selecting and Reading File".to_string());
                    return GuiAction::SelectLoadFile;
                }
            },
            Message::LoadFileSelected(name) => {
                self.file_name = name;
                return GuiAction::ReadFile;
            },
            Message::FileRead(content) => {
                match content {
                    FileContent::Empty => {
                        self.messageline = Ok("File Load cancelled.".to_string());
                    },
                    FileContent::Library(lib) => {
                        self.library = Some(lib);
                        self.messageline = Ok("File Loaded".to_string());
                    },
                    FileContent::Unreadable => {
                        self.messageline = Err("Error reading JSON file.".to_string());
                        self.library = None;
                    },
                }
                self.alt_control = false;
            },
            Message::SaveLibrary => {
                if !self.alt_control {
                    self.alt_control = true;
                    self.messageline = Ok("Selecting and Saving Rolodex".to_string());
                    return GuiAction::SelectSaveFile(self.file_name.clone());
                }
            },
            Message::SaveFileSelected(name, created) => {
                let mut action = GuiAction::Nothing;
                if created {
                    if let Some(lib) = &mut self.library {
                        lib.set_name(name.as_str());
                    }
                    self.database_dirty = false;
                    self.messageline = Ok("Saved rolodex".to_string());
                    action = GuiAction::WriteLibrary;
                } else {
                    self.messageline = Err("Error creating save file.".to_string());
                }
                self.alt_control = false;
                return action;
            },
            Message::BooksPressed => {
                self.main_state.panel_state = MainPanelEnum::BookList;
                return GuiAction::RefreshBookList;
            },
            Message::AuthorsPressed => self.main_state.panel_state = MainPanelEnum::AuthorList,
            Message::DiscardAll => {
                if !self.alt_control {
                    self.library = Some(LibraryModel::new("DmmyName for now"));
                    self.main_state.panel_state = MainPanelEnum::Empty;
                    self.author_state.clean();
                    self.database_dirty = false;
                    self.mainpanel_dirty = false;
                    return GuiAction::ClearBookPanels { with_list: false };
                }
            },
            Message::AuthorListMessages(alm) => return author_list_update(self, alm),
            Message::AuthorMessages(am) => return author_update(self, am),
        }
        GuiAction::Nothing
    }

    /// The panel that fills the main part of the window: none while a file
    /// is being chosen, read or written, else the selected one.
    pub fn library_main_panel(&self) -> (panel: MainPanelEnum)
        ensures
            panel == if self.alt_control { MainPanelEnum::Empty } else { self.main_state.panel_state },
    {
        if self.alt_control {
            MainPanelEnum::Empty
        } else {
            self.main_state.panel_state
        }
    }

    /// The top row: the library's name, and which buttons can be pressed.
    /// Without a library only "New" and "Load" can; with one, nothing can
    /// while a file operation runs, and unsaved changes lock "New" and
    /// "Load", an unfinished edit of the main panel locks "Save", "Books" and
    /// "Authors", and "Save" needs something unsaved.
    pub fn top_panel(&self) -> (r: TopPanel)
        ensures
            match &self.library {
                None => {
                    &&& r.library_name@ == Seq::<char>::empty()
                    &&& r.new_enabled && r.load_enabled
                    &&& !r.save_enabled && !r.books_enabled && !r.authors_enabled && !r.discard_enabled
                },
                Some(lib) => {
                    &&& r.library_name@ == lib@.name
                    &&& r.new_enabled == (!self.alt_control && !self.database_dirty)
                    &&& r.load_enabled == (!self.alt_control && !self.database_dirty)
                    &&& r.save_enabled == (!self.alt_control && !self.mainpanel_dirty && self.database_dirty)
                    &&& r.books_enabled == (!self.alt_control && !self.mainpanel_dirty)
                    &&& r.authors_enabled == (!self.alt_control && !self.mainpanel_dirty)
                    &&& r.discard_enabled == !self.alt_control
                },
            },
    {
        match &self.library {
            None => TopPanel {
                library_name: String::new(),
                new_enabled: true,
                load_enabled: true,
                save_enabled: false,
                books_enabled: false,
                authors_enabled: false,
                discard_enabled: false,
            },
            Some(lib) => TopPanel {
                library_name: lib.name().to_string(),
                new_enabled: !self.alt_control && !self.database_dirty,
                load_enabled: !self.alt_control && !self.database_dirty,
                save_enabled: !self.alt_control && !self.mainpanel_dirty && self.database_dirty,
                books_enabled: !self.alt_control && !self.mainpanel_dirty,
                authors_enabled: !self.alt_control && !self.mainpanel_dirty,
                discard_enabled: !self.alt_control,
            },
        }
    }
}

} // verus!
