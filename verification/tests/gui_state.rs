use rolodex::author_model::AuthorModel;
use rolodex::ids::{AuthorId, BookId};
use rolodex::library_model::LibraryModel;
use rolodex::library_window::author_gui::{author_update, author_view_data, AuthorMessage};
use rolodex::library_window::author_list_gui::{
    author_list_update, author_list_view_data, mk_author_list, AuthorIdName, AuthorListMessage,
};
use rolodex::book_model::{BookModel, ContentType, ItemInfo};
use rolodex::library_window::{BookPanelLoad, FileContent, GuiAction, LibraryGuiState, MainPanelEnum, Message};


fn library_with(names: &[&str]) -> LibraryModel {
    let mut lib = LibraryModel::new("Lib");
    for name in names {
        lib.add_author(&AuthorModel::build(name, Vec::new(), Vec::new(), Vec::new()));
    }
    lib
}

fn names_of(list: &[AuthorIdName]) -> Vec<String> {
    list.iter().map(|a| a.name.clone()).collect()
}

#[test]
fn author_list_filters_and_sorts_by_name() {
    let lib = library_with(&["Zola", "Austen", "Balzac", "austen", "Aust"]);
    let all = mk_author_list(&lib, "");
    assert_eq!(names_of(&all), vec!["Anonymous", "Aust", "Austen", "Balzac", "Unknown", "Zola", "austen"]);
    let aus = mk_author_list(&lib, "Aus");
    assert_eq!(names_of(&aus), vec!["Aust", "Austen"]);
    assert_eq!(aus[1].id, AuthorId(3));
    let none = mk_author_list(&lib, "xyz");
    assert!(none.is_empty());
    let inner = mk_author_list(&lib, "ola");
    assert_eq!(names_of(&inner), vec!["Zola"]);
    assert_eq!(inner[0].to_string(), "Zola");
}

#[test]
fn author_list_orders_by_code_point() {
    let lib = library_with(&["é", "e", "Ω", "f"]);
    let list = mk_author_list(&lib, "");
    assert_eq!(names_of(&list), vec!["Anonymous", "Unknown", "e", "f", "é", "Ω"]);
}

fn window_with_library() -> LibraryGuiState {
    let mut gs = LibraryGuiState::new();
    let action = gs.update(Message::NewLibrary);
    assert!(matches!(action, GuiAction::ClearBookPanels { with_list: true }));
    gs
}

#[test]
fn new_window_and_new_library() {
    let gs = LibraryGuiState::new();
    assert!(gs.library.is_none());
    let top = gs.top_panel();
    assert!(top.new_enabled && top.load_enabled);
    assert!(!top.save_enabled && !top.books_enabled && !top.authors_enabled && !top.discard_enabled);
    assert_eq!(top.library_name, "");
    let gs = window_with_library();
    assert_eq!(gs.messageline, Ok(String::new()));
    let lib = gs.library.as_ref().unwrap();
    assert_eq!(lib.name(), "DummyName For now");
    assert_eq!(gs.main_state.panel_state, MainPanelEnum::Empty);
    assert_eq!(gs.top_panel().library_name, "DummyName For now");
    assert!(gs.top_panel().books_enabled);
    assert!(!gs.top_panel().save_enabled);
}

#[test]
fn search_trims_the_filter() {
    let mut gs = window_with_library();
    let action = author_list_update(&mut gs, AuthorListMessage::Search("  Aus ten \n".to_string()));
    assert!(matches!(action, GuiAction::Nothing));
    assert_eq!(gs.filter, "Aus ten");
    author_list_update(&mut gs, AuthorListMessage::Search(" \t ".to_string()));
    assert_eq!(gs.filter, "");
}

#[test]
fn author_list_messages() {
    let mut gs = window_with_library();
    author_list_update(&mut gs, AuthorListMessage::DisplayAuthor(AuthorId(1), "Unknown".to_string()));
    assert_eq!(gs.main_state.panel_state, MainPanelEnum::Author);
    assert_eq!(gs.author_state.author, Some(AuthorId(1)));
    assert_eq!(gs.author_state.working_name, "Unknown");
    author_list_update(&mut gs, AuthorListMessage::AddAuthor);
    assert_eq!(gs.author_state.author, None);
    assert_eq!(gs.author_state.working_name, "");
    author_list_update(&mut gs, AuthorListMessage::DelAuthor(AuthorId(1)));
    assert!(gs.library.as_ref().unwrap().get_author(&AuthorId(1)).is_none());
    assert!(gs.database_dirty);
    assert!(gs.top_panel().save_enabled);
    assert!(!gs.top_panel().new_enabled);
}

#[test]
fn author_panel_creates_renames_and_pairs() {
    let mut gs = window_with_library();
    author_list_update(&mut gs, AuthorListMessage::AddAuthor);
    author_update(&mut gs, AuthorMessage::ChangeName("Mark Twain".to_string()));
    assert!(gs.mainpanel_dirty);
    assert!(!gs.top_panel().books_enabled);
    author_update(&mut gs, AuthorMessage::ApplyName);
    assert_eq!(gs.author_state.author, Some(AuthorId(2)));
    assert!(!gs.mainpanel_dirty);
    assert!(gs.database_dirty);
    assert_eq!(gs.library.as_ref().unwrap().get_author(&AuthorId(2)).unwrap().name, "Mark Twain");
    let mut choices: Vec<usize> = gs.author_state.aka_combo.iter().map(|a| a.id.0).collect();
    choices.sort();
    assert_eq!(choices, vec![0, 1]);
    // rename
    author_update(&mut gs, AuthorMessage::ChangeName("Samuel Clemens".to_string()));
    author_update(&mut gs, AuthorMessage::ApplyName);
    assert_eq!(gs.library.as_ref().unwrap().get_author(&AuthorId(2)).unwrap().name, "Samuel Clemens");
    assert_eq!(gs.author_state.author, Some(AuthorId(2)));
    // pair with "Unknown": the whole cluster joins
    let unknown = AuthorIdName { id: AuthorId(1), name: "Unknown".to_string() };
    author_update(&mut gs, AuthorMessage::SelectAka(unknown));
    assert!(gs.mainpanel_dirty);
    author_update(&mut gs, AuthorMessage::AddAka);
    assert!(gs.author_state.aka_choice.is_none());
    assert!(!gs.mainpanel_dirty);
    let lib = gs.library.as_ref().unwrap();
    let mut akas: Vec<usize> = lib.get_author(&AuthorId(2)).unwrap().akas.iter().map(|a| a.0).collect();
    akas.sort();
    assert_eq!(akas, vec![0, 1]);
    assert!(gs.author_state.aka_combo.is_empty());
    // and out again
    author_update(&mut gs, AuthorMessage::DeleteAka(AuthorId(0)));
    let lib = gs.library.as_ref().unwrap();
    assert!(lib.get_author(&AuthorId(0)).unwrap().akas.is_empty());
    assert_eq!(lib.get_author(&AuthorId(2)).unwrap().akas, vec![AuthorId(1)]);
    assert_eq!(gs.author_state.aka_combo.len(), 1);
    assert_eq!(gs.author_state.aka_combo[0].id, AuthorId(0));
    assert_eq!(gs.author_state.aka_combo[0].name, "Anonymous");
}

#[test]
fn empty_name_is_not_applied() {
    let mut gs = window_with_library();
    author_list_update(&mut gs, AuthorListMessage::AddAuthor);
    author_update(&mut gs, AuthorMessage::ApplyName);
    assert_eq!(gs.author_state.author, None);
    assert_eq!(gs.library.as_ref().unwrap().author_iter().len(), 2);
    assert!(!gs.database_dirty);
}

#[test]
fn going_to_books_and_aliases() {
    let mut gs = window_with_library();
    let action = author_update(&mut gs, AuthorMessage::ToBook(BookId(5), "Title".to_string()));
    assert!(matches!(action, GuiAction::LoadBookPanel(BookPanelLoad::Blank(false))));
    assert_eq!(gs.main_state.panel_state, MainPanelEnum::Book);
    author_update(&mut gs, AuthorMessage::ToAKA(AuthorId(0), "Anonymous".to_string()));
    assert_eq!(gs.main_state.panel_state, MainPanelEnum::Author);
    assert_eq!(gs.author_state.author, Some(AuthorId(0)));
    let mut empty = LibraryGuiState::new();
    assert!(matches!(empty.set_book(BookId(0), true), BookPanelLoad::Nothing));
}

#[test]
fn file_operations() {
    let mut gs = window_with_library();
    let action = gs.update(Message::LoadLibrary);
    assert!(matches!(action, GuiAction::SelectLoadFile));
    assert!(gs.alt_control);
    assert_eq!(gs.messageline, Ok("Selecting and Reading File".to_string()));
    assert_eq!(gs.library_main_panel(), MainPanelEnum::Empty);
    let top = gs.top_panel();
    assert!(!top.new_enabled && !top.load_enabled && !top.discard_enabled);
    // a second request while the first runs does nothing
    assert!(matches!(gs.update(Message::SaveLibrary), GuiAction::Nothing));
    let action = gs.update(Message::LoadFileSelected("books.json".to_string()));
    assert!(matches!(action, GuiAction::ReadFile));
    assert_eq!(gs.file_name, "books.json");
    gs.update(Message::FileRead(FileContent::Unreadable));
    assert!(gs.library.is_none());
    assert!(!gs.alt_control);
    assert_eq!(gs.messageline, Err("Error reading JSON file.".to_string()));
    gs.update(Message::LoadLibrary);
    gs.update(Message::FileRead(FileContent::Library(LibraryModel::new("Loaded"))));
    assert_eq!(gs.library.as_ref().unwrap().name(), "Loaded");
    assert_eq!(gs.messageline, Ok("File Loaded".to_string()));
    gs.update(Message::LoadLibrary);
    gs.update(Message::FileRead(FileContent::Empty));
    assert_eq!(gs.messageline, Ok("File Load cancelled.".to_string()));
    assert_eq!(gs.library.as_ref().unwrap().name(), "Loaded");
    gs.update(Message::LoadLibrary);
    gs.update(Message::FileCancelled);
    assert!(!gs.alt_control);
    assert_eq!(gs.messageline, Ok("File Cancelled".to_string()));
}

#[test]
fn saving() {
    let mut gs = window_with_library();
    gs.database_dirty = true;
    gs.file_name = "old.json".to_string();
    match gs.update(Message::SaveLibrary) {
        GuiAction::SelectSaveFile(name) => assert_eq!(name, "old.json"),
        _ => panic!("a file should be chosen"),
    }
    assert_eq!(gs.messageline, Ok("Selecting and Saving Rolodex".to_string()));
    let action = gs.update(Message::SaveFileSelected("new.json".to_string(), true));
    assert!(matches!(action, GuiAction::WriteLibrary));
    assert_eq!(gs.library.as_ref().unwrap().name(), "new.json");
    assert!(!gs.database_dirty);
    assert!(!gs.alt_control);
    assert_eq!(gs.messageline, Ok("Saved rolodex".to_string()));
    gs.database_dirty = true;
    gs.update(Message::SaveLibrary);
    let action = gs.update(Message::SaveFileSelected("ro.json".to_string(), false));
    assert!(matches!(action, GuiAction::Nothing));
    assert!(gs.database_dirty);
    assert_eq!(gs.messageline, Err("Error creating save file.".to_string()));
}

#[test]
fn panels_and_discard() {
    let mut gs = window_with_library();
    assert!(matches!(gs.update(Message::BooksPressed), GuiAction::RefreshBookList));
    assert_eq!(gs.library_main_panel(), MainPanelEnum::BookList);
    assert!(matches!(gs.update(Message::AuthorsPressed), GuiAction::Nothing));
    assert_eq!(gs.library_main_panel(), MainPanelEnum::AuthorList);
    gs.set_author(AuthorId(1), "Unknown");
    gs.database_dirty = true;
    let action = gs.update(Message::DiscardAll);
    assert!(matches!(action, GuiAction::ClearBookPanels { with_list: false }));
    assert_eq!(gs.library.as_ref().unwrap().name(), "DmmyName for now");
    assert!(!gs.database_dirty);
    assert_eq!(gs.author_state.author, None);
    assert_eq!(gs.main_state.panel_state, MainPanelEnum::Empty);
    let copy = gs.clone();
    assert_eq!(copy.library.as_ref().unwrap().name(), "DmmyName for now");
}

fn book(title: &str) -> BookModel {
    BookModel {
        book: ItemInfo { title: title.to_string(), authors: Vec::new() },
        series: String::new(),
        in_series: String::new(),
        publisher: String::new(),
        isbn: String::new(),
        pubdate: String::new(),
        genre: String::new(),
        format: String::new(),
        annotation: String::new(),
        content_type: ContentType::Singular,
        contents: Vec::new(),
    }
}

#[test]
fn author_panel_shows_what_the_library_has() {
    let mut gs = window_with_library();
    {
        let lib = gs.library.as_mut().unwrap();
        let b0 = lib.add_book(&book("Roughing It"));
        let b1 = lib.add_book(&book("Sketches"));
        let a = lib.add_author(&AuthorModel::build(
            "Twain",
            vec![b0, BookId(9)],
            vec![b1],
            vec![AuthorId(1), AuthorId(8)],
        ));
        assert_eq!(a, AuthorId(2));
    }
    assert!(author_view_data(&gs).is_none());
    gs.set_author(AuthorId(2), "Twain");
    let data = author_view_data(&gs).unwrap();
    assert_eq!(data.author_name, "Twain");
    assert_eq!(data.akas.len(), 1);
    assert_eq!(data.akas[0].id, AuthorId(1));
    assert_eq!(data.akas[0].name, "Unknown");
    assert_eq!(data.books, vec![(BookId(0), "Roughing It".to_string())]);
    assert_eq!(data.collections, vec![(BookId(1), "Sketches".to_string())]);
    assert!(!data.add_enabled);
    gs.author_state.aka_choice = Some(AuthorIdName { id: AuthorId(0), name: "Anonymous".to_string() });
    assert!(author_view_data(&gs).unwrap().add_enabled);
    gs.set_author(AuthorId(5), "Ghost");
    assert!(author_view_data(&gs).is_none());
}

#[test]
fn author_list_rows_say_what_can_be_deleted() {
    let mut gs = window_with_library();
    gs.library.as_mut().unwrap().add_author(&AuthorModel::build("Alone", Vec::new(), Vec::new(), Vec::new()));
    let rows = author_list_view_data(&gs);
    let shown: Vec<(String, bool)> = rows.iter().map(|(a, d)| (a.name.clone(), *d)).collect();
    assert_eq!(
        shown,
        vec![("Alone".to_string(), true), ("Anonymous".to_string(), false), ("Unknown".to_string(), false)]
    );
    gs.filter = "no".to_string();
    let rows = author_list_view_data(&gs);
    assert_eq!(rows.len(), 2);
    assert_eq!(rows[0].0.name, "Anonymous");
    assert_eq!(rows[1].0.name, "Unknown");
}

#[test]
fn deleting_an_alias_leaves_the_unsaved_mark_alone() {
    let mut gs = window_with_library();
    gs.set_author(AuthorId(0), "Anonymous");
    assert!(!gs.database_dirty);
    author_update(&mut gs, AuthorMessage::DeleteAka(AuthorId(5)));
    assert!(!gs.database_dirty);
    author_update(&mut gs, AuthorMessage::DeleteAka(AuthorId(1)));
    assert!(!gs.database_dirty);
    assert!(gs.library.as_ref().unwrap().get_author(&AuthorId(0)).unwrap().akas.is_empty());
    assert!(gs.library.as_ref().unwrap().get_author(&AuthorId(1)).unwrap().akas.is_empty());
}

#[test]
fn discard_clears_the_message_line_even_while_a_file_is_chosen() {
    let mut gs = window_with_library();
    gs.update(Message::LoadLibrary);
    assert_eq!(gs.messageline, Ok("Selecting and Reading File".to_string()));
    assert!(matches!(gs.update(Message::DiscardAll), GuiAction::Nothing));
    assert_eq!(gs.messageline, Ok(String::new()));
    assert!(gs.alt_control);
}

#[test]
fn file_content_from_what_was_read() {
    assert!(matches!(FileContent::from_read("", Some(LibraryModel::new("x"))), FileContent::Empty));
    assert!(matches!(FileContent::from_read("{", None), FileContent::Unreadable));
    match FileContent::from_read("{}", Some(LibraryModel::new("x"))) {
        FileContent::Library(lib) => assert_eq!(lib.name(), "x"),
        _ => panic!("a library was read"),
    }
}

#[test]
fn going_to_a_book_the_library_has_shows_it() {
    let mut gs = window_with_library();
    let bid = gs.library.as_mut().unwrap().add_book(&book("Dune"));
    let action = author_update(&mut gs, AuthorMessage::ToBook(bid, "Dune".to_string()));
    assert!(matches!(action, GuiAction::LoadBookPanel(BookPanelLoad::Show(b, false)) if b == bid));
    assert_eq!(gs.main_state.panel_state, MainPanelEnum::Book);
}
