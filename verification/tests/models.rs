use rolodex::author_model::{vec_find, AuthorModel};
use rolodex::book_model::{BookGuiData, BookModel, ContentType, ItemInfo};
use rolodex::ids::{AuthorId, BookId};
use rolodex::Config;

#[test]
fn ids_start_and_increment() {
    assert_eq!(BookId::start(), BookId(0));
    assert_eq!(BookId::start().increment().increment(), BookId(2));
    assert_eq!(AuthorId::start(), AuthorId(0));
    assert_eq!(AuthorId(41).increment(), AuthorId(42));
}

#[test]
fn vec_find_first_position() {
    let v = [3, 5, 7, 5];
    assert_eq!(vec_find(&v, 5), Some(1));
    assert_eq!(vec_find(&v, 3), Some(0));
    assert_eq!(vec_find(&v, 4), None);
    let empty: [u8; 0] = [];
    assert_eq!(vec_find(&empty, 1), None);
    let ids = [AuthorId(4), AuthorId(2)];
    assert_eq!(vec_find(&ids, AuthorId(2)), Some(1));
}

#[test]
fn author_model_pieces() {
    let mut a = AuthorModel::build("Ann", vec![BookId(1)], vec![BookId(2), BookId(3)], vec![AuthorId(7)]);
    assert_eq!(a.name, "Ann");
    assert_eq!(a.books, vec![BookId(1)]);
    assert_eq!(a.appearences, vec![BookId(2), BookId(3)]);
    assert_eq!(a.aka_iter(), vec![AuthorId(7)]);
    a.set_name("Anne");
    assert_eq!(a.name, "Anne");
    assert_eq!(a.aka_iter(), vec![AuthorId(7)]);
    let b = a.clone();
    assert_eq!(b.name, "Anne");
    assert_eq!(b.appearences, vec![BookId(2), BookId(3)]);
}

fn gui_data(is_collection: bool, is_anthology: bool) -> BookGuiData {
    BookGuiData {
        book: ItemInfo { title: "Tales".to_string(), authors: vec![AuthorId(3), AuthorId(4)] },
        series: "S".to_string(),
        in_series: "2".to_string(),
        publisher: "P".to_string(),
        isbn: "978".to_string(),
        pubdate: "2001".to_string(),
        genre: "G".to_string(),
        format: "paper".to_string(),
        annotation: "note".to_string(),
        is_collection,
        is_anthology,
        contents: vec![
            ItemInfo { title: "One".to_string(), authors: vec![AuthorId(3)] },
            ItemInfo { title: "Two".to_string(), authors: vec![AuthorId(4)] },
        ],
    }
}

#[test]
fn from_bookgui_copies_and_decides_content_type() {
    let b = BookModel::from_bookgui(&gui_data(false, false));
    assert_eq!(b.content_type, ContentType::Singular);
    assert_eq!(b.title(), "Tales");
    assert_eq!(b.author_iter(), vec![AuthorId(3), AuthorId(4)]);
    assert_eq!(b.series, "S");
    assert_eq!(b.in_series, "2");
    assert_eq!(b.publisher, "P");
    assert_eq!(b.isbn, "978");
    assert_eq!(b.pubdate, "2001");
    assert_eq!(b.genre, "G");
    assert_eq!(b.format, "paper");
    assert_eq!(b.annotation, "note");
    assert_eq!(b.contents.len(), 2);
    assert_eq!(b.contents[1].title, "Two");
    assert_eq!(b.contents[1].authors, vec![AuthorId(4)]);
    // an anthology box without the collection box still means a single work
    assert_eq!(BookModel::from_bookgui(&gui_data(false, true)).content_type, ContentType::Singular);
    assert_eq!(BookModel::from_bookgui(&gui_data(true, false)).content_type, ContentType::Collection);
    assert_eq!(BookModel::from_bookgui(&gui_data(true, true)).content_type, ContentType::Anthology);
}

#[test]
fn config_from_command_line() {
    assert_eq!(Config::build(Vec::new()).err(), Some("No program name??"));
    let c = Config::build(vec!["prog".to_string()]).ok().unwrap();
    assert_eq!(c.argstr(), "");
    let c = Config::build(vec!["prog".to_string(), "lib.json".to_string(), "x".to_string()]).ok().unwrap();
    assert_eq!(c.argstr(), "lib.json");
}
