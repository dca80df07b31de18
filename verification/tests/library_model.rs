use rolodex::author_model::AuthorModel;
use rolodex::book_model::{BookModel, ContentType, ItemInfo};
use rolodex::ids::{AuthorId, BookId};
use rolodex::library_model::LibraryModel;

#[test]
fn basic_library() {
    let mut lib = LibraryModel::new("TestName");
    let name = lib.name();
    assert_eq!(name, "TestName");
    lib.set_name("TestName2");
    let name = lib.name();
    assert_eq!(name, "TestName2");
    assert_eq!(lib.author_iter().len(), 2);
    let mut ai = lib.author_iter().into_iter();
    let aid1 = ai.next();
    assert!(aid1.is_some());
    let aid1 = aid1.unwrap();
    let aid2 = ai.next();
    assert!(aid2.is_some());
    let aid2 = aid2.unwrap();
    let a1 = lib.get_author(&aid1);
    assert!(a1.is_some());
    let a1 = a1.unwrap();
    let a2 = lib.get_author(&aid2);
    assert!(a2.is_some());
    let a2 = a2.unwrap();
    assert_eq!(a1.akas.len(), 1);
    assert_eq!(a1.akas[0], aid2);
    assert_eq!(a2.akas.len(), 1);
    assert_eq!(a2.akas[0], aid1);
}

#[test]
fn author_cluster_test() {
    let mut lib = LibraryModel::new("MergeTest");
    let names = ["n1", "n2", "3", "n4"];
    let alen = names.len() - 1;
    let authors = names
        .iter()
        .map(|name| AuthorModel::build(name, Vec::new(), Vec::new(), Vec::new()))
        .collect::<Vec<_>>();
    let aids = authors
        .iter()
        .map(|author| lib.add_author(author))
        .collect::<Vec<_>>();
    let mut aid_iter = aids.iter();
    let aid1 = aid_iter.next();
    let aid1 = aid1.unwrap();
    while let Some(aid) = aid_iter.next() {
        lib.merge_aka_clusters(*aid1, *aid);
    }
    let mut aid_iter = aids.iter();
    while let Some(aid) = aid_iter.next() {
        match &lib.get_author(aid) {
            None => panic!("Missing author after merge"),
            Some(author) => assert_eq!(author.akas.len(), alen),
        }
    }
}

fn plain_author(name: &str) -> AuthorModel {
    AuthorModel::build(name, Vec::new(), Vec::new(), Vec::new())
}

fn sorted_ids(v: &[AuthorId]) -> Vec<usize> {
    let mut r: Vec<usize> = v.iter().map(|a| a.0).collect();
    r.sort();
    r
}

#[test]
fn new_library_has_two_paired_authors() {
    let lib = LibraryModel::new("Lib");
    let anon = lib.get_author(&AuthorId(0)).unwrap();
    let unknown = lib.get_author(&AuthorId(1)).unwrap();
    assert_eq!(anon.name, "Anonymous");
    assert_eq!(unknown.name, "Unknown");
    assert_eq!(anon.akas, vec![AuthorId(1)]);
    assert_eq!(unknown.akas, vec![AuthorId(0)]);
    assert!(lib.get_author(&AuthorId(2)).is_none());
    assert!(lib.book_iter().is_empty());
}

#[test]
fn add_author_hands_out_ids_in_turn() {
    let mut lib = LibraryModel::new("Lib");
    let a = lib.add_author(&plain_author("First"));
    let b = lib.add_author(&plain_author("Second"));
    assert_eq!(a, AuthorId(2));
    assert_eq!(b, AuthorId(3));
    assert_eq!(lib.get_author(&a).unwrap().name, "First");
    assert_eq!(lib.get_author(&b).unwrap().name, "Second");
    assert_eq!(sorted_ids(&lib.author_iter()), vec![0, 1, 2, 3]);
}

#[test]
fn books_add_replace_delete() {
    let mut lib = LibraryModel::new("Lib");
    let book = BookModel {
        book: ItemInfo { title: "Dune".to_string(), authors: vec![AuthorId(0)] },
        series: String::new(),
        in_series: String::new(),
        publisher: "Chilton".to_string(),
        isbn: String::new(),
        pubdate: "1965".to_string(),
        genre: "SF".to_string(),
        format: String::new(),
        annotation: String::new(),
        content_type: ContentType::Singular,
        contents: Vec::new(),
    };
    let b0 = lib.add_book(&book);
    let b1 = lib.add_book(&book);
    assert_eq!(b0, BookId(0));
    assert_eq!(b1, BookId(1));
    assert_eq!(lib.get_book(b0).unwrap().title(), "Dune");
    let mut other = book.clone();
    other.book.title = "Emma".to_string();
    lib.replace_book(b1, &other);
    assert_eq!(lib.get_book(b1).unwrap().title(), "Emma");
    assert_eq!(lib.get_book(b0).unwrap().title(), "Dune");
    lib.delete_book(b0);
    assert!(lib.get_book(b0).is_none());
    let ids = lib.book_iter();
    assert_eq!(ids, vec![b1]);
}

#[test]
fn check_auth_noref_and_delete() {
    let mut lib = LibraryModel::new("Lib");
    assert!(!lib.check_auth_noref(AuthorId(0)));
    assert!(lib.check_auth_noref(AuthorId(42)));
    let a = lib.add_author(&plain_author("Alone"));
    assert!(lib.check_auth_noref(a));
    let with_book = lib.add_author(&AuthorModel::build("Writer", vec![BookId(0)], Vec::new(), Vec::new()));
    assert!(!lib.check_auth_noref(with_book));
    let with_appearance = lib.add_author(&AuthorModel::build("Guest", Vec::new(), vec![BookId(3)], Vec::new()));
    assert!(!lib.check_auth_noref(with_appearance));
    lib.delete_author(a);
    assert!(lib.get_author(&a).is_none());
    assert_eq!(sorted_ids(&lib.author_iter()), vec![0, 1, 3, 4]);
}

#[test]
fn mut_author_writes_through() {
    let mut lib = LibraryModel::new("Lib");
    match lib.mut_author(AuthorId(1)) {
        Some(author) => author.set_name("Nobody"),
        None => panic!("author 1 is missing"),
    }
    assert_eq!(lib.get_author(&AuthorId(1)).unwrap().name, "Nobody");
    assert_eq!(lib.get_author(&AuthorId(1)).unwrap().akas, vec![AuthorId(0)]);
    assert!(lib.mut_author(AuthorId(7)).is_none());
}

#[test]
fn merge_joins_two_clusters() {
    let mut lib = LibraryModel::new("Lib");
    let a = lib.add_author(&plain_author("A"));
    let b = lib.add_author(&plain_author("B"));
    let c = lib.add_author(&plain_author("C"));
    let d = lib.add_author(&plain_author("D"));
    lib.merge_aka_clusters(a, b);
    lib.merge_aka_clusters(c, d);
    lib.merge_aka_clusters(b, d);
    for (x, others) in [(a, vec![b, c, d]), (b, vec![a, c, d]), (c, vec![a, b, d]), (d, vec![a, b, c])] {
        let akas = &lib.get_author(&x).unwrap().akas;
        assert_eq!(sorted_ids(akas), sorted_ids(&others));
    }
    // the two authors of a new library keep their own cluster
    assert_eq!(lib.get_author(&AuthorId(0)).unwrap().akas, vec![AuthorId(1)]);
}

#[test]
fn merge_within_one_cluster_changes_nothing() {
    let mut lib = LibraryModel::new("Lib");
    lib.merge_aka_clusters(AuthorId(0), AuthorId(1));
    assert_eq!(lib.get_author(&AuthorId(0)).unwrap().akas, vec![AuthorId(1)]);
    assert_eq!(lib.get_author(&AuthorId(1)).unwrap().akas, vec![AuthorId(0)]);
    lib.merge_aka_clusters(AuthorId(0), AuthorId(9));
    assert_eq!(lib.get_author(&AuthorId(0)).unwrap().akas, vec![AuthorId(1)]);
}

#[test]
fn remove_aka_cluster_takes_one_alias_out() {
    let mut lib = LibraryModel::new("Lib");
    let a = lib.add_author(&plain_author("A"));
    let b = lib.add_author(&plain_author("B"));
    let c = lib.add_author(&plain_author("C"));
    lib.merge_aka_clusters(a, b);
    lib.merge_aka_clusters(a, c);
    lib.remove_aka_cluster(a, c);
    assert!(lib.get_author(&c).unwrap().akas.is_empty());
    assert_eq!(lib.get_author(&a).unwrap().akas, vec![b]);
    assert_eq!(lib.get_author(&b).unwrap().akas, vec![a]);
    // an alias that the cluster does not hold: nothing happens
    lib.remove_aka_cluster(a, c);
    assert_eq!(lib.get_author(&a).unwrap().akas, vec![b]);
    // now `c` has no references and can go
    assert!(lib.check_auth_noref(c));
}

#[test]
fn remove_aka_cluster_of_a_pair() {
    let mut lib = LibraryModel::new("Lib");
    lib.remove_aka_cluster(AuthorId(1), AuthorId(0));
    assert!(lib.get_author(&AuthorId(0)).unwrap().akas.is_empty());
    assert!(lib.get_author(&AuthorId(1)).unwrap().akas.is_empty());
}

#[test]
fn clone_keeps_everything() {
    let mut lib = LibraryModel::new("Lib");
    let a = lib.add_author(&plain_author("A"));
    lib.merge_aka_clusters(a, AuthorId(0));
    let copy = lib.clone();
    assert_eq!(copy.name(), "Lib");
    assert_eq!(sorted_ids(&copy.author_iter()), vec![0, 1, 2]);
    assert_eq!(sorted_ids(&copy.get_author(&a).unwrap().akas), vec![0, 1]);
}

#[test]
fn merging_an_author_with_itself_changes_nothing() {
    let mut lib = LibraryModel::new("Lib");
    lib.merge_aka_clusters(AuthorId(0), AuthorId(0));
    assert_eq!(lib.get_author(&AuthorId(0)).unwrap().akas, vec![AuthorId(1)]);
    assert_eq!(lib.get_author(&AuthorId(1)).unwrap().akas, vec![AuthorId(0)]);
    let a = lib.add_author(&plain_author("Alone"));
    lib.merge_aka_clusters(a, a);
    assert!(lib.get_author(&a).unwrap().akas.is_empty());
}

#[test]
fn from_parts_later_entries_win() {
    let a = AuthorModel::build("A", Vec::new(), Vec::new(), Vec::new());
    let b = AuthorModel::build("B", Vec::new(), Vec::new(), Vec::new());
    let lib = LibraryModel::from_parts(
        "Stored",
        BookId(7),
        Vec::new(),
        AuthorId(9),
        vec![(AuthorId(3), a), (AuthorId(3), b)],
    );
    assert_eq!(lib.name(), "Stored");
    assert_eq!(lib.next_book_id(), BookId(7));
    assert_eq!(lib.next_author_id(), AuthorId(9));
    assert_eq!(lib.author_iter(), vec![AuthorId(3)]);
    assert_eq!(lib.get_author(&AuthorId(3)).unwrap().name, "B");
}

#[test]
fn merge_then_remove_gives_the_library_back() {
    let mut lib = LibraryModel::new("Lib");
    let a = lib.add_author(&plain_author("A"));
    let b = lib.add_author(&plain_author("B"));
    lib.merge_aka_clusters(a, b);
    let lone = lib.add_author(&plain_author("Lone"));
    let before: Vec<(AuthorId, Vec<AuthorId>)> =
        [AuthorId(0), AuthorId(1), a, b, lone].iter().map(|id| (*id, lib.get_author(id).unwrap().akas.clone())).collect();
    lib.merge_aka_clusters(a, lone);
    assert_eq!(sorted_ids(&lib.get_author(&lone).unwrap().akas), vec![a.0, b.0]);
    lib.remove_aka_cluster(a, lone);
    for (id, akas) in before {
        assert_eq!(lib.get_author(&id).unwrap().akas, akas);
    }
}
