//! The library: its books and its authors, each under an identifier that the
//! library hands out, and the alias clusters that tie authors together.
use vstd::prelude::*;
use std::collections::HashMap;
use std::collections::hash_map::Entry;
use crate::aka::{
    add_pair, add_pairs, aka_consistent, clusters_merged, cross, lemma_add_pairs_push,
    law_insert_unaliased, law_merge_clusters, law_remove_from_cluster,
    lemma_remove_pairs_push, law_add_then_remove_pair, law_merge_then_remove_lone, law_remove_unaliased, merge_clusters, merge_pairs, merge_rest,
    pair_with, removal_applies, removal_pairs, remove_from_cluster, remove_pair, remove_pairs,
    removed_from_cluster,
};
use crate::author_model::{contains_id, copy_ids, position_of_id, AuthorModel, AuthorView};
use crate::book_model::{BookModel, BookView};
use crate::ids::{AuthorId, BookId};
use vstd::std_specs::hash::spec_keys_iter;
use vstd::std_specs::iter::IteratorSpec;

verus! {

broadcast use vstd::std_specs::hash::group_hash_axioms;

/// A library: a name, its books and its authors.
///
/// The library is responsible for the consistency of the alias clusters: all
/// members of a cluster list all other members of the cluster among their
/// `akas` (see `aka_consistent`).
#[derive(Debug)]
pub struct LibraryModel {
    name: String,
    next_book_id: BookId,
    books: HashMap<usize, BookModel>,
    next_author_id: AuthorId,
    authors: HashMap<usize, AuthorModel>,
}

/// What a library holds, as plain values; books and authors are keyed by
/// the number inside their identifier.
pub struct LibraryView {
    pub name: Seq<char>,
    pub next_book_id: usize,
    pub books: Map<usize, BookView>,
    pub next_author_id: usize,
    pub authors: Map<usize, AuthorView>,
}

impl View for LibraryModel {
    type V = LibraryView;

    closed spec fn view(&self) -> LibraryView {
        LibraryView {
            name: self.name@,
            next_book_id: self.next_book_id.0,
            books: self.books@.map_values(|b: BookModel| b@),
            next_author_id: self.next_author_id.0,
            authors: self.authors@.map_values(|a: AuthorModel| a@),
        }
    }
}

impl LibraryView {
    /// Every book and every author is under an identifier below the next one
    /// to be handed out, and the alias lists describe clusters.
    pub open spec fn well_formed(self) -> bool {
        &&& forall|k: usize| #[trigger] self.books.contains_key(k) ==> k < self.next_book_id
        &&& forall|k: usize| #[trigger] self.authors.contains_key(k) ==> k < self.next_author_id
        &&& aka_consistent(self.authors)
    }

    /// The same library with `authors` in place of its authors.
    pub open spec fn with_authors(self, authors: Map<usize, AuthorView>) -> LibraryView {
        LibraryView { authors, ..self }
    }

    /// The library after adding `book` under the next book identifier.
    pub open spec fn after_add_book(self, book: BookView) -> LibraryView {
        LibraryView {
            next_book_id: (self.next_book_id + 1) as usize,
            books: self.books.insert(self.next_book_id, book),
            ..self
        }
    }

    /// The library after adding `author` under the next author identifier.
    pub open spec fn after_add_author(self, author: AuthorView) -> LibraryView {
        LibraryView {
            next_author_id: (self.next_author_id + 1) as usize,
            authors: self.authors.insert(self.next_author_id, author),
            ..self
        }
    }

    /// The same library with `books` in place of its books.
    pub open spec fn with_books(self, books: Map<usize, BookView>) -> LibraryView {
        LibraryView { books, ..self }
    }
}

/// A library named `name` with no books and the two authors "Anonymous"
/// (under 0) and "Unknown" (under 1), each the other's only alias.
pub open spec fn new_library_view(name: Seq<char>) -> LibraryView {
    LibraryView {
        name,
        next_book_id: 0,
        books: Map::empty(),
        next_author_id: 2,
        authors: map![
            0usize => AuthorView {
                name: "Anonymous"@,
                books: Seq::empty(),
                appearences: Seq::empty(),
                akas: seq![AuthorId(1)],
            },
            1usize => AuthorView {
                name: "Unknown"@,
                books: Seq::empty(),
                appearences: Seq::empty(),
                akas: seq![AuthorId(0)],
            },
        ],
    }
}

/// The books of `entries` by identifier, a later entry replacing an earlier
/// one under the same identifier.
pub open spec fn book_map(entries: Seq<(BookId, BookModel)>) -> Map<usize, BookView>
    decreases entries.len(),
{
    if entries.len() == 0 {
        Map::empty()
    } else {
        book_map(entries.drop_last()).insert(entries.last().0.0, entries.last().1@)
    }
}

/// The authors of `entries` by identifier, a later entry replacing an
/// earlier one under the same identifier.
pub open spec fn author_map(entries: Seq<(AuthorId, AuthorModel)>) -> Map<usize, AuthorView>
    decreases entries.len(),
{
    if entries.len() == 0 {
        Map::empty()
    } else {
        author_map(entries.drop_last()).insert(entries.last().0.0, entries.last().1@)
    }
}

/// Whether an author has no books, no appearances and no aliases.
pub open spec fn unreferenced(a: AuthorView) -> bool {
    a.books.len() == 0 && a.appearences.len() == 0 && a.akas.len() == 0
}

/// Adding a book and reading back under the identifier handed out gives the
/// book added; a well-formed library hands out an identifier no book had,
/// and stays well-formed.
pub proof fn law_add_book_then_get(v: LibraryView, b: BookView)
    requires
        v.next_book_id < usize::MAX,
    ensures
        v.after_add_book(b).books.contains_key(v.next_book_id),
        v.after_add_book(b).books[v.next_book_id] == b,
        forall|k: usize| k != v.next_book_id ==> #[trigger] v.after_add_book(b).books.contains_key(k) == v.books.contains_key(k)
            && (v.books.contains_key(k) ==> v.after_add_book(b).books[k] == v.books[k]),
        v.well_formed() ==> !v.books.contains_key(v.next_book_id) && v.after_add_book(b).well_formed(),
{
    if v.well_formed() {
        let w = v.after_add_book(b);
        assert forall|k: usize| #[trigger] w.books.contains_key(k) implies k < w.next_book_id by {
            if k != v.next_book_id {
                assert(v.books.contains_key(k));
            }
        }
    }
}

/// Adding an author and reading back under the identifier handed out gives
/// the author added; a well-formed library hands out an identifier no author
/// had, and stays well-formed where the new author has no aliases.
pub proof fn law_add_author_then_get(v: LibraryView, a: AuthorView)
    requires
        v.next_author_id < usize::MAX,
    ensures
        v.after_add_author(a).authors.contains_key(v.next_author_id),
        v.after_add_author(a).authors[v.next_author_id] == a,
        forall|k: usize| k != v.next_author_id ==> #[trigger] v.after_add_author(a).authors.contains_key(k) == v.authors.contains_key(k)
            && (v.authors.contains_key(k) ==> v.after_add_author(a).authors[k] == v.authors[k]),
        v.well_formed() ==> !v.authors.contains_key(v.next_author_id),
        v.well_formed() && a.akas.len() == 0 ==> v.after_add_author(a).well_formed(),
{
    if v.well_formed() && a.akas.len() == 0 {
        law_insert_unaliased(v.authors, v.next_author_id, a);
        let w = v.after_add_author(a);
        assert forall|k: usize| #[trigger] w.authors.contains_key(k) implies k < w.next_author_id by {
            if k != v.next_author_id {
                assert(v.authors.contains_key(k));
            }
        }
    }
}

/// Putting a book under an identifier and reading it back gives that book;
/// after a deletion nothing is found there; the other books stay.
pub proof fn law_replace_delete_book_then_get(v: LibraryView, id: BookId, b: BookView)
    ensures
        v.with_books(v.books.insert(id.0, b)).books[id.0] == b,
        !v.with_books(v.books.remove(id.0)).books.contains_key(id.0),
        forall|k: usize| k != id.0 ==> #[trigger] v.with_books(v.books.remove(id.0)).books.contains_key(k) == v.books.contains_key(k),
        forall|k: usize| k != id.0 ==> #[trigger] v.with_books(v.books.insert(id.0, b)).books.contains_key(k) == v.books.contains_key(k),
{
}

/// After deleting an author nothing is found under its identifier, and the
/// other authors stay as they were.
pub proof fn law_delete_author_then_get(v: LibraryView, id: AuthorId)
    ensures
        !v.with_authors(v.authors.remove(id.0)).authors.contains_key(id.0),
        forall|k: usize| k != id.0 ==> #[trigger] v.with_authors(v.authors.remove(id.0)).authors.contains_key(k) == v.authors.contains_key(k)
            && (v.authors.contains_key(k) ==> v.with_authors(v.authors.remove(id.0)).authors[k] == v.authors[k]),
{
}

/// Pairing two distinct authors that do not list each other as aliases (what
/// the library does first when it merges two clusters) and then unpairing
/// them (what it does when it removes an alias) gives back the library as it
/// was.
pub proof fn law_pair_then_unpair_restores(v: LibraryView, a: AuthorId, b: AuthorId)
    requires
        a.0 != b.0,
        v.authors.contains_key(a.0),
        v.authors.contains_key(b.0),
        !v.authors[a.0].akas.contains(b),
        !v.authors[b.0].akas.contains(a),
    ensures
        v.with_authors(remove_pair(add_pair(v.authors, a, b), a, b)) == v,
{
    law_add_then_remove_pair(v.authors, a, b);
}

/// In a well-formed library, merging an author without aliases into the
/// cluster of another author and then removing it from that cluster gives
/// back the library as it was.
pub proof fn law_merge_then_remove_restores(v: LibraryView, c: AuthorId, a: AuthorId)
    requires
        v.well_formed(),
        v.authors.contains_key(c.0),
        v.authors.contains_key(a.0),
        c.0 != a.0,
        v.authors[a.0].akas.len() == 0,
    ensures
        v.with_authors(remove_from_cluster(merge_clusters(v.authors, c, a), c, a)) == v,
{
    law_merge_then_remove_lone(v.authors, c, a);
}

/// An author counts as free of references exactly when it has no books, no
/// appearances and no aliases: an author with a book, an appearance or an
/// alias is never free of references.
pub proof fn law_unreferenced_iff_nothing_listed(a: AuthorView)
    ensures
        unreferenced(a) <==> (a.books.len() == 0 && a.appearences.len() == 0 && a.akas.len() == 0),
        a.books.len() > 0 ==> !unreferenced(a),
        a.appearences.len() > 0 ==> !unreferenced(a),
        a.akas.len() > 0 ==> !unreferenced(a),
{
}

/// Loading books from stored entries: each entry that no later entry with
/// the same identifier overrides is found under its own identifier, and
/// nothing is found under an identifier that no entry names.
pub proof fn law_book_map_keeps_identifiers(entries: Seq<(BookId, BookModel)>)
    ensures
        forall|i: int| 0 <= i < entries.len()
            && (forall|j: int| i < j < entries.len() ==> entries[j].0.0 != entries[i].0.0)
            ==> book_map(entries).contains_key(#[trigger] entries[i].0.0)
                && book_map(entries)[entries[i].0.0] == entries[i].1@,
        forall|k: usize| #[trigger] book_map(entries).contains_key(k)
            ==> exists|i: int| 0 <= i < entries.len() && entries[i].0.0 == k,
    decreases entries.len(),
{
    if entries.len() > 0 {
        let pre = entries.drop_last();
        let n = entries.len() - 1;
        law_book_map_keeps_identifiers(pre);
        assert forall|i: int| 0 <= i < entries.len()
            && (forall|j: int| i < j < entries.len() ==> entries[j].0.0 != entries[i].0.0)
            implies book_map(entries).contains_key(#[trigger] entries[i].0.0)
                && book_map(entries)[entries[i].0.0] == entries[i].1@ by {
            if i < n {
                assert(entries[n].0.0 != entries[i].0.0);
                assert(pre[i] == entries[i]);
                assert forall|j: int| i < j < pre.len() implies pre[j].0.0 != pre[i].0.0 by {
                    assert(pre[j] == entries[j]);
                }
            }
        }
        assert forall|k: usize| #[trigger] book_map(entries).contains_key(k)
            implies exists|i: int| 0 <= i < entries.len() && entries[i].0.0 == k by {
            if k != entries[n].0.0 {
                assert(book_map(pre).contains_key(k));
                let i = choose|i: int| 0 <= i < pre.len() && pre[i].0.0 == k;
                assert(entries[i] == pre[i]);
            } else {
                assert(entries[n].0.0 == k);
            }
        }
    }
}

/// Loading authors from stored entries: the author under each identifier is
/// exactly the stored author (name, books, appearances and aliases) of the
/// last entry with that identifier, and nothing is found under an identifier
/// that no entry names.
pub proof fn law_author_map_keeps_authors(entries: Seq<(AuthorId, AuthorModel)>)
    ensures
        forall|i: int| 0 <= i < entries.len()
            && (forall|j: int| i < j < entries.len() ==> entries[j].0.0 != entries[i].0.0)
            ==> author_map(entries).contains_key(#[trigger] entries[i].0.0)
                && author_map(entries)[entries[i].0.0] == entries[i].1@,
        forall|k: usize| #[trigger] author_map(entries).contains_key(k)
            ==> exists|i: int| 0 <= i < entries.len() && entries[i].0.0 == k,
    decreases entries.len(),
{
    if entries.len() > 0 {
        let pre = entries.drop_last();
        let n = entries.len() - 1;
        law_author_map_keeps_authors(pre);
        assert forall|i: int| 0 <= i < entries.len()
            && (forall|j: int| i < j < entries.len() ==> entries[j].0.0 != entries[i].0.0)
            implies author_map(entries).contains_key(#[trigger] entries[i].0.0)
                && author_map(entries)[entries[i].0.0] == entries[i].1@ by {
            if i < n {
                assert(entries[n].0.0 != entries[i].0.0);
                assert(pre[i] == entries[i]);
                assert forall|j: int| i < j < pre.len() implies pre[j].0.0 != pre[i].0.0 by {
                    assert(pre[j] == entries[j]);
                }
            }
        }
        assert forall|k: usize| #[trigger] author_map(entries).contains_key(k)
            implies exists|i: int| 0 <= i < entries.len() && entries[i].0.0 == k by {
            if k != entries[n].0.0 {
                assert(author_map(pre).contains_key(k));
                let i = choose|i: int| 0 <= i < pre.len() && pre[i].0.0 == k;
                assert(entries[i] == pre[i]);
            } else {
                assert(entries[n].0.0 == k);
            }
        }
    }
}

/// A new library holds no books; it has exactly the two authors under 0 and
/// 1, neither of which has books or appearances, each listing the other as
/// its only alias; so no author refers to a book the library does not hold,
/// and the library is well-formed.
pub proof fn law_new_library_is_empty(name: Seq<char>)
    ensures
        new_library_view(name).name == name,
        new_library_view(name).books.dom().len() == 0,
        new_library_view(name).next_book_id == 0,
        new_library_view(name).next_author_id == 2,
        new_library_view(name).authors.dom() == set![0usize, 1usize],
        forall|k: usize| #[trigger] new_library_view(name).authors.contains_key(k) ==> {
            &&& new_library_view(name).authors[k].books.len() == 0
            &&& new_library_view(name).authors[k].appearences.len() == 0
            &&& new_library_view(name).authors[k].akas == seq![AuthorId((1 - k) as usize)]
        },
        forall|k: usize, i: int| #![trigger new_library_view(name).authors[k].books[i]]
            new_library_view(name).authors.contains_key(k) && 0 <= i < new_library_view(name).authors[k].books.len()
            ==> new_library_view(name).books.contains_key(new_library_view(name).authors[k].books[i].0),
        new_library_view(name).well_formed(),
{
    let v = new_library_view(name);
    assert(v.books.dom() =~= Set::<usize>::empty());
    assert(v.authors.dom() =~= set![0usize, 1usize]);
    assert(aka_consistent(v.authors)) by {
        assert forall|x: usize, y: AuthorId| #[trigger] crate::aka::lists(v.authors, x, y)
            implies y.0 == 1 - x && (x == 0 || x == 1) by {
            if x == 0 {
                assert(v.authors[0usize].akas[0] == AuthorId(1));
            } else {
                assert(v.authors[1usize].akas[0] == AuthorId(0));
            }
        }
        assert(v.authors[0usize].akas[0] == AuthorId(1));
        assert(v.authors[1usize].akas[0] == AuthorId(0));
        assert(crate::aka::lists(v.authors, 0usize, AuthorId(1)));
        assert(crate::aka::lists(v.authors, 1usize, AuthorId(0)));
    }
}

impl Clone for LibraryModel {
    fn clone(&self) -> (r: Self)
        ensures
            r@ == self@,
    {
        LibraryModel {
            name: self.name.clone(),
            next_book_id: self.next_book_id,
            books: self.books.clone(),
            next_author_id: self.next_author_id,
            authors: self.authors.clone(),
        }
    }
}

impl LibraryModel {
    /// An empty library with the given name, apart from the two authors
    /// "Anonymous" and "Unknown", which are aliases of each other.
    pub fn new(name: &str) -> (lib: Self)
        ensures
            lib@ == new_library_view(name@),
            lib@.well_formed(),
            lib@.books.dom().len() == 0,
            forall|k: usize| #[trigger] lib@.authors.contains_key(k)
                ==> lib@.authors[k].books.len() == 0 && lib@.authors[k].appearences.len() == 0,
    {
        let mut lib = Self {
            name: name.to_string(),
            next_author_id: AuthorId::start(),
            next_book_id: BookId::start(),
            books: HashMap::new(),
            authors: HashMap::new(),
        };
        let anon = AuthorModel::build("Anonymous", Vec::new(), Vec::new(), Vec::new());
        let unknown = AuthorModel::build("Unknown", Vec::new(), Vec::new(), Vec::new());
        proof {
            assert(lib@.books =~= Map::<usize, BookView>::empty());
            assert(lib@.authors =~= Map::<usize, AuthorView>::empty());
        }
        let anon_id = lib.add_author(&anon);
        let unknown_id = lib.add_author(&unknown);
        lib.add_aka_pair(anon_id, unknown_id);
        proof {
            let m = lib@.authors;
            assert(m.dom() =~= set![0usize, 1usize]);
            assert(m[0usize].akas =~= seq![AuthorId(1)]);
            assert(m[1usize].akas =~= seq![AuthorId(0)]);
            let nv = new_library_view(name@);
            assert(m[0usize].books =~= nv.authors[0usize].books);
            assert(m[0usize].appearences =~= nv.authors[0usize].appearences);
            assert(m[1usize].books =~= nv.authors[1usize].books);
            assert(m[1usize].appearences =~= nv.authors[1usize].appearences);
            assert(m[0usize] == nv.authors[0usize]);
            assert(m[1usize] == nv.authors[1usize]);
            assert(m =~= nv.authors);
            law_new_library_is_empty(name@);
            assert(AuthorId(0) != AuthorId(1));
            assert(aka_consistent(m)) by {
                assert forall|x: usize, y: AuthorId| #[trigger] crate::aka::lists(m, x, y)
                    implies y.0 == 1 - x && (x == 0 || x == 1) by {
                    if x == 0 {
                        assert(m[0usize].akas[0] == AuthorId(1));
                    } else {
                        assert(m[1usize].akas[0] == AuthorId(0));
                    }
                }
                assert(m[0usize].akas[0] == AuthorId(1));
                assert(m[1usize].akas[0] == AuthorId(0));
                assert(crate::aka::lists(m, 0usize, AuthorId(1)));
                assert(crate::aka::lists(m, 1usize, AuthorId(0)));
            }
        }
        lib
    }

    /// A library made of the given pieces, as they were stored: its name,
    /// the next identifiers to hand out, and its books and authors by
    /// identifier (a later entry replacing an earlier one).
    pub fn from_parts(
        name: &str,
        next_book_id: BookId,
        books: Vec<(BookId, BookModel)>,
        next_author_id: AuthorId,
        authors: Vec<(AuthorId, AuthorModel)>,
    ) -> (lib: Self)
        ensures
            lib@ == (LibraryView {
                name: name@,
                next_book_id: next_book_id.0,
                books: book_map(books@),
                next_author_id: next_author_id.0,
                authors: author_map(authors@),
            }),
            forall|i: int| 0 <= i < books@.len()
                && (forall|j: int| i < j < books@.len() ==> books@[j].0.0 != books@[i].0.0)
                ==> lib@.books.contains_key(#[trigger] books@[i].0.0) && lib@.books[books@[i].0.0] == books@[i].1@,
            forall|k: usize| #[trigger] lib@.books.contains_key(k)
                ==> exists|i: int| 0 <= i < books@.len() && books@[i].0.0 == k,
            forall|i: int| 0 <= i < authors@.len()
                && (forall|j: int| i < j < authors@.len() ==> authors@[j].0.0 != authors@[i].0.0)
                ==> lib@.authors.contains_key(#[trigger] authors@[i].0.0) && lib@.authors[authors@[i].0.0] == authors@[i].1@,
            forall|k: usize| #[trigger] lib@.authors.contains_key(k)
                ==> exists|i: int| 0 <= i < authors@.len() && authors@[i].0.0 == k,
    {
        let mut lib = LibraryModel {
            name: name.to_string(),
            next_book_id,
            books: HashMap::new(),
            next_author_id,
            authors: HashMap::new(),
        };
        let mut books = books;
        let mut authors = authors;
        let ghost all_books = books@;
        let ghost all_authors = authors@;
        proof {
            assert(lib@.books =~= book_map(all_books.subrange(0, 0)));
            assert(lib@.authors =~= author_map(all_authors.subrange(0, 0)));
        }
        let mut i: usize = 0;
        let n = books.len();
        while i < n
            invariant
                n == all_books.len(),
                i <= n,
                books@ == all_books.subrange(i as int, n as int),
                lib@.books == book_map(all_books.subrange(0, i as int)),
                lib@.name == name@,
                lib@.next_book_id == next_book_id.0,
                lib@.next_author_id == next_author_id.0,
                lib@.authors == author_map(all_authors.subrange(0, 0)),
            decreases n - i,
        {
            let (id, book) = books.remove(0);
            lib.books.insert(id.0, book);
            proof {
                assert(all_books.subrange(0, i + 1).drop_last() =~= all_books.subrange(0, i as int));
                assert(all_books[i as int] == (id, book));
                assert(lib@.books =~= book_map(all_books.subrange(0, i + 1)));
                assert(books@ =~= all_books.subrange(i + 1, n as int));
            }
            i = i + 1;
        }
        proof {
            assert(all_books.subrange(0, n as int) =~= all_books);
        }
        let mut j: usize = 0;
        let m = authors.len();
        while j < m
            invariant
                m == all_authors.len(),
                j <= m,
                authors@ == all_authors.subrange(j as int, m as int),
                lib@.authors == author_map(all_authors.subrange(0, j as int)),
                lib@.books == book_map(all_books),
                lib@.name == name@,
                lib@.next_book_id == next_book_id.0,
                lib@.next_author_id == next_author_id.0,
            decreases m - j,
        {
            let (id, author) = authors.remove(0);
            lib.authors.insert(id.0, author);
            proof {
                assert(all_authors.subrange(0, j + 1).drop_last() =~= all_authors.subrange(0, j as int));
                assert(lib@.authors =~= author_map(all_authors.subrange(0, j + 1)));
                assert(authors@ =~= all_authors.subrange(j + 1, m as int));
            }
            j = j + 1;
        }
        proof {
            assert(all_authors.subrange(0, m as int) =~= all_authors);
            law_book_map_keeps_identifiers(all_books);
            law_author_map_keeps_authors(all_authors);
        }
        lib
    }

    /// The identifier the next added book will get.
    pub fn next_book_id(&self) -> (id: BookId)
        ensures
            id.0 == self@.next_book_id,
    {
        self.next_book_id
    }

    /// The identifier the next added author will get.
    pub fn next_author_id(&self) -> (id: AuthorId)
        ensures
            id.0 == self@.next_author_id,
    {
        self.next_author_id
    }

    /// The name of this library.
    pub fn name(&self) -> (r: &str)
        ensures
            r@ == self@.name,
    {
        self.name.as_str()
    }

    /// Renames this library; nothing else changes.
    pub fn set_name(&mut self, name: &str)
        ensures
            final(self)@ == (LibraryView { name: name@, ..old(self)@ }),
    {
        self.name = name.to_string();
    }

    /// The book under `id`, if there is one.
    pub fn get_book(&self, id: BookId) -> (r: Option<&BookModel>)
        ensures
            match r {
                Some(b) => self@.books.contains_key(id.0) && b@ == self@.books[id.0],
                None => !self@.books.contains_key(id.0),
            },
    {
        self.books.get(&id.0)
    }

    /// Adds a copy of `book` under the next book identifier, which it returns.
    pub fn add_book(&mut self, book: &BookModel) -> (id: BookId)
        requires
            old(self)@.next_book_id < usize::MAX,
        ensures
            id.0 == old(self)@.next_book_id,
            final(self)@ == old(self)@.after_add_book(book@),
            old(self)@.well_formed() ==> final(self)@.well_formed(),
    {
        proof {
            law_add_book_then_get(self@, book@);
        }
        let bookid = self.next_book_id;
        self.books.insert(bookid.0, book.clone());
        self.next_book_id = self.next_book_id.increment();
        proof {
            assert(self@.books =~= old(self)@.books.insert(bookid.0, book@));
        }
        bookid
    }

    /// Puts a copy of `book` under `id`, whether or not a book was there.
    pub fn replace_book(&mut self, id: BookId, book: &BookModel)
        ensures
            final(self)@ == old(self)@.with_books(old(self)@.books.insert(id.0, book@)),
            old(self)@.well_formed() && id.0 < old(self)@.next_book_id ==> final(self)@.well_formed(),
    {
        self.books.insert(id.0, book.clone());
        proof {
            assert(self@.books =~= old(self)@.books.insert(id.0, book@));
        }
    }

    /// Removes the book under `bid`, if there is one.
    pub fn delete_book(&mut self, bid: BookId)
        ensures
            final(self)@ == old(self)@.with_books(old(self)@.books.remove(bid.0)),
            old(self)@.well_formed() ==> final(self)@.well_formed(),
    {
        self.books.remove(&bid.0);
        proof {
            assert(self@.books =~= old(self)@.books.remove(bid.0));
        }
    }

    /// The author under `id`, if there is one.
    pub fn get_author(&self, id: &AuthorId) -> (r: Option<&AuthorModel>)
        ensures
            match r {
                Some(a) => self@.authors.contains_key(id.0) && a@ == self@.authors[id.0],
                None => !self@.authors.contains_key(id.0),
            },
    {
        self.authors.get(&id.0)
    }

    /// A mutable reference to the author under `id`, if there is one; what
    /// is written through it is what the library holds under `id` afterwards.
    pub fn mut_author(&mut self, id: AuthorId) -> (r: Option<&mut AuthorModel>)
        ensures
            r is Some <==> old(self)@.authors.contains_key(id.0),
            r matches Some(a) ==> a@ == old(self)@.authors[id.0],
            r matches Some(a) ==> final(self)@.authors == old(self)@.authors.insert(id.0, final(a)@),
            r matches Some(a) ==> final(self)@ == old(self)@.with_authors(old(self)@.authors.insert(id.0, final(a)@)),
            r is None ==> final(self)@.authors == old(self)@.authors,
            r is None ==> final(self)@ == old(self)@,
    {
        match self.authors.entry(id.0) {
            Entry::Occupied(e) => Some(e.into_mut()),
            Entry::Vacant(_) => None,
        }
    }

    /// Adds a copy of `author` under the next author identifier, which it returns.
    pub fn add_author(&mut self, author: &AuthorModel) -> (id: AuthorId)
        requires
            old(self)@.next_author_id < usize::MAX,
        ensures
            id.0 == old(self)@.next_author_id,
            final(self)@ == old(self)@.after_add_author(author@),
            old(self)@.well_formed() && author@.akas.len() == 0 ==> final(self)@.well_formed(),
    {
        proof {
            law_add_author_then_get(self@, author@);
        }
        let authorid = self.next_author_id;
        self.authors.insert(authorid.0, author.clone());
        self.next_author_id = self.next_author_id.increment();
        proof {
            assert(self@.authors =~= old(self)@.authors.insert(authorid.0, author@));
        }
        authorid
    }

    /// Whether nothing refers to the author under `aid` from that author's
    /// side: it has no books, no appearances and no aliases. An identifier
    /// with no author is free of references too.
    pub fn check_auth_noref(&self, aid: AuthorId) -> (r: bool)
        ensures
            r == (!self@.authors.contains_key(aid.0) || unreferenced(self@.authors[aid.0])),
            r == (!self@.authors.contains_key(aid.0) || (self@.authors[aid.0].books.len() == 0
                && self@.authors[aid.0].appearences.len() == 0 && self@.authors[aid.0].akas.len() == 0)),
    {
        proof {
            if self@.authors.contains_key(aid.0) {
                law_unreferenced_iff_nothing_listed(self@.authors[aid.0]);
            }
        }
        if let Some(auth) = self.authors.get(&aid.0) {
            auth.books.len() == 0 && auth.appearences.len() == 0 && auth.akas.len() == 0
        } else {
            true
        }
    }

    /// Removes the author under `aid`, if there is one. Callers first make
    /// sure with `check_auth_noref` that nothing refers to it.
    pub fn delete_author(&mut self, aid: AuthorId)
        ensures
            final(self)@ == old(self)@.with_authors(old(self)@.authors.remove(aid.0)),
            old(self)@.well_formed() && (old(self)@.authors.contains_key(aid.0) ==> old(self)@.authors[aid.0].akas.len() == 0)
                ==> final(self)@.well_formed(),
    {
        proof {
            if self@.well_formed() && (self@.authors.contains_key(aid.0) ==> self@.authors[aid.0].akas.len() == 0) {
                law_remove_unaliased(self@.authors, aid.0);
            }
        }
        let ghost before = self@;
        self.authors.remove(&aid.0);
        proof {
            assert(self@.authors =~= old(self)@.authors.remove(aid.0));
            assert forall|k: usize| #[trigger] self@.authors.contains_key(k) implies before.authors.contains_key(k) by {}
            if before.well_formed() && (before.authors.contains_key(aid.0) ==> before.authors[aid.0].akas.len() == 0) {
                assert(aka_consistent(before.authors.remove(aid.0)));
                assert(aka_consistent(self@.authors));
                assert(self@.books == before.books);
            }
        }
    }

    /// The identifiers of all authors, each once, in no particular order.
    pub fn author_iter(&self) -> (r: Vec<AuthorId>)
        ensures
            r@.no_duplicates(),
            forall|id: AuthorId| r@.contains(id) <==> self@.authors.contains_key(id.0),
    {
        let mut r: Vec<AuthorId> = Vec::new();
        let ghost keys = spec_keys_iter(&self.authors).remaining().unref();
        for k in it: self.authors.keys()
            invariant
                it.seq().unref() == keys,
                r@.len() == it.index(),
                forall|j: int| 0 <= j < it.index() ==> #[trigger] r@[j] == AuthorId(keys[j]),
        {
            r.push(AuthorId(*k));
        }
        proof {
            assert(keys.to_set() == self.authors@.dom());
            assert forall|id: AuthorId| r@.contains(id) <==> self@.authors.contains_key(id.0) by {
                if r@.contains(id) {
                    let j = choose|j: int| 0 <= j < r@.len() && r@[j] == id;
                    assert(r@[j] == AuthorId(keys[j]));
                    assert(keys.to_set().contains(keys[j]));
                }
                if self@.authors.contains_key(id.0) {
                    assert(keys.to_set().contains(id.0));
                    let j = choose|j: int| 0 <= j < keys.len() && keys[j] == id.0;
                    assert(r@[j] == id);
                }
            }
            assert forall|i: int, j: int| 0 <= i < r@.len() && 0 <= j < r@.len() && i != j implies r@[i] != r@[j] by {
                assert(r@[i] == AuthorId(keys[i]));
                assert(r@[j] == AuthorId(keys[j]));
            }
        }
        r
    }

    /// Pairs the authors `aid1` and `aid2` as aliases of each other, where
    /// both exist and neither lists the other yet.
    fn add_aka_pair(&mut self, aid1: AuthorId, aid2: AuthorId)
        ensures
            final(self)@ == old(self)@.with_authors(add_pair(old(self)@.authors, aid1, aid2)),
    {
        let auth = self.authors.get(&aid1.0);
        if auth.is_none() || contains_id(&auth.unwrap().akas, aid2) {
            return;
        }
        let auth = self.authors.get(&aid2.0);
        if auth.is_none() || contains_id(&auth.unwrap().akas, aid1) {
            return;
        }
        let auth = self.mut_author(aid1).unwrap();
        auth.akas.push(aid2);
        let auth = self.mut_author(aid2).unwrap();
        auth.akas.push(aid1);
    }

    /// Unpairs the authors `aid1` and `aid2`, where both exist and each lists
    /// the other.
    fn remove_aka_pair(&mut self, aid1: AuthorId, aid2: AuthorId)
        requires
            aid1.0 != aid2.0,
        ensures
            final(self)@ == old(self)@.with_authors(remove_pair(old(self)@.authors, aid1, aid2)),
    {
        let auth = self.authors.get(&aid1.0);
        if auth.is_none() || !contains_id(&auth.unwrap().akas, aid2) {
            return;
        }
        let auth = self.authors.get(&aid2.0);
        if auth.is_none() || !contains_id(&auth.unwrap().akas, aid1) {
            return;
        }
        let auth = self.mut_author(aid1).unwrap();
        let pos = position_of_id(&auth.akas, aid2).unwrap();
        auth.akas.remove(pos);
        let auth = self.mut_author(aid2).unwrap();
        let pos = position_of_id(&auth.akas, aid1).unwrap();
        auth.akas.remove(pos);
    }

    /// Merges the alias clusters of `c1` and `c2`, each given by one of its
    /// members: afterwards every member of either lists every other member of
    /// both.
    pub fn merge_aka_clusters(&mut self, c1: AuthorId, c2: AuthorId)
        ensures
            final(self)@ == old(self)@.with_authors(merge_clusters(old(self)@.authors, c1, c2)),
            c1.0 == c2.0 ==> final(self)@ == old(self)@,
            old(self)@.well_formed() ==> final(self)@.well_formed(),
            aka_consistent(old(self)@.authors) && old(self)@.authors.contains_key(c1.0)
                && old(self)@.authors.contains_key(c2.0) ==> clusters_merged(old(self)@.authors, final(self)@.authors, c1, c2),
    {
        proof {
            if aka_consistent(self@.authors) && self@.authors.contains_key(c1.0) && self@.authors.contains_key(c2.0) {
                law_merge_clusters(self@.authors, c1, c2);
            }
        }
        // a cluster merged with itself is that cluster
        if c1 == c2 {
            return;
        }
        let auth = self.authors.get(&c1.0);
        if auth.is_none() || contains_id(&auth.unwrap().akas, c2) {
            return;
        }
        let c1_copy = copy_ids(&auth.unwrap().akas);
        let auth = self.authors.get(&c2.0);
        if auth.is_none() {
            return;
        }
        let c2_copy = copy_ids(&auth.unwrap().akas);
        let ghost m0 = self@.authors;
        let ghost v0 = self@;
        let ghost mut pairs: Seq<(AuthorId, AuthorId)> = Seq::empty();
        // first put together the two representatives
        self.add_aka_pair(c1, c2);
        proof {
            lemma_add_pairs_push(m0, pairs, (c1, c2));
            pairs = pairs.push((c1, c2));
            assert(pairs =~= seq![(c1, c2)]);
        }
        let ghost head = pairs;
        let mut j: usize = 0;
        while j < c2_copy.len()
            invariant
                j <= c2_copy@.len(),
                self@ == v0.with_authors(add_pairs(m0, pairs)),
                pairs == head + pair_with(c1, c2_copy@.subrange(0, j as int)),
            decreases c2_copy@.len() - j,
        {
            let aka2 = c2_copy[j];
            self.add_aka_pair(c1, aka2);
            proof {
                lemma_add_pairs_push(m0, pairs, (c1, aka2));
                pairs = pairs.push((c1, aka2));
                assert(c2_copy@.subrange(0, j + 1).drop_last() =~= c2_copy@.subrange(0, j as int));
            }
            j = j + 1;
        }
        proof {
            assert(c2_copy@.subrange(0, c2_copy@.len() as int) =~= c2_copy@);
        }
        let ghost head = pairs;
        // now fix all the other pairs
        let mut i: usize = 0;
        while i < c1_copy.len()
            invariant
                i <= c1_copy@.len(),
                self@ == v0.with_authors(add_pairs(m0, pairs)),
                pairs == head + merge_rest(c1, c2, c1_copy@.subrange(0, i as int), c2_copy@),
            decreases c1_copy@.len() - i,
        {
            let aka1 = c1_copy[i];
            self.add_aka_pair(aka1, c2);
            proof {
                lemma_add_pairs_push(m0, pairs, (aka1, c2));
                pairs = pairs.push((aka1, c2));
            }
            let ghost before = pairs;
            let mut j: usize = 0;
            while j < c2_copy.len()
                invariant
                    j <= c2_copy@.len(),
                    self@ == v0.with_authors(add_pairs(m0, pairs)),
                    pairs == before + cross(c1, aka1, c2_copy@.subrange(0, j as int)),
                decreases c2_copy@.len() - j,
            {
                let aka2 = c2_copy[j];
                self.add_aka_pair(c1, aka2);
                proof {
                    lemma_add_pairs_push(m0, pairs, (c1, aka2));
                    pairs = pairs.push((c1, aka2));
                }
                self.add_aka_pair(aka1, aka2);
                proof {
                    lemma_add_pairs_push(m0, pairs, (aka1, aka2));
                    pairs = pairs.push((aka1, aka2));
                    assert(c2_copy@.subrange(0, j + 1).drop_last() =~= c2_copy@.subrange(0, j as int));
                    assert(pairs =~= before + cross(c1, aka1, c2_copy@.subrange(0, j + 1)));
                }
                j = j + 1;
            }
            proof {
                assert(c2_copy@.subrange(0, c2_copy@.len() as int) =~= c2_copy@);
                assert(c1_copy@.subrange(0, i + 1).drop_last() =~= c1_copy@.subrange(0, i as int));
                assert(pairs =~= head + merge_rest(c1, c2, c1_copy@.subrange(0, i + 1), c2_copy@));
            }
            i = i + 1;
        }
        proof {
            assert(c1_copy@.subrange(0, c1_copy@.len() as int) =~= c1_copy@);
            assert(pairs =~= merge_pairs(c1, c2, c1_copy@, c2_copy@));
        }
    }

    /// Removes `aka` from the alias cluster that `cluster` is a member of:
    /// each alias of `cluster` other than `aka`, and then `cluster` itself, is
    /// unpaired from `aka`, so that in a consistent library no other member
    /// lists `aka` afterwards and `aka` lists none of them. Nothing happens
    /// unless `cluster` exists and lists `aka`.
    pub fn remove_aka_cluster(&mut self, cluster: AuthorId, aka: AuthorId)
        ensures
            final(self)@ == old(self)@.with_authors(remove_from_cluster(old(self)@.authors, cluster, aka)),
            old(self)@.well_formed() ==> final(self)@.well_formed(),
            aka_consistent(old(self)@.authors) && removal_applies(old(self)@.authors, cluster, aka)
                ==> removed_from_cluster(old(self)@.authors, final(self)@.authors, cluster, aka),
    {
        proof {
            if aka_consistent(self@.authors) {
                law_remove_from_cluster(self@.authors, cluster, aka);
            }
        }
        let removal = self.authors.get(&cluster.0);
        if removal.is_none() || !contains_id(&removal.unwrap().akas, aka) {
            return;
        }
        let aka_copy = copy_ids(&removal.unwrap().akas);
        let ghost m0 = self@.authors;
        let ghost v0 = self@;
        let ghost mut pairs: Seq<(AuthorId, AuthorId)> = Seq::empty();
        let mut i: usize = 0;
        while i < aka_copy.len()
            invariant
                i <= aka_copy@.len(),
                self@ == v0.with_authors(remove_pairs(m0, pairs)),
                pairs == removal_pairs(aka, aka_copy@.subrange(0, i as int)),
            decreases aka_copy@.len() - i,
        {
            let id = aka_copy[i];
            proof {
                assert(aka_copy@.subrange(0, i + 1).drop_last() =~= aka_copy@.subrange(0, i as int));
            }
            if id != aka {
                self.remove_aka_pair(id, aka);
                proof {
                    lemma_remove_pairs_push(m0, pairs, (id, aka));
                    pairs = pairs.push((id, aka));
                }
            }
            i = i + 1;
        }
        proof {
            assert(aka_copy@.subrange(0, aka_copy@.len() as int) =~= aka_copy@);
        }
        if cluster != aka {
            self.remove_aka_pair(cluster, aka);
            proof {
                lemma_remove_pairs_push(m0, pairs, (cluster, aka));
            }
        }
        // in a consistent library, `aka` now has no aliases left
    }

    /// The identifiers of all books, each once, in no particular order.
    pub fn book_iter(&self) -> (r: Vec<BookId>)
        ensures
            r@.no_duplicates(),
            forall|id: BookId| r@.contains(id) <==> self@.books.contains_key(id.0),
    {
        let mut r: Vec<BookId> = Vec::new();
        let ghost keys = spec_keys_iter(&self.books).remaining().unref();
        for k in it: self.books.keys()
            invariant
                it.seq().unref() == keys,
                r@.len() == it.index(),
                forall|j: int| 0 <= j < it.index() ==> #[trigger] r@[j] == BookId(keys[j]),
        {
            r.push(BookId(*k));
        }
        proof {
            assert(keys.to_set() == self.books@.dom());
            assert forall|id: BookId| r@.contains(id) <==> self@.books.contains_key(id.0) by {
                if r@.contains(id) {
                    let j = choose|j: int| 0 <= j < r@.len() && r@[j] == id;
                    assert(r@[j] == BookId(keys[j]));
                    assert(keys.to_set().contains(keys[j]));
                }
                if self@.books.contains_key(id.0) {
                    assert(keys.to_set().contains(id.0));
                    let j = choose|j: int| 0 <= j < keys.len() && keys[j] == id.0;
                    assert(r@[j] == id);
                }
            }
            assert forall|i: int, j: int| 0 <= i < r@.len() && 0 <= j < r@.len() && i != j implies r@[i] != r@[j] by {
                assert(r@[i] == BookId(keys[i]));
                assert(r@[j] == BookId(keys[j]));
            }
        }
        r
    }
}

} // verus!
