# rolodex

A library of books and authors, kept by a desktop window, with clusters of
author aliases ("akas"): every member of a cluster lists every other member
of it. The library's operations keep the clusters consistent, given what each
one's contract asks (for instance, an author is added without aliases, and
deleted only once nothing refers to it).

- `src/` is the library, verified with Verus:
  - `ids.rs`, `author_model.rs`, `book_model.rs`: identifiers, authors, books;
  - `library_model.rs`: the library itself (books and authors in hash maps,
    identifiers handed out in turn, alias pairing, cluster merging and
    removal), with its model `LibraryView`, the well-formedness it keeps and
    the laws of reading back what was written;
  - `aka.rs`: what consistent alias clusters are, and the proofs that merging
    two clusters makes one and removing an alias takes it out of its cluster;
  - `text.rs`: substring search, name order and trimming of names;
  - `library_window.rs` and `library_window/`: the state behind the window,
    what each message does to it and what the window must do next, and what
    the author panels show.
- `app/` is the program around it: command line, the iced window and rfd file
  dialogs, and the JSON files libraries are saved in (serde copies of the
  library's types).
- `tests/` runs the library on concrete values.
