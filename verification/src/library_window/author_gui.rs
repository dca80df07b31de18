//! The author panel: one author's name, its aliases, and the authors that can
//! become its aliases.
use vstd::prelude::*;
use crate::aka::{lemma_cluster_ops_keep_authors, merge_clusters, remove_from_cluster};
use crate::author_model::{contains_id, AuthorModel, AuthorView};
use crate::ids::{AuthorId, BookId};
use crate::library_model::{LibraryModel, LibraryView};
use crate::library_window::author_list_gui::AuthorIdName;
use crate::library_window::{BookPanelLoad, GuiAction, LibraryGuiState, MainPanelEnum};

verus! {

/// The state of the author panel.
#[derive(Debug)]
pub struct AuthorGuiState {
    /// The author shown, or none for an author being created.
    pub author: Option<AuthorId>,
    /// The name as it is being edited.
    pub working_name: String,
    /// The author chosen to become an alias.
    pub aka_choice: Option<AuthorIdName>,
    /// The authors that can be chosen to become aliases.
    pub aka_combo: Vec<AuthorIdName>,
}

impl AuthorGuiState {
    /// Whether the panel shows nothing: no author, no name, no choice and
    /// nothing to choose from.
    pub open spec fn is_clean(&self) -> bool {
        &&& self.author is None
        &&& self.working_name@ == Seq::<char>::empty()
        &&& self.aka_choice is None
        &&& self.aka_combo@ == Seq::<AuthorIdName>::empty()
    }

    /// Shows the author under `aid`, with `name` as the name being edited.
    pub fn set_author(&mut self, aid: AuthorId, name: &str)
        ensures
            final(self).author == Some(aid),
            final(self).working_name@ == name@,
            final(self).aka_choice == old(self).aka_choice,
            final(self).aka_combo == old(self).aka_combo,
    {
        self.author = Some(aid);
        self.working_name = name.to_string();
    }

    /// Empties the panel.
    pub fn clean(&mut self)
        ensures
            final(self).is_clean(),
    {
        self.author = None;
        self.working_name = String::new();
        self.aka_choice = None;
        self.aka_combo = Vec::new();
    }
}

/// A copy of a list of author entries.
pub(crate) fn copy_entries(v: &Vec<AuthorIdName>) -> (r: Vec<AuthorIdName>)
    ensures
        r@ == v@,
{
    let mut r: Vec<AuthorIdName> = Vec::new();
    let mut i: usize = 0;
    while i < v.len()
        invariant
            i <= v.len(),
            r@ == v@.subrange(0, i as int),
        decreases v.len() - i,
    {
        r.push(v[i].clone());
        i = i + 1;
        proof {
            assert(r@ =~= v@.subrange(0, i as int));
        }
    }
    proof {
        assert(v@.subrange(0, v.len() as int) =~= v@);
    }
    r
}

impl Clone for AuthorGuiState {
    fn clone(&self) -> (r: Self)
        ensures
            r.author == self.author,
            r.working_name == self.working_name,
            r.aka_choice == self.aka_choice,
            r.aka_combo@ == self.aka_combo@,
    {
        AuthorGuiState {
            author: self.author,
            working_name: self.working_name.clone(),
            aka_choice: match &self.aka_choice {
                Some(choice) => Some(choice.clone()),
                None => None,
            },
            aka_combo: copy_entries(&self.aka_combo),
        }
    }
}

impl Default for AuthorGuiState {
    fn default() -> (r: Self)
        ensures
            r.is_clean(),
    {
        AuthorGuiState { author: None, working_name: String::new(), aka_choice: None, aka_combo: Vec::new() }
    }
}


/// What the author panel asks of the window.
#[derive(Debug)]
pub enum AuthorMessage {
    /// The name being edited changed to this text.
    ChangeName(String),
    /// Give the author the name being edited, creating the author if need be.
    ApplyName,
    /// Take this author out of the shown author's alias cluster.
    DeleteAka(AuthorId),
    /// This author was chosen to become an alias.
    SelectAka(AuthorIdName),
    /// Merge the chosen author's cluster into the shown author's.
    AddAka,
    /// Show this alias (the name is that of the author shown now).
    ToAKA(AuthorId, String),
    /// Show this book (with its title).
    ToBook(BookId, String),
}

/// `opts` lists, each once and with its name, exactly the authors of `lib`
/// other than `aid` that `akas` does not hold.
pub open spec fn aka_candidates(lib: LibraryView, aid: AuthorId, akas: Seq<AuthorId>, opts: Seq<AuthorIdName>) -> bool {
    &&& forall|i: int, j: int| 0 <= i < j < opts.len() ==> #[trigger] opts[i].id != #[trigger] opts[j].id
    &&& forall|i: int| 0 <= i < opts.len() ==> {
        &&& lib.authors.contains_key(#[trigger] opts[i].id.0)
        &&& opts[i].id != aid
        &&& !akas.contains(opts[i].id)
        &&& opts[i].name@ == lib.authors[opts[i].id.0].name
    }
    &&& forall|k: usize| #[trigger] lib.authors.contains_key(k) && AuthorId(k) != aid && !akas.contains(AuthorId(k))
        ==> exists|i: int| 0 <= i < opts.len() && opts[i].id == AuthorId(k)
}

/// Each entry of `opts` is, once and with its name, an author of `lib`
/// listed in `done`, other than `aid`, that `akas` does not hold.
pub open spec fn candidates_valid(lib: LibraryView, aid: AuthorId, akas: Seq<AuthorId>, opts: Seq<AuthorIdName>, done: Seq<AuthorId>) -> bool {
    &&& forall|i: int, j: int| 0 <= i < j < opts.len() ==> #[trigger] opts[i].id != #[trigger] opts[j].id
    &&& forall|i: int| 0 <= i < opts.len() ==> {
        &&& lib.authors.contains_key(#[trigger] opts[i].id.0)
        &&& opts[i].id != aid
        &&& !akas.contains(opts[i].id)
        &&& opts[i].name@ == lib.authors[opts[i].id.0].name
        &&& done.contains(opts[i].id)
    }
}

/// Every author listed in `done` other than `aid` that `akas` does not hold
/// has an entry in `opts`.
pub open spec fn candidates_complete(aid: AuthorId, akas: Seq<AuthorId>, opts: Seq<AuthorIdName>, done: Seq<AuthorId>) -> bool {
    forall|j: int| 0 <= j < done.len() && #[trigger] done[j] != aid && !akas.contains(done[j])
        ==> exists|i: int| 0 <= i < opts.len() && opts[i].id == done[j]
}

/// Taking one more author into account, as an entry at the end or not.
proof fn lemma_candidates_step(
    lib: LibraryView,
    aid: AuthorId,
    akas: Seq<AuthorId>,
    before: Seq<AuthorIdName>,
    after: Seq<AuthorIdName>,
    done: Seq<AuthorId>,
    id: AuthorId,
)
    requires
        candidates_valid(lib, aid, akas, before, done),
        candidates_complete(aid, akas, before, done),
        !done.contains(id),
        lib.authors.contains_key(id.0),
        id != aid && !akas.contains(id) ==> after.len() == before.len() + 1 && after[before.len() as int].id == id
            && after[before.len() as int].name@ == lib.authors[id.0].name
            && forall|i: int| 0 <= i < before.len() ==> #[trigger] after[i] == before[i],
        !(id != aid && !akas.contains(id)) ==> after == before,
    ensures
        candidates_valid(lib, aid, akas, after, done.push(id)),
        candidates_complete(aid, akas, after, done.push(id)),
{
    let d = done.push(id);
    assert forall|x: AuthorId| done.contains(x) implies #[trigger] d.contains(x) by {
        let k = choose|k: int| 0 <= k < done.len() && done[k] == x;
        assert(d[k] == x);
    }
    assert(d[done.len() as int] == id);
    if id != aid && !akas.contains(id) {
        assert forall|i: int| 0 <= i < after.len() implies {
            &&& lib.authors.contains_key(#[trigger] after[i].id.0)
            &&& after[i].id != aid
            &&& !akas.contains(after[i].id)
            &&& after[i].name@ == lib.authors[after[i].id.0].name
            &&& d.contains(after[i].id)
        } by {
            if i < before.len() {
                assert(after[i] == before[i]);
                assert(lib.authors.contains_key(before[i].id.0));
            }
        }
        assert forall|i: int, j: int| 0 <= i < j < after.len() implies #[trigger] after[i].id != #[trigger] after[j].id by {
            assert(after[i] == before[i]);
            if j < before.len() {
                assert(after[j] == before[j]);
            } else {
                assert(lib.authors.contains_key(before[i].id.0));
            }
        }
        assert forall|j: int| 0 <= j < d.len() && #[trigger] d[j] != aid && !akas.contains(d[j])
            implies exists|i: int| 0 <= i < after.len() && after[i].id == d[j] by {
            if j < done.len() {
                assert(d[j] == done[j]);
                let i = choose|i: int| 0 <= i < before.len() && before[i].id == done[j];
                assert(after[i] == before[i]);
            } else {
                assert(after[before.len() as int].id == d[j]);
            }
        }
    } else {
        assert forall|i: int| 0 <= i < after.len() implies {
            &&& lib.authors.contains_key(#[trigger] after[i].id.0)
            &&& d.contains(after[i].id)
        } by {
            assert(lib.authors.contains_key(before[i].id.0));
        }
        assert forall|j: int| 0 <= j < d.len() && #[trigger] d[j] != aid && !akas.contains(d[j])
            implies exists|i: int| 0 <= i < after.len() && after[i].id == d[j] by {
            if j < done.len() {
                assert(d[j] == done[j]);
            }
        }
    }
}

/// The authors of `library` other than `aid` that `akas` does not hold, with
/// their names, in the order the library lists its authors.
fn candidate_akas(library: &LibraryModel, aid: AuthorId, akas: &[AuthorId]) -> (r: Vec<AuthorIdName>)
    ensures
        aka_candidates(library@, aid, akas@, r@),
{
    let ids = library.author_iter();
    let mut cakas: Vec<AuthorIdName> = Vec::new();
    let mut n: usize = 0;
    while n < ids.len()
        invariant
            n <= ids@.len(),
            ids@.no_duplicates(),
            forall|id: AuthorId| ids@.contains(id) <==> library@.authors.contains_key(id.0),
            candidates_valid(library@, aid, akas@, cakas@, ids@.subrange(0, n as int)),
            candidates_complete(aid, akas@, cakas@, ids@.subrange(0, n as int)),
        decreases ids@.len() - n,
    {
        let akaid = ids[n];
        let ghost before = cakas@;
        let ghost done = ids@.subrange(0, n as int);
        proof {
            assert(ids@.contains(akaid));
            assert(ids@.subrange(0, n + 1) =~= done.push(akaid));
            if done.contains(akaid) {
                let k = choose|k: int| 0 <= k < n && done[k] == akaid;
                assert(ids@[k] == ids@[n as int]);
            }
        }
        if akaid != aid && !contains_id(akas, akaid) {
            let name = library.get_author(&akaid).unwrap().name.clone();
            cakas.push(AuthorIdName { id: akaid, name });
        }
        proof {
            lemma_candidates_step(library@, aid, akas@, before, cakas@, done, akaid);
        }
        n = n + 1;
    }
    proof {
        assert(ids@.subrange(0, ids@.len() as int) =~= ids@);
        assert forall|k: usize| #[trigger] library@.authors.contains_key(k) && AuthorId(k) != aid && !akas@.contains(AuthorId(k))
            implies exists|i: int| 0 <= i < cakas@.len() && cakas@[i].id == AuthorId(k) by {
            assert(ids@.contains(AuthorId(k)));
            let j = choose|j: int| 0 <= j < ids@.len() && ids@[j] == AuthorId(k);
            assert(ids@[j] == AuthorId(k));
        }
        assert forall|i: int| 0 <= i < cakas@.len() implies {
            &&& library@.authors.contains_key(#[trigger] cakas@[i].id.0)
            &&& cakas@[i].id != aid
            &&& !akas@.contains(cakas@[i].id)
            &&& cakas@[i].name@ == library@.authors[cakas@[i].id.0].name
        } by {
            assert(library@.authors.contains_key(cakas@[i].id.0));
        }
    }
    cakas
}


/// The library with the author under `aid` renamed to `name`.
pub open spec fn renamed(lib: LibraryView, aid: AuthorId, name: Seq<char>) -> LibraryView {
    lib.with_authors(lib.authors.insert(aid.0, AuthorView { name, ..lib.authors[aid.0] }))
}

/// Renaming an author of the library changes only that author's name: its
/// books, appearances and aliases, all other authors, the books and the rest
/// of the library stay as they were.
pub proof fn law_renamed_changes_only_the_name(lib: LibraryView, aid: AuthorId, name: Seq<char>)
    requires
        lib.authors.contains_key(aid.0),
    ensures
        renamed(lib, aid, name).authors.contains_key(aid.0),
        renamed(lib, aid, name).authors[aid.0].name == name,
        renamed(lib, aid, name).authors[aid.0].books == lib.authors[aid.0].books,
        renamed(lib, aid, name).authors[aid.0].appearences == lib.authors[aid.0].appearences,
        renamed(lib, aid, name).authors[aid.0].akas == lib.authors[aid.0].akas,
        renamed(lib, aid, name).authors.dom() == lib.authors.dom(),
        forall|k: usize| k != aid.0 && #[trigger] lib.authors.contains_key(k)
            ==> renamed(lib, aid, name).authors[k] == lib.authors[k],
        renamed(lib, aid, name).books == lib.books,
        renamed(lib, aid, name).name == lib.name,
        renamed(lib, aid, name).next_book_id == lib.next_book_id,
        renamed(lib, aid, name).next_author_id == lib.next_author_id,
{
    assert(renamed(lib, aid, name).authors.dom() =~= lib.authors.dom());
}

/// The library with a new author named `name`, without books or aliases,
/// under the next author identifier.
pub open spec fn with_new_author(lib: LibraryView, name: Seq<char>) -> LibraryView {
    LibraryView {
        next_author_id: (lib.next_author_id + 1) as usize,
        authors: lib.authors.insert(
            lib.next_author_id,
            AuthorView { name, books: Seq::empty(), appearences: Seq::empty(), akas: Seq::empty() },
        ),
        ..lib
    }
}

/// Fills the author panel's choice of new aliases for the author `aid`
/// whose aliases are `akas`: every other author of the library that `akas`
/// does not hold. Without a library nothing changes.
fn mk_aka_combo(guistate: &mut LibraryGuiState, aid: AuthorId, akas: &[AuthorId])
    ensures
        final(guistate).library == old(guistate).library,
        final(guistate).same_frame(&*old(guistate)),
        final(guistate).messageline == old(guistate).messageline,
        final(guistate).database_dirty == old(guistate).database_dirty,
        final(guistate).mainpanel_dirty == old(guistate).mainpanel_dirty,
        final(guistate).author_state.author == old(guistate).author_state.author,
        final(guistate).author_state.working_name == old(guistate).author_state.working_name,
        final(guistate).author_state.aka_choice == old(guistate).author_state.aka_choice,
        match old(guistate).library {
            Some(lib) => aka_candidates(lib@, aid, akas@, final(guistate).author_state.aka_combo@),
            None => final(guistate).author_state.aka_combo == old(guistate).author_state.aka_combo,
        },
{
    if let Some(library) = &guistate.library {
        let cakas = candidate_akas(library, aid, akas);
        guistate.author_state.aka_combo = cakas;
    }
}

/// Whether the author panel can take `message` in the window state `pre`.
pub open spec fn author_update_ok(pre: LibraryGuiState, message: AuthorMessage) -> bool {
    match message {
        AuthorMessage::ApplyName => pre.author_state.author is None
            && pre.author_state.working_name@.len() > 0
            && pre.library is Some ==> pre.library->0@.next_author_id < usize::MAX,
        AuthorMessage::DeleteAka(_) | AuthorMessage::AddAka => pre.author_state.author matches Some(this)
            ==> pre.library matches Some(lib) && lib@.authors.contains_key(this.0),
        _ => true,
    }
}

/// What taking `message` into account in the author panel makes of the window
/// state `pre`: the state `post`, and the `action` asked of the window.
pub open spec fn author_update_post(pre: LibraryGuiState, post: LibraryGuiState, message: AuthorMessage, action: GuiAction) -> bool {
    &&& match message {
        AuthorMessage::ToBook(bid, _) => action == GuiAction::LoadBookPanel(match pre.library {
            None => BookPanelLoad::Nothing,
            Some(lib) => if lib@.books.contains_key(bid.0) {
                BookPanelLoad::Show(bid, false)
            } else {
                BookPanelLoad::Blank(false)
            },
        }),
        _ => action matches GuiAction::Nothing,
    }
    &&& match message {
        AuthorMessage::ChangeName(nstr) => {
            &&& post.author_state.working_name == nstr
            &&& post.mainpanel_dirty
            &&& post.library == pre.library
            &&& post.same_frame(&pre)
            &&& post.database_dirty == pre.database_dirty
            &&& post.author_state.author == pre.author_state.author
            &&& post.author_state.aka_choice == pre.author_state.aka_choice
            &&& post.author_state.aka_combo == pre.author_state.aka_combo
        },
        AuthorMessage::ApplyName => {
            let name = pre.author_state.working_name@;
            let applies = name.len() > 0 && pre.library is Some && match pre.author_state.author {
                Some(aid) => pre.library->0@.authors.contains_key(aid.0),
                None => true,
            };
            &&& post.same_frame(&pre)
            &&& post.author_state.working_name == pre.author_state.working_name
            &&& post.author_state.aka_choice == pre.author_state.aka_choice
            &&& !applies ==> {
                &&& post.library_view() == pre.library_view()
                &&& post.database_dirty == pre.database_dirty
                &&& post.mainpanel_dirty == pre.mainpanel_dirty
                &&& post.author_state == pre.author_state
            }
            &&& applies ==> {
                let lib = pre.library->0@;
                let new_lib = match pre.author_state.author {
                    Some(aid) => renamed(lib, aid, name),
                    None => with_new_author(lib, name),
                };
                let aid = match pre.author_state.author {
                    Some(aid) => aid,
                    None => AuthorId(lib.next_author_id),
                };
                &&& post.library_view() == Some(new_lib)
                &&& post.author_state.author == Some(aid)
                &&& !post.mainpanel_dirty
                &&& post.database_dirty
                &&& aka_candidates(new_lib, aid, new_lib.authors[aid.0].akas, post.author_state.aka_combo@)
            }
        },
        AuthorMessage::DeleteAka(aid) => {
            &&& post.same_frame(&pre)
            &&& post.database_dirty == pre.database_dirty
            &&& post.mainpanel_dirty == pre.mainpanel_dirty
            &&& post.author_state.author == pre.author_state.author
            &&& post.author_state.working_name == pre.author_state.working_name
            &&& post.author_state.aka_choice == pre.author_state.aka_choice
            &&& match pre.author_state.author {
                Some(this) => {
                    let lib = pre.library->0@;
                    let new_lib = lib.with_authors(remove_from_cluster(lib.authors, this, aid));
                    &&& post.library_view() == Some(new_lib)
                    &&& aka_candidates(new_lib, this, new_lib.authors[this.0].akas, post.author_state.aka_combo@)
                },
                None => {
                    &&& post.library == pre.library
                    &&& post.author_state.aka_combo == pre.author_state.aka_combo
                },
            }
        },
        AuthorMessage::SelectAka(aidn) => {
            &&& post.author_state.aka_choice == Some(aidn)
            &&& post.mainpanel_dirty
            &&& post.library == pre.library
            &&& post.same_frame(&pre)
            &&& post.database_dirty == pre.database_dirty
            &&& post.author_state.author == pre.author_state.author
            &&& post.author_state.working_name == pre.author_state.working_name
            &&& post.author_state.aka_combo == pre.author_state.aka_combo
        },
        AuthorMessage::AddAka => {
            &&& post.same_frame(&pre)
            &&& post.author_state.author == pre.author_state.author
            &&& post.author_state.working_name == pre.author_state.working_name
            &&& match (pre.author_state.author, pre.author_state.aka_choice) {
                (Some(this), Some(choice)) => {
                    let lib = pre.library->0@;
                    let new_lib = lib.with_authors(merge_clusters(lib.authors, this, choice.id));
                    &&& post.library_view() == Some(new_lib)
                    &&& post.author_state.aka_choice is None
                    &&& !post.mainpanel_dirty
                    &&& post.database_dirty
                    &&& aka_candidates(new_lib, this, new_lib.authors[this.0].akas, post.author_state.aka_combo@)
                },
                (Some(this), None) => {
                    let lib = pre.library->0@;
                    &&& post.library == pre.library
                    &&& post.author_state.aka_choice is None
                    &&& post.database_dirty == pre.database_dirty
                    &&& post.mainpanel_dirty == pre.mainpanel_dirty
                    &&& aka_candidates(lib, this, lib.authors[this.0].akas, post.author_state.aka_combo@)
                },
                (None, _) => {
                    &&& post.library == pre.library
                    &&& post.author_state == pre.author_state
                    &&& post.database_dirty == pre.database_dirty
                    &&& post.mainpanel_dirty == pre.mainpanel_dirty
                },
            }
        },
        AuthorMessage::ToAKA(aid, aname) => {
            &&& post.main_state.panel_state == MainPanelEnum::Author
            &&& post.author_state.author == Some(aid)
            &&& post.author_state.working_name@ == aname@
            &&& post.author_state.aka_choice == pre.author_state.aka_choice
            &&& post.author_state.aka_combo == pre.author_state.aka_combo
            &&& post.library == pre.library
            &&& post.database_dirty == pre.database_dirty
            &&& post.mainpanel_dirty == pre.mainpanel_dirty
            &&& post.file_name == pre.file_name
            &&& post.alt_control == pre.alt_control
            &&& post.filter == pre.filter
        },
        AuthorMessage::ToBook(bid, _) => {
            &&& post.main_state.panel_state == MainPanelEnum::Book
            &&& post.library == pre.library
            &&& post.author_state == pre.author_state
            &&& post.database_dirty == pre.database_dirty
            &&& post.mainpanel_dirty == pre.mainpanel_dirty
            &&& post.file_name == pre.file_name
            &&& post.alt_control == pre.alt_control
            &&& post.filter == pre.filter
        },
    }
}

/// Takes a message of the author panel into account.
///
/// - `ChangeName`: the text becomes the name being edited, an unfinished edit.
/// - `ApplyName`: where the name being edited is not empty and a library is
///   open, the shown author (if the library has it) gets that name, or a new
///   author with that name is added and shown; either way the edit is done,
///   the library has unsaved changes, and the choice of new aliases is
///   filled afresh.
/// - `DeleteAka`: the alias leaves the shown author's cluster, and the choice
///   of new aliases is filled afresh; the mark of unsaved changes stays as it
///   was.
/// - `SelectAka`: the author becomes the choice of new alias, an unfinished
///   edit.
/// - `AddAka`: where an alias was chosen, its cluster and the shown author's
///   become one, the choice is forgotten, the edit is done and the library
///   has unsaved changes; the choice of new aliases is filled afresh.
/// - `ToAKA` and `ToBook` select the author panel, or the book panel.
pub fn author_update(guistate: &mut LibraryGuiState, message: AuthorMessage) -> (action: GuiAction)
    requires
        author_update_ok(*old(guistate), message),
    ensures
        final(guistate).messageline == old(guistate).messageline,
        author_update_post(*old(guistate), *final(guistate), message, action),
{
    match message {
        AuthorMessage::ChangeName(nstr) => {
            guistate.author_state.working_name = nstr;
            guistate.mainpanel_dirty = true;
        },
        AuthorMessage::ApplyName => {
            if !guistate.author_state.working_name.as_str().is_empty() && guistate.library.is_some() {
                let name = guistate.author_state.working_name.clone();
                match guistate.author_state.author {
                    Some(aid) => {
                        let mut akas: Option<Vec<AuthorId>> = None;
                        if let Some(lib) = &mut guistate.library {
                            if let Some(auth) = lib.mut_author(aid) {
                                auth.set_name(name.as_str());
                                akas = Some(auth.aka_iter());
                            }
                        }
                        if let Some(akas) = akas {
                            guistate.mainpanel_dirty = false;
                            guistate.database_dirty = true;
                            mk_aka_combo(guistate, aid, akas.as_slice());
                        }
                    },
                    None => {
                        let author = AuthorModel::build(name.as_str(), Vec::new(), Vec::new(), Vec::new());
                        let mut added: Option<AuthorId> = None;
                        if let Some(lib) = &mut guistate.library {
                            added = Some(lib.add_author(&author));
                        }
                        if let Some(aid) = added {
                            guistate.author_state.author = Some(aid);
                            guistate.mainpanel_dirty = false;
                            guistate.database_dirty = true;
                            let none: Vec<AuthorId> = Vec::new();
                            mk_aka_combo(guistate, aid, none.as_slice());
                        }
                    },
                }
            }
        },
        AuthorMessage::DeleteAka(aid) => {
            if let Some(thisaid) = guistate.author_state.author {
                let mut akas: Vec<AuthorId> = Vec::new();
                if let Some(lib) = &mut guistate.library {
                    proof {
                        lemma_cluster_ops_keep_authors(lib@.authors, thisaid, aid);
                    }
                    lib.remove_aka_cluster(thisaid, aid);
                    akas = lib.get_author(&thisaid).unwrap().aka_iter();
                }
                mk_aka_combo(guistate, thisaid, akas.as_slice());
            }
        },
        AuthorMessage::SelectAka(aidn) => {
            guistate.author_state.aka_choice = Some(aidn.clone());
            guistate.mainpanel_dirty = true;
        },
        AuthorMessage::AddAka => {
            if let Some(thisaid) = guistate.author_state.author {
                if let Some(choice) = &guistate.author_state.aka_choice {
                    let cid = choice.id;
                    if let Some(lib) = &mut guistate.library {
                        proof {
                            lemma_cluster_ops_keep_authors(lib@.authors, thisaid, cid);
                        }
                        lib.merge_aka_clusters(thisaid, cid);
                    }
                    guistate.author_state.aka_choice = None;
                    guistate.mainpanel_dirty = false;
                    guistate.database_dirty = true;
                }
                let mut akas: Vec<AuthorId> = Vec::new();
                if let Some(lib) = &guistate.library {
                    akas = lib.get_author(&thisaid).unwrap().aka_iter();
                }
                mk_aka_combo(guistate, thisaid, akas.as_slice());
            }
        },
        AuthorMessage::ToAKA(aid, aname) => guistate.set_author(aid, aname.as_str()),
        AuthorMessage::ToBook(bid, _bname) => {
            let load = guistate.set_book(bid, false);
            return GuiAction::LoadBookPanel(load);
        },
    }
    GuiAction::Nothing
}


/// What the author panel shows of the library: the shown author's name, its
/// aliases that the library has (with their names), the titles of its books
/// and of the collections it appears in that the library has, and whether
/// a chosen alias can be added.
pub struct AuthorPanelData {
    pub author_name: String,
    pub akas: Vec<AuthorIdName>,
    pub books: Vec<(BookId, String)>,
    pub collections: Vec<(BookId, String)>,
    pub add_enabled: bool,
}

/// Whether `lib` has an author under an identifier.
pub open spec fn has_author(lib: LibraryView) -> spec_fn(AuthorId) -> bool {
    |id: AuthorId| lib.authors.contains_key(id.0)
}

/// Whether `lib` has a book under an identifier.
pub open spec fn has_book(lib: LibraryView) -> spec_fn(BookId) -> bool {
    |id: BookId| lib.books.contains_key(id.0)
}

/// `r` lists, in order, the identifiers of `ids` under which `lib` has an
/// author, each with that author's name.
pub open spec fn existing_authors(lib: LibraryView, ids: Seq<AuthorId>, r: Seq<AuthorIdName>) -> bool {
    let kept = ids.filter(has_author(lib));
    &&& r.len() == kept.len()
    &&& forall|i: int| 0 <= i < r.len() ==> #[trigger] r[i].id == kept[i] && r[i].name@ == lib.authors[kept[i].0].name
}

/// `r` lists, in order, the identifiers of `ids` under which `lib` has a
/// book, each with that book's title.
pub open spec fn existing_books(lib: LibraryView, ids: Seq<BookId>, r: Seq<(BookId, String)>) -> bool {
    let kept = ids.filter(has_book(lib));
    &&& r.len() == kept.len()
    &&& forall|i: int| 0 <= i < r.len() ==> #[trigger] r[i].0 == kept[i] && r[i].1@ == lib.books[kept[i].0].book.title
}

/// The aliases among `ids` that `library` has, with their names.
fn existing_akas(library: &LibraryModel, ids: &Vec<AuthorId>) -> (r: Vec<AuthorIdName>)
    ensures
        existing_authors(library@, ids@, r@),
{
    let mut r: Vec<AuthorIdName> = Vec::new();
    let mut i: usize = 0;
    while i < ids.len()
        invariant
            i <= ids@.len(),
            existing_authors(library@, ids@.subrange(0, i as int), r@),
        decreases ids@.len() - i,
    {
        let id = ids[i];
        proof {
            assert(ids@.subrange(0, i + 1).drop_last() =~= ids@.subrange(0, i as int));
            reveal_with_fuel(Seq::filter, 1);
        }
        if let Some(auth) = library.get_author(&id) {
            r.push(AuthorIdName { id, name: auth.name.clone() });
        }
        i = i + 1;
    }
    proof {
        assert(ids@.subrange(0, ids@.len() as int) =~= ids@);
    }
    r
}

/// The books among `ids` that `library` has, with their titles.
fn existing_titles(library: &LibraryModel, ids: &Vec<BookId>) -> (r: Vec<(BookId, String)>)
    ensures
        existing_books(library@, ids@, r@),
{
    let mut r: Vec<(BookId, String)> = Vec::new();
    let mut i: usize = 0;
    while i < ids.len()
        invariant
            i <= ids@.len(),
            existing_books(library@, ids@.subrange(0, i as int), r@),
        decreases ids@.len() - i,
    {
        let id = ids[i];
        proof {
            assert(ids@.subrange(0, i + 1).drop_last() =~= ids@.subrange(0, i as int));
            reveal_with_fuel(Seq::filter, 1);
        }
        if let Some(book) = library.get_book(id) {
            r.push((id, book.book.title.clone()));
        }
        i = i + 1;
    }
    proof {
        assert(ids@.subrange(0, ids@.len() as int) =~= ids@);
    }
    r
}

/// What the author panel shows, where a library is open and has the shown
/// author; otherwise the panel shows only the name being edited.
pub fn author_view_data(guistate: &LibraryGuiState) -> (r: Option<AuthorPanelData>)
    ensures
        match r {
            Some(data) => {
                &&& guistate.library matches Some(lib) && guistate.author_state.author matches Some(aid)
                    && lib@.authors.contains_key(aid.0)
                &&& data.author_name@ == guistate.library.unwrap()@.authors[guistate.author_state.author.unwrap().0].name
                &&& existing_authors(
                    guistate.library.unwrap()@,
                    guistate.library.unwrap()@.authors[guistate.author_state.author.unwrap().0].akas,
                    data.akas@,
                )
                &&& existing_books(
                    guistate.library.unwrap()@,
                    guistate.library.unwrap()@.authors[guistate.author_state.author.unwrap().0].books,
                    data.books@,
                )
                &&& existing_books(
                    guistate.library.unwrap()@,
                    guistate.library.unwrap()@.authors[guistate.author_state.author.unwrap().0].appearences,
                    data.collections@,
                )
                &&& data.add_enabled == guistate.author_state.aka_choice is Some
            },
            None => !(guistate.library matches Some(lib) && guistate.author_state.author matches Some(aid)
                && lib@.authors.contains_key(aid.0)),
        },
{
    match (&guistate.library, guistate.author_state.author) {
        (Some(lib), Some(aid)) => match lib.get_author(&aid) {
            Some(auth) => Some(AuthorPanelData {
                author_name: auth.name.clone(),
                akas: existing_akas(lib, &auth.akas),
                books: existing_titles(lib, &auth.books),
                collections: existing_titles(lib, &auth.appearences),
                add_enabled: guistate.author_state.aka_choice.is_some(),
            }),
            None => None,
        },
        _ => None,
    }
}

} // verus!
