//! The author list panel: the authors whose names match a filter, by name.
use vstd::prelude::*;
use crate::ids::AuthorId;
use crate::library_model::{unreferenced, LibraryModel, LibraryView};
use crate::text::{
    lemma_name_less_asymmetric, lemma_name_less_transitive, name_less, occurs_in, str_contains, str_less,
    str_trim, trimmed,
};
use crate::library_window::{GuiAction, LibraryGuiState, MainPanelEnum};

verus! {

/// An author's identifier with the author's name.
#[derive(Debug)]
pub struct AuthorIdName {
    pub id: AuthorId,
    pub name: String,
}

impl Clone for AuthorIdName {
    fn clone(&self) -> (r: Self)
        ensures
            r == *self,
    {
        AuthorIdName { id: self.id, name: self.name.clone() }
    }
}

impl AuthorIdName {
    /// The text a selection list shows for this entry: the name alone.
    pub fn to_string(&self) -> (r: String)
        ensures
            r@ == self.name@,
    {
        self.name.clone()
    }
}

/// No entry of `s` comes after a later one in the order of names.
pub open spec fn sorted_by_name(s: Seq<AuthorIdName>) -> bool {
    forall|i: int, j: int| 0 <= i < j < s.len() ==> !name_less(#[trigger] s[j].name@, #[trigger] s[i].name@)
}

/// Puts `item` into the name-sorted `list` after every entry whose name does
/// not come after its own.
fn insert_by_name(list: &mut Vec<AuthorIdName>, item: AuthorIdName)
    requires
        sorted_by_name(old(list)@),
    ensures
        sorted_by_name(final(list)@),
        exists|pos: int| 0 <= pos <= old(list)@.len() && final(list)@ == old(list)@.insert(pos, item),
{
    let mut pos: usize = 0;
    while pos < list.len()
        invariant
            pos <= list@.len(),
            list@ == old(list)@,
            sorted_by_name(list@),
            forall|k: int| 0 <= k < pos ==> !name_less(item.name@, #[trigger] list@[k].name@),
        ensures
            pos <= list@.len(),
            list@ == old(list)@,
            forall|k: int| 0 <= k < pos ==> !name_less(item.name@, #[trigger] list@[k].name@),
            pos < list@.len() ==> name_less(item.name@, list@[pos as int].name@),
        decreases list@.len() - pos,
    {
        if str_less(item.name.as_str(), list[pos].name.as_str()) {
            break;
        }
        pos = pos + 1;
    }
    let ghost before = list@;
    let ghost it = item;
    list.insert(pos, item);
    proof {
        let s = list@;
        assert(s == before.insert(pos as int, it));
        assert forall|i: int, j: int| 0 <= i < j < s.len() implies !name_less(#[trigger] s[j].name@, #[trigger] s[i].name@) by {
            if j < pos {
                assert(s[i] == before[i] && s[j] == before[j]);
            } else if j == pos {
                assert(s[i] == before[i]);
                assert(!name_less(it.name@, before[i].name@));
            } else if i == pos {
                assert(s[j] == before[j - 1]);
                assert(name_less(it.name@, before[pos as int].name@));
                if j - 1 > pos {
                    assert(!name_less(before[j - 1].name@, before[pos as int].name@));
                }
                lemma_name_less_asymmetric(it.name@, before[pos as int].name@);
                if name_less(before[j - 1].name@, it.name@) {
                    lemma_name_less_transitive(before[j - 1].name@, it.name@, before[pos as int].name@);
                }
            } else if i < pos {
                assert(s[i] == before[i] && s[j] == before[j - 1]);
            } else {
                assert(s[i] == before[i - 1] && s[j] == before[j - 1]);
            }
        }
    }
}

/// Each entry is an author of the library listed in `done`, under its own
/// name, which contains `filter`; no author has two entries.
pub open spec fn entries_valid(lib: LibraryView, filter: Seq<char>, list: Seq<AuthorIdName>, done: Seq<AuthorId>) -> bool {
    &&& forall|i: int, j: int| 0 <= i < j < list.len() ==> #[trigger] list[i].id != #[trigger] list[j].id
    &&& forall|i: int| 0 <= i < list.len() ==> {
        &&& lib.authors.contains_key(#[trigger] list[i].id.0)
        &&& list[i].name@ == lib.authors[list[i].id.0].name
        &&& occurs_in(filter, list[i].name@)
        &&& done.contains(list[i].id)
    }
}

/// Every author listed in `done` whose name contains `filter` has an entry.
pub open spec fn entries_complete(lib: LibraryView, filter: Seq<char>, list: Seq<AuthorIdName>, done: Seq<AuthorId>) -> bool {
    forall|j: int| 0 <= j < done.len() && occurs_in(filter, lib.authors[#[trigger] done[j].0].name)
        ==> exists|i: int| 0 <= i < list.len() && list[i].id == done[j]
}

/// Taking one more author into account, with or without an entry for it.
proof fn lemma_entries_step(
    lib: LibraryView,
    filter: Seq<char>,
    before: Seq<AuthorIdName>,
    after: Seq<AuthorIdName>,
    done: Seq<AuthorId>,
    id: AuthorId,
    pos: int,
)
    requires
        entries_valid(lib, filter, before, done),
        entries_complete(lib, filter, before, done),
        !done.contains(id),
        lib.authors.contains_key(id.0),
        occurs_in(filter, lib.authors[id.0].name) ==> 0 <= pos <= before.len() && after.len() == before.len() + 1
            && after[pos].id == id && after[pos].name@ == lib.authors[id.0].name
            && (forall|i: int| 0 <= i < pos ==> #[trigger] after[i] == before[i])
            && (forall|i: int| pos < i < after.len() ==> #[trigger] after[i] == before[i - 1]),
        !occurs_in(filter, lib.authors[id.0].name) ==> after == before,
    ensures
        entries_valid(lib, filter, after, done.push(id)),
        entries_complete(lib, filter, after, done.push(id)),
{
    let d = done.push(id);
    assert forall|x: AuthorId| done.contains(x) implies #[trigger] d.contains(x) by {
        let k = choose|k: int| 0 <= k < done.len() && done[k] == x;
        assert(d[k] == x);
    }
    assert(d[done.len() as int] == id);
    if occurs_in(filter, lib.authors[id.0].name) {
        assert forall|i: int| 0 <= i < after.len() implies {
            &&& lib.authors.contains_key(#[trigger] after[i].id.0)
            &&& after[i].name@ == lib.authors[after[i].id.0].name
            &&& occurs_in(filter, after[i].name@)
            &&& d.contains(after[i].id)
        } by {
            if i < pos {
                assert(after[i] == before[i]);
            } else if i > pos {
                assert(after[i] == before[i - 1]);
            }
        }
        assert forall|i: int, j: int| 0 <= i < j < after.len() implies #[trigger] after[i].id != #[trigger] after[j].id by {
            if i != pos && j != pos {
                let ii = if i < pos { i } else { i - 1 };
                let jj = if j < pos { j } else { j - 1 };
                assert(after[i] == before[ii]);
                assert(after[j] == before[jj]);
            } else if i == pos {
                assert(after[j] == before[j - 1]);
                assert(lib.authors.contains_key(before[j - 1].id.0));
                assert(done.contains(before[j - 1].id));
            } else {
                assert(after[i] == before[i]);
                assert(lib.authors.contains_key(before[i].id.0));
                assert(done.contains(before[i].id));
            }
        }
        assert forall|j: int| 0 <= j < d.len() && occurs_in(filter, lib.authors[#[trigger] d[j].0].name)
            implies exists|i: int| 0 <= i < after.len() && after[i].id == d[j] by {
            if j < done.len() {
                assert(d[j] == done[j]);
                let i = choose|i: int| 0 <= i < before.len() && before[i].id == done[j];
                if i < pos {
                    assert(after[i] == before[i]);
                } else {
                    assert(after[i + 1] == before[i]);
                }
            } else {
                assert(after[pos].id == d[j]);
            }
        }
    } else {
        assert forall|j: int| 0 <= j < d.len() && occurs_in(filter, lib.authors[#[trigger] d[j].0].name)
            implies exists|i: int| 0 <= i < after.len() && after[i].id == d[j] by {
            assert(j < done.len());
            assert(d[j] == done[j]);
        }
    }
}

/// `list` holds the authors of `lib` whose names contain `filter`, each once,
/// with their names, sorted by name.
pub open spec fn author_list_of(lib: LibraryView, filter: Seq<char>, list: Seq<AuthorIdName>) -> bool {
    &&& sorted_by_name(list)
    &&& forall|i: int, j: int| 0 <= i < j < list.len() ==> #[trigger] list[i].id != #[trigger] list[j].id
    &&& forall|i: int| 0 <= i < list.len() ==> {
        &&& lib.authors.contains_key(#[trigger] list[i].id.0)
        &&& list[i].name@ == lib.authors[list[i].id.0].name
        &&& occurs_in(filter, list[i].name@)
    }
    &&& forall|k: usize| #[trigger] lib.authors.contains_key(k) && occurs_in(filter, lib.authors[k].name)
        ==> exists|i: int| 0 <= i < list.len() && list[i].id == AuthorId(k)
}

/// The authors of `lib` whose names contain `filter`, each once, with their
/// names, sorted by name.
pub fn mk_author_list(lib: &LibraryModel, filter: &str) -> (list: Vec<AuthorIdName>)
    ensures
        author_list_of(lib@, filter@, list@),
{
    let mut list: Vec<AuthorIdName> = Vec::new();
    let ids = lib.author_iter();
    let mut n: usize = 0;
    while n < ids.len()
        invariant
            n <= ids@.len(),
            ids@.no_duplicates(),
            forall|id: AuthorId| ids@.contains(id) <==> lib@.authors.contains_key(id.0),
            sorted_by_name(list@),
            entries_valid(lib@, filter@, list@, ids@.subrange(0, n as int)),
            entries_complete(lib@, filter@, list@, ids@.subrange(0, n as int)),
        decreases ids@.len() - n,
    {
        let id = ids[n];
        let ghost done = ids@.subrange(0, n as int);
        let ghost before = list@;
        proof {
            assert(ids@.contains(id));
            assert(ids@.subrange(0, n + 1) =~= done.push(id));
            if done.contains(id) {
                let k = choose|k: int| 0 <= k < done.len() && done[k] == id;
                assert(ids@[k] == ids@[n as int]);
            }
        }
        if let Some(auth) = lib.get_author(&id) {
            if str_contains(auth.name.as_str(), filter) {
                let item = AuthorIdName { id, name: auth.name.clone() };
                let ghost it = item;
                insert_by_name(&mut list, item);
                proof {
                    let pos = choose|pos: int| 0 <= pos <= before.len() && list@ == before.insert(pos, it);
                    lemma_entries_step(lib@, filter@, before, list@, done, id, pos);
                }
            } else {
                proof {
                    lemma_entries_step(lib@, filter@, before, list@, done, id, 0);
                }
            }
        }
        n = n + 1;
    }
    proof {
        assert(ids@.subrange(0, ids@.len() as int) =~= ids@);
        assert forall|k: usize| #[trigger] lib@.authors.contains_key(k) && occurs_in(filter@, lib@.authors[k].name)
            implies exists|i: int| 0 <= i < list@.len() && list@[i].id == AuthorId(k) by {
            assert(ids@.contains(AuthorId(k)));
            let j = choose|j: int| 0 <= j < ids@.len() && ids@[j] == AuthorId(k);
            assert(ids@[j].0 == k);
        }
        assert forall|i: int| 0 <= i < list@.len() implies {
            &&& lib@.authors.contains_key(#[trigger] list@[i].id.0)
            &&& list@[i].name@ == lib@.authors[list@[i].id.0].name
            &&& occurs_in(filter@, list@[i].name@)
        } by {}
    }
    list
}


/// What the author list panel asks of the window.
#[derive(Debug)]
pub enum AuthorListMessage {
    /// Show this author (with its name).
    DisplayAuthor(AuthorId, String),
    /// Show an empty author panel, to create an author.
    AddAuthor,
    /// Remove this author from the library.
    DelAuthor(AuthorId),
    /// List the authors whose names contain this text, without its leading
    /// and trailing white space.
    Search(String),
}

/// What taking `message` into account in the author list panel makes of the
/// window state `pre`: the state `post`, and the `action` asked of the window.
pub open spec fn author_list_update_post(pre: LibraryGuiState, post: LibraryGuiState, message: AuthorListMessage, action: GuiAction) -> bool {
    &&& action is Nothing
    &&& match message {
        AuthorListMessage::DisplayAuthor(aid, name) => {
            &&& post.main_state.panel_state == MainPanelEnum::Author
            &&& post.author_state.author == Some(aid)
            &&& post.author_state.working_name@ == name@
            &&& post.author_state.aka_choice == pre.author_state.aka_choice
            &&& post.author_state.aka_combo == pre.author_state.aka_combo
            &&& post.library == pre.library
            &&& post.database_dirty == pre.database_dirty
            &&& post.mainpanel_dirty == pre.mainpanel_dirty
            &&& post.file_name == pre.file_name
            &&& post.alt_control == pre.alt_control
            &&& post.filter == pre.filter
        },
        AuthorListMessage::AddAuthor => {
            &&& post.main_state.panel_state == MainPanelEnum::Author
            &&& post.author_state.is_clean()
            &&& post.library == pre.library
            &&& post.database_dirty == pre.database_dirty
            &&& post.mainpanel_dirty == pre.mainpanel_dirty
            &&& post.file_name == pre.file_name
            &&& post.alt_control == pre.alt_control
            &&& post.filter == pre.filter
        },
        AuthorListMessage::DelAuthor(aid) => {
            let lib = pre.library->0@;
            &&& post.library_view() == Some(lib.with_authors(lib.authors.remove(aid.0)))
            &&& post.database_dirty
            &&& post.same_frame(&pre)
            &&& post.mainpanel_dirty == pre.mainpanel_dirty
            &&& post.author_state == pre.author_state
        },
        AuthorListMessage::Search(instr) => {
            &&& trimmed(instr@, post.filter@)
            &&& post.library == pre.library
            &&& post.main_state == pre.main_state
            &&& post.database_dirty == pre.database_dirty
            &&& post.mainpanel_dirty == pre.mainpanel_dirty
            &&& post.file_name == pre.file_name
            &&& post.alt_control == pre.alt_control
            &&& post.author_state == pre.author_state
        },
    }
}

/// Takes a message of the author list panel into account.
pub fn author_list_update(guistate: &mut LibraryGuiState, message: AuthorListMessage) -> (action: GuiAction)
    requires
        message is DelAuthor ==> old(guistate).library is Some,
    ensures
        final(guistate).messageline == old(guistate).messageline,
        author_list_update_post(*old(guistate), *final(guistate), message, action),
{
    match message {
        AuthorListMessage::DisplayAuthor(aid, name) => guistate.set_author(aid, name.as_str()),
        AuthorListMessage::AddAuthor => {
            guistate.main_state.panel_state = MainPanelEnum::Author;
            guistate.author_state.clean();
        },
        AuthorListMessage::DelAuthor(aid) => {
            if let Some(lib) = &mut guistate.library {
                lib.delete_author(aid);
            }
            guistate.database_dirty = true;
        },
        AuthorListMessage::Search(instr) => guistate.filter = str_trim(instr.as_str()).to_string(),
    }
    GuiAction::Nothing
}


/// The rows of the author list panel: the authors whose names contain the
/// filter, by name, each with whether it can be deleted, which it can where
/// nothing refers to it.
pub fn author_list_view_data(guistate: &LibraryGuiState) -> (rows: Vec<(AuthorIdName, bool)>)
    requires
        guistate.library is Some,
    ensures
        author_list_of(guistate.library.unwrap()@, guistate.filter@, rows@.map_values(|row: (AuthorIdName, bool)| row.0)),
        forall|i: int| 0 <= i < rows@.len() ==> #[trigger] rows@[i].1 == unreferenced(
            guistate.library.unwrap()@.authors[rows@[i].0.id.0],
        ),
{
    let lib = guistate.library.as_ref().unwrap();
    let list = mk_author_list(lib, guistate.filter.as_str());
    let mut rows: Vec<(AuthorIdName, bool)> = Vec::new();
    let mut i: usize = 0;
    while i < list.len()
        invariant
            i <= list@.len(),
            author_list_of(lib@, guistate.filter@, list@),
            rows@.len() == i,
            forall|k: int| 0 <= k < i ==> #[trigger] rows@[k].0 == list@[k] && rows@[k].1 == unreferenced(lib@.authors[list@[k].id.0]),
        decreases list@.len() - i,
    {
        let entry = list[i].clone();
        let deletable = lib.check_auth_noref(entry.id);
        proof {
            assert(lib@.authors.contains_key(list@[i as int].id.0));
        }
        let ghost before = rows@;
        rows.push((entry, deletable));
        proof {
            assert forall|k: int| 0 <= k < i + 1 implies #[trigger] rows@[k].0 == list@[k]
                && rows@[k].1 == unreferenced(lib@.authors[list@[k].id.0]) by {
                if k < i {
                    assert(rows@[k] == before[k]);
                }
            }
        }
        i = i + 1;
    }
    proof {
        assert(rows@.map_values(|row: (AuthorIdName, bool)| row.0) =~= list@);
    }
    rows
}

} // verus!
