//! An author: a name, the books written and appeared in, and its aliases.
use vstd::prelude::*;
use crate::ids::{AuthorId, BookId};
use vstd::std_specs::cmp::PartialEqSpec;

verus! {

/// One author of a library.
///
/// The library keeps the `akas` of the authors of one alias cluster in step:
/// every member of a cluster lists every other member.
#[derive(Debug)]
pub struct AuthorModel {
    pub name: String,
    pub books: Vec<BookId>,
    pub appearences: Vec<BookId>,
    pub akas: Vec<AuthorId>,
}

/// What an author holds, as plain values.
pub struct AuthorView {
    pub name: Seq<char>,
    pub books: Seq<BookId>,
    pub appearences: Seq<BookId>,
    pub akas: Seq<AuthorId>,
}

impl View for AuthorModel {
    type V = AuthorView;

    open spec fn view(&self) -> AuthorView {
        AuthorView {
            name: self.name@,
            books: self.books@,
            appearences: self.appearences@,
            akas: self.akas@,
        }
    }
}

/// A copy of a vector of identifiers.
pub(crate) fn copy_ids<T: Copy>(v: &Vec<T>) -> (r: Vec<T>)
    ensures
        r@ == v@,
{
    let mut r: Vec<T> = Vec::new();
    let mut i: usize = 0;
    while i < v.len()
        invariant
            i <= v.len(),
            r@ == v@.subrange(0, i as int),
        decreases v.len() - i,
    {
        r.push(v[i]);
        i = i + 1;
        proof {
            assert(r@ =~= v@.subrange(0, i as int));
        }
    }
    proof {
        assert(v@.subrange(0, v.len() as int) =~= v@);
    }
    r
}

impl Clone for AuthorModel {
    fn clone(&self) -> (r: Self)
        ensures
            r@ == self@,
    {
        AuthorModel {
            name: self.name.clone(),
            books: copy_ids(&self.books),
            appearences: copy_ids(&self.appearences),
            akas: copy_ids(&self.akas),
        }
    }
}

impl AuthorModel {
    /// An author made of the given pieces.
    pub fn build(name: &str, books: Vec<BookId>, appearences: Vec<BookId>, akas: Vec<AuthorId>) -> (r: Self)
        ensures
            r.name@ == name@,
            r.books@ == books@,
            r.appearences@ == appearences@,
            r.akas@ == akas@,
    {
        AuthorModel { name: name.to_string(), books, appearences, akas }
    }

    /// Renames the author; nothing else changes.
    pub fn set_name(&mut self, name: &str)
        ensures
            final(self).name@ == name@,
            final(self).books@ == old(self).books@,
            final(self).appearences@ == old(self).appearences@,
            final(self).akas@ == old(self).akas@,
    {
        self.name = name.to_string();
    }

    /// The author's aliases, in the order they are kept.
    pub fn aka_iter(&self) -> (r: Vec<AuthorId>)
        ensures
            r@ == self.akas@,
    {
        copy_ids(&self.akas)
    }
}

/// The position of the first element of `v` equal to `val`, if any.
pub fn vec_find<T: PartialEq>(v: &[T], val: T) -> (r: Option<usize>)
    ensures
        r matches Some(i) ==> i < v@.len(),
        T::obeys_eq_spec() ==> match r {
            Some(i) => v@[i as int].eq_spec(&val) && forall|j: int|
                0 <= j < i ==> !#[trigger] v@[j].eq_spec(&val),
            None => forall|j: int| 0 <= j < v@.len() ==> !#[trigger] v@[j].eq_spec(&val),
        },
{
    let mut index: usize = 0;
    while index < v.len()
        invariant
            index <= v@.len(),
            T::obeys_eq_spec() ==> forall|j: int| 0 <= j < index ==> !#[trigger] v@[j].eq_spec(&val),
        decreases v@.len() - index,
    {
        if v[index] == val {
            return Some(index);
        }
        index = index + 1;
    }
    None
}

/// Whether `v` holds `id`.
pub(crate) fn contains_id(v: &[AuthorId], id: AuthorId) -> (r: bool)
    ensures
        r == v@.contains(id),
{
    let found = vec_find(v, id);
    proof {
        match found {
            Some(i) => {
                assert(v@[i as int].0 == id.0);
                assert(v@[i as int] == id);
            },
            None => {
                assert forall|j: int| 0 <= j < v@.len() implies v@[j] != id by {
                    assert(!v@[j].eq_spec(&id));
                }
            },
        }
    }
    found.is_some()
}


/// The position of the first occurrence of `id` in `v`, if any.
pub(crate) fn position_of_id(v: &Vec<AuthorId>, id: AuthorId) -> (r: Option<usize>)
    ensures
        match r {
            Some(i) => i < v@.len() && v@.index_of_first(id) == Some(i as int),
            None => v@.index_of_first(id) is None && !v@.contains(id),
        },
{
    let found = vec_find(v.as_slice(), id);
    proof {
        v@.index_of_first_ensures(id);
        match found {
            Some(i) => {
                assert(v@[i as int] == id);
                assert forall|j: int| 0 <= j < i implies v@[j] != id by {
                    assert(!v@[j].eq_spec(&id));
                }
            },
            None => {
                assert forall|j: int| 0 <= j < v@.len() implies v@[j] != id by {
                    assert(!v@[j].eq_spec(&id));
                }
            },
        }
    }
    found
}

} // verus!
