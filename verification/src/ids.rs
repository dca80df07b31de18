//! Identifiers handed out by a library for its books and its authors.
use vstd::prelude::*;
use vstd::std_specs::cmp::PartialEqSpecImpl;

verus! {

/// Identifier of a book in a library.
#[derive(Debug, Clone, Copy, Eq, Hash)]
pub struct BookId(pub usize);

/// Identifier of an author in a library.
#[derive(Debug, Clone, Copy, Eq, Hash)]
pub struct AuthorId(pub usize);

impl PartialEq for BookId {
    fn eq(&self, other: &Self) -> (r: bool) {
        self.0 == other.0
    }
}

impl PartialEqSpecImpl for BookId {
    open spec fn obeys_eq_spec() -> bool {
        true
    }

    open spec fn eq_spec(&self, other: &Self) -> bool {
        self.0 == other.0
    }
}

impl PartialEq for AuthorId {
    fn eq(&self, other: &Self) -> (r: bool) {
        self.0 == other.0
    }
}

impl PartialEqSpecImpl for AuthorId {
    open spec fn obeys_eq_spec() -> bool {
        true
    }

    open spec fn eq_spec(&self, other: &Self) -> bool {
        self.0 == other.0
    }
}

impl BookId {
    /// The first identifier a library hands out.
    pub fn start() -> (id: Self)
        ensures
            id.0 == 0,
    {
        BookId(0)
    }

    /// The identifier that follows this one.
    pub fn increment(self) -> (id: Self)
        requires
            self.0 < usize::MAX,
        ensures
            id.0 == self.0 + 1,
    {
        BookId(self.0 + 1)
    }
}

impl AuthorId {
    /// The first identifier a library hands out.
    pub fn start() -> (id: Self)
        ensures
            id.0 == 0,
    {
        AuthorId(0)
    }

    /// The identifier that follows this one.
    pub fn increment(self) -> (id: Self)
        requires
            self.0 < usize::MAX,
        ensures
            id.0 == self.0 + 1,
    {
        AuthorId(self.0 + 1)
    }
}

} // verus!
