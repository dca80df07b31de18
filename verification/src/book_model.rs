//! A book: its own title and authors, its catalogue data and, for a
//! collection or an anthology, the items it contains.
use vstd::prelude::*;
use crate::author_model::copy_ids;
use crate::ids::AuthorId;

verus! {

/// What kind of content a book holds.
#[derive(Debug, Clone, Copy, PartialEq, Eq, Structural)]
pub enum ContentType {
    Singular,
    Collection,
    Anthology,
}

/// A title with its authors: a book itself, or one item inside it.
#[derive(Debug)]
pub struct ItemInfo {
    pub title: String,
    pub authors: Vec<AuthorId>,
}

/// What an item holds, as plain values.
pub struct ItemInfoView {
    pub title: Seq<char>,
    pub authors: Seq<AuthorId>,
}

impl View for ItemInfo {
    type V = ItemInfoView;

    open spec fn view(&self) -> ItemInfoView {
        ItemInfoView { title: self.title@, authors: self.authors@ }
    }
}

impl Clone for ItemInfo {
    fn clone(&self) -> (r: Self)
        ensures
            r@ == self@,
    {
        ItemInfo { title: self.title.clone(), authors: copy_ids(&self.authors) }
    }
}

/// The views of a sequence of items.
pub open spec fn item_views(s: Seq<ItemInfo>) -> Seq<ItemInfoView> {
    s.map_values(|i: ItemInfo| i@)
}

/// A copy of a vector of items.
pub(crate) fn copy_items(v: &Vec<ItemInfo>) -> (r: Vec<ItemInfo>)
    ensures
        item_views(r@) == item_views(v@),
{
    let mut r: Vec<ItemInfo> = Vec::new();
    let mut i: usize = 0;
    while i < v.len()
        invariant
            i <= v.len(),
            r@.len() == i,
            forall|k: int| 0 <= k < i ==> #[trigger] r@[k]@ == v@[k]@,
        decreases v.len() - i,
    {
        r.push(v[i].clone());
        i = i + 1;
    }
    proof {
        assert(item_views(r@) =~= item_views(v@));
    }
    r
}

/// One book of a library.
#[derive(Debug)]
pub struct BookModel {
    pub book: ItemInfo,
    pub series: String,
    pub in_series: String,
    pub publisher: String,
    pub isbn: String,
    pub pubdate: String,
    pub genre: String,
    pub format: String,
    pub annotation: String,
    pub content_type: ContentType,
    pub contents: Vec<ItemInfo>,
}

/// What a book holds, as plain values.
pub struct BookView {
    pub book: ItemInfoView,
    pub series: Seq<char>,
    pub in_series: Seq<char>,
    pub publisher: Seq<char>,
    pub isbn: Seq<char>,
    pub pubdate: Seq<char>,
    pub genre: Seq<char>,
    pub format: Seq<char>,
    pub annotation: Seq<char>,
    pub content_type: ContentType,
    pub contents: Seq<ItemInfoView>,
}

impl View for BookModel {
    type V = BookView;

    open spec fn view(&self) -> BookView {
        BookView {
            book: self.book@,
            series: self.series@,
            in_series: self.in_series@,
            publisher: self.publisher@,
            isbn: self.isbn@,
            pubdate: self.pubdate@,
            genre: self.genre@,
            format: self.format@,
            annotation: self.annotation@,
            content_type: self.content_type,
            contents: item_views(self.contents@),
        }
    }
}

impl Clone for BookModel {
    fn clone(&self) -> (r: Self)
        ensures
            r@ == self@,
    {
        BookModel {
            book: self.book.clone(),
            series: self.series.clone(),
            in_series: self.in_series.clone(),
            publisher: self.publisher.clone(),
            isbn: self.isbn.clone(),
            pubdate: self.pubdate.clone(),
            genre: self.genre.clone(),
            format: self.format.clone(),
            annotation: self.annotation.clone(),
            content_type: self.content_type,
            contents: copy_items(&self.contents),
        }
    }
}

/// What the book editing panel holds while a book is being edited.
#[derive(Debug)]
pub struct BookGuiData {
    pub book: ItemInfo,
    pub series: String,
    pub in_series: String,
    pub publisher: String,
    pub isbn: String,
    pub pubdate: String,
    pub genre: String,
    pub format: String,
    pub annotation: String,
    pub is_collection: bool,
    pub is_anthology: bool,
    pub contents: Vec<ItemInfo>,
}

/// The kind of content that the two check boxes of the editing panel select:
/// a book that is no collection is singular, a collection is an anthology
/// when that box is ticked too.
pub open spec fn content_type_of(is_collection: bool, is_anthology: bool) -> ContentType {
    if !is_collection {
        ContentType::Singular
    } else if !is_anthology {
        ContentType::Collection
    } else {
        ContentType::Anthology
    }
}

impl BookModel {
    /// The book that the editing panel describes.
    pub fn from_bookgui(bgs: &BookGuiData) -> (r: BookModel)
        ensures
            r.book@ == bgs.book@,
            r.series@ == bgs.series@,
            r.in_series@ == bgs.in_series@,
            r.publisher@ == bgs.publisher@,
            r.isbn@ == bgs.isbn@,
            r.pubdate@ == bgs.pubdate@,
            r.genre@ == bgs.genre@,
            r.format@ == bgs.format@,
            r.annotation@ == bgs.annotation@,
            r.content_type == content_type_of(bgs.is_collection, bgs.is_anthology),
            item_views(r.contents@) == item_views(bgs.contents@),
    {
        let bii = ItemInfo { title: bgs.book.title.clone(), authors: copy_ids(&bgs.book.authors) };
        let contents = copy_items(&bgs.contents);
        let content_type = if !bgs.is_collection {
            ContentType::Singular
        } else if !bgs.is_anthology {
            ContentType::Collection
        } else {
            ContentType::Anthology
        };
        BookModel {
            book: bii.clone(),
            series: bgs.series.clone(),
            in_series: bgs.in_series.clone(),
            publisher: bgs.publisher.clone(),
            isbn: bgs.isbn.clone(),
            pubdate: bgs.pubdate.clone(),
            genre: bgs.genre.clone(),
            format: bgs.format.clone(),
            annotation: bgs.annotation.clone(),
            content_type,
            contents: copy_items(&contents),
        }
    }

    /// The title of the book.
    pub fn title(&self) -> (r: &str)
        ensures
            r@ == self.book.title@,
    {
        self.book.title.as_str()
    }

    /// The authors of the book itself, in the order they are kept.
    pub fn author_iter(&self) -> (r: Vec<AuthorId>)
        ensures
            r@ == self.book.authors@,
    {
        copy_ids(&self.book.authors)
    }
}

} // verus!
