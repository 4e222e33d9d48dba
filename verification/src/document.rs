//! The document that is scanned and annotated, as far as the pipeline reads and
//! changes it: where its contents start, the contents, its tag categories and its tags.

use vstd::prelude::*;
use crate::views;
use crate::projector::{AnnotationRequest, AnnotationRequestView, TagCategory, TagCategoryView};

verus! {

#[derive(Debug)]
pub struct Document {
    /// Offset of the first byte of the contents.
    pub start: u64,
    /// The contents, whole.
    pub bytes: Vec<u8>,
    /// The tag categories, in the order in which they were created.
    pub categories: Vec<TagCategory>,
    /// The tags, in the order in which they were added.
    pub tags: Vec<AnnotationRequest>,
}

pub struct DocumentView {
    pub start: int,
    pub bytes: Seq<u8>,
    pub categories: Seq<TagCategoryView>,
    pub tags: Seq<AnnotationRequestView>,
}

impl View for Document {
    type V = DocumentView;

    open spec fn view(&self) -> DocumentView {
        DocumentView {
            start: self.start as int,
            bytes: self.bytes@,
            categories: views(self.categories@),
            tags: views(self.tags@),
        }
    }
}

/// Whether a category named `name` is among `categories`.
pub open spec fn has_category(categories: Seq<TagCategoryView>, name: Seq<char>) -> bool {
    exists|i: int| 0 <= i < categories.len() && #[trigger] categories[i].name == name
}

/// At most one of `categories` is named `name`.
pub open spec fn at_most_one_named(categories: Seq<TagCategoryView>, name: Seq<char>) -> bool {
    forall|i: int, j: int|
        0 <= i < categories.len() && 0 <= j < categories.len() && #[trigger] categories[i].name
            == name && #[trigger] categories[j].name == name ==> i == j
}

/// No two of `categories` share a name.
pub open spec fn names_distinct(categories: Seq<TagCategoryView>) -> bool {
    forall|i: int, j: int|
        0 <= i < categories.len() && 0 <= j < categories.len() && #[trigger] categories[i].name
            == #[trigger] categories[j].name ==> i == j
}

/// The category of `categories` that is named `name`: any of them, and so the only
/// one where no two share a name.
pub open spec fn category_named(categories: Seq<TagCategoryView>, name: Seq<char>) -> TagCategoryView
    recommends
        has_category(categories, name),
{
    categories[choose|i: int| 0 <= i < categories.len() && #[trigger] categories[i].name == name]
}

/// `categories` with one named `name`: as they are where they hold one, else with a
/// new one of that name and glyph after them.
pub open spec fn with_category(
    categories: Seq<TagCategoryView>,
    name: Seq<char>,
    glyph: Seq<char>,
) -> Seq<TagCategoryView> {
    if has_category(categories, name) {
        categories
    } else {
        categories.push(TagCategoryView { name, glyph })
    }
}

impl DocumentView {
    /// The contents end at an address of 64 bits, and no two categories share a name.
    pub open spec fn wf(self) -> bool {
        &&& 0 <= self.start
        &&& self.start + self.bytes.len() <= u64::MAX
        &&& names_distinct(self.categories)
    }
}

/// Resolving a category is idempotent: the first time creates it unless it is
/// there, a second time changes nothing, and after either at most one category has
/// the name.
pub proof fn lemma_category_idempotent(
    categories: Seq<TagCategoryView>,
    name: Seq<char>,
    glyph: Seq<char>,
)
    requires
        names_distinct(categories),
    ensures
        has_category(with_category(categories, name, glyph), name),
        names_distinct(with_category(categories, name, glyph)),
        at_most_one_named(with_category(categories, name, glyph), name),
        with_category(with_category(categories, name, glyph), name, glyph) == with_category(
            categories,
            name,
            glyph,
        ),
        with_category(categories, name, glyph).len() <= categories.len() + 1,
{
    let once = with_category(categories, name, glyph);
    if !has_category(categories, name) {
        assert(once[categories.len() as int].name == name);
        assert forall|i: int, j: int|
            0 <= i < once.len() && 0 <= j < once.len() && #[trigger] once[i].name
                == #[trigger] once[j].name implies i == j by {
            if i < categories.len() && j < categories.len() {
                assert(categories[i].name == categories[j].name);
            } else if i < categories.len() {
                assert(categories[i].name == name);
            } else if j < categories.len() {
                assert(categories[j].name == name);
            }
        }
    }
    assert forall|i: int, j: int|
        0 <= i < once.len() && 0 <= j < once.len() && #[trigger] once[i].name == name
            && #[trigger] once[j].name == name implies i == j by {
        assert(once[i].name == once[j].name);
    }
}

impl Document {
    /// The document is well formed: see `DocumentView::wf`.
    pub open spec fn wf(&self) -> bool {
        self@.wf()
    }

    /// A document without categories and tags, with the given contents from `start`
    /// on; none where the contents would end behind the last address.
    pub fn new(start: u64, bytes: Vec<u8>) -> (document: Option<Document>)
        ensures
            document is Some <==> start + bytes.len() <= u64::MAX,
            document matches Some(d) ==> d.wf() && d@ == (DocumentView {
                start: start as int,
                bytes: bytes@,
                categories: Seq::empty(),
                tags: Seq::empty(),
            }),
    {
        if bytes.len() as u64 > u64::MAX - start {
            return None;
        }
        let document = Document { start, bytes, categories: Vec::new(), tags: Vec::new() };
        assert(document@.categories =~= Seq::empty());
        assert(document@.tags =~= Seq::empty());
        Some(document)
    }

    /// Where the category named `name` stands among the categories, if it is there.
    pub fn find_category(&self, name: &str) -> (found: Option<usize>)
        ensures
            found is Some <==> has_category(self@.categories, name@),
            found matches Some(i) ==> i < self.categories.len() && self.categories[i as int]@.name
                == name@,
    {
        let wanted = name.to_owned();
        let mut i: usize = 0;
        while i < self.categories.len()
            invariant
                i <= self.categories.len(),
                wanted@ == name@,
                forall|k: int| 0 <= k < i ==> (#[trigger] self@.categories[k]).name != name@,
            decreases self.categories.len() - i,
        {
            if self.categories[i].name == wanted {
                assert(self@.categories[i as int].name == name@);
                return Some(i);
            }
            i += 1;
        }
        None
    }

    /// The category named `name`: the one of that name where the document has one,
    /// else a new one with `glyph`, which the document then holds. Says whether it
    /// was created.
    pub fn category(&mut self, name: &str, glyph: &str) -> (resolved: (TagCategory, bool))
        requires
            old(self).wf(),
        ensures
            final(self).wf(),
            resolved.1 == !has_category(old(self)@.categories, name@),
            final(self)@ == (DocumentView {
                categories: with_category(old(self)@.categories, name@, glyph@),
                ..old(self)@
            }),
            resolved.0@.name == name@,
            resolved.1 ==> resolved.0@.glyph == glyph@,
            has_category(final(self)@.categories, name@),
            resolved.0@ == category_named(final(self)@.categories, name@),
    {
        proof {
            lemma_category_idempotent(self@.categories, name@, glyph@);
        }
        let ghost after = with_category(self@.categories, name@, glyph@);
        match self.find_category(name) {
            Some(i) => {
                assert(self@.categories[i as int].name == name@);
                (self.categories[i].duplicate(), false)
            },
            None => {
                let created = TagCategory::new(name, glyph);
                let copy = created.duplicate();
                assert(views(self.categories@.push(created)) == views(self.categories@).push(
                    created@,
                ));
                self.categories.push(created);
                assert(after[after.len() - 1].name == name@);
                (copy, true)
            },
        }
    }

    /// Adds a tag.
    pub fn add_tag(&mut self, request: AnnotationRequest)
        requires
            old(self).wf(),
        ensures
            final(self).wf(),
            final(self)@ == (DocumentView { tags: old(self)@.tags.push(request@), ..old(self)@ }),
    {
        assert(views(self.tags@.push(request)) == views(self.tags@).push(request@));
        self.tags.push(request);
    }
}

} // verus!
