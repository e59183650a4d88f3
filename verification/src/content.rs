//! What the frontmatter of a page holds.

use vstd::prelude::*;
use crate::slug_map::lemma_named_at;
use crate::value::{Datetime, Dict, IntoValue, Value, ValueView};

verus! {

/// The value that a frontmatter of the given title and publication is told to
/// a page as: both under their names.
pub open spec fn frontmatter_value(title: Seq<char>, publication: Datetime) -> ValueView {
    ValueView::Dict(
        seq![
            ("title"@, ValueView::Str(title)),
            ("publication"@, ValueView::Datetime(publication)),
        ],
    )
}

/// The value of a frontmatter of the given title and publication.
fn frontmatter_to_value(title: &String, publication: Datetime) -> (made: Value)
    ensures
        made@ == frontmatter_value(title@, publication),
{
    let mut d = Dict::new();
    d.insert("title".to_owned(), Value::Str(title.clone()));
    proof {
        lemma_named_at(Seq::<(Seq<char>, ValueView)>::empty(), "title"@);
        reveal_strlit("title");
        reveal_strlit("publication");
        assert("title"@.len() != "publication"@.len());
        lemma_named_at(d@, "publication"@);
    }
    d.insert("publication".to_owned(), Value::Datetime(publication));
    assert(d@ =~= seq![
        ("title"@, ValueView::Str(title@)),
        ("publication"@, ValueView::Datetime(publication)),
    ]);
    Value::Dict(d)
}

/// The frontmatter of an index page.
#[derive(Debug, PartialEq, Eq)]
pub struct IndexFrontmatter {
    title: String,
    publication: Datetime,
}

impl IndexFrontmatter {
    /// The title of the page.
    pub closed spec fn spec_title(&self) -> Seq<char> {
        self.title@
    }

    /// When the page was published, on the clock of the place where it was written.
    pub closed spec fn spec_publication(&self) -> Datetime {
        self.publication
    }

    /// A frontmatter of the given parts.
    pub fn new(title: String, publication: Datetime) -> (made: Self)
        ensures
            made.spec_title() == title@,
            made.spec_publication() == publication,
    {
        IndexFrontmatter { title, publication }
    }

    /// The frontmatter as a value: title and publication under their names.
    pub fn to_typst(&self) -> (made: Value)
        ensures
            made@ == frontmatter_value(self.spec_title(), self.spec_publication()),
    {
        frontmatter_to_value(&self.title, self.publication)
    }
}

impl IntoValue for IndexFrontmatter {
    open spec fn value(&self) -> ValueView {
        frontmatter_value(self.spec_title(), self.spec_publication())
    }

    fn into_value(&self) -> (made: Value) {
        self.to_typst()
    }
}

/// The frontmatter of a leaf page.
#[derive(Debug, PartialEq, Eq)]
pub struct LeafFrontmatter {
    title: String,
    publication: Datetime,
}

impl LeafFrontmatter {
    /// The title of the page.
    pub closed spec fn spec_title(&self) -> Seq<char> {
        self.title@
    }

    /// When the page was published, on the clock of the place where it was written.
    pub closed spec fn spec_publication(&self) -> Datetime {
        self.publication
    }

    /// A frontmatter of the given parts.
    pub fn new(title: String, publication: Datetime) -> (made: Self)
        ensures
            made.spec_title() == title@,
            made.spec_publication() == publication,
    {
        LeafFrontmatter { title, publication }
    }

    /// The frontmatter as a value: title and publication under their names.
    pub fn to_typst(&self) -> (made: Value)
        ensures
            made@ == frontmatter_value(self.spec_title(), self.spec_publication()),
    {
        frontmatter_to_value(&self.title, self.publication)
    }
}

impl IntoValue for LeafFrontmatter {
    open spec fn value(&self) -> ValueView {
        frontmatter_value(self.spec_title(), self.spec_publication())
    }

    fn into_value(&self) -> (made: Value) {
        self.to_typst()
    }
}

} // verus!
