//! Identifiers of pages and sections.

use vstd::prelude::*;
use crate::error::{Error, ErrorView};
use crate::utils::{file_name, final_component};

verus! {

/// Name of a page or of a section within its parent.
#[derive(Debug, PartialEq, Eq, Hash)]
pub struct Slug(String);

impl View for Slug {
    type V = Seq<char>;

    closed spec fn view(&self) -> Seq<char> {
        self.0@
    }
}

impl Clone for Slug {
    fn clone(&self) -> (copy: Self)
        ensures
            copy == *self,
    {
        Slug(self.0.clone())
    }
}

/// What comes of taking a slug from the directory `path`: the last component of
/// the path where it has one, an error that names the path where it has none.
pub open spec fn slug_of_dir(path: Seq<char>) -> Result<Seq<char>, ErrorView> {
    match final_component(path) {
        Some(name) => Ok(name),
        None => Err(ErrorView::InvalidSlug { path }),
    }
}

impl Slug {
    /// The slug of the page or section that the directory `path` holds: the
    /// directory's own name.
    pub fn try_from_dir(path: &str) -> (made: Result<Self, Error>)
        ensures
            match made {
                Ok(slug) => slug_of_dir(path@) == Ok::<Seq<char>, ErrorView>(slug@),
                Err(e) => slug_of_dir(path@) == Err::<Seq<char>, ErrorView>(e@),
            },
    {
        match file_name(path) {
            Some(name) => Ok(Slug(name)),
            None => Err(Error::InvalidSlug { path: path.to_owned() }),
        }
    }

    /// The text of the slug under which every index page is filed.
    pub open spec fn index_text() -> Seq<char> {
        "_index"@
    }

    /// The slug of an index page.
    pub fn index() -> (slug: Self)
        ensures
            slug@ == Self::index_text(),
    {
        Slug("_index".to_owned())
    }

    /// Wraps `slug` as it is.
    pub fn from_string(slug: String) -> (made: Self)
        ensures
            made@ == slug@,
    {
        Slug(slug)
    }

    /// The text of the slug.
    pub fn as_str(&self) -> (text: &str)
        ensures
            text@ == self@,
    {
        self.0.as_str()
    }

    /// Whether two slugs carry the same text.
    pub fn same(&self, other: &Slug) -> (eq: bool)
        ensures
            eq == (self@ == other@),
    {
        self.0 == other.0
    }
}

impl From<String> for Slug {
    fn from(value: String) -> (slug: Self)
        ensures
            slug@ == value@,
    {
        Slug(value)
    }
}

impl vstd::std_specs::convert::FromSpecImpl<String> for Slug {
    open spec fn obeys_from_spec() -> bool {
        true
    }

    closed spec fn from_spec(value: String) -> Slug {
        Slug(value)
    }
}

impl AsRef<str> for Slug {
    fn as_ref(&self) -> (text: &str)
        ensures
            text@ == self@,
    {
        self.as_str()
    }
}

} // verus!
