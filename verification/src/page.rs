//! The kinds of page: the index page of a section, and the leaf pages in it.

use vstd::prelude::*;
use vstd::string::StringExecFns;
use crate::seal::Seal;

verus! {

/// The kind of a section's own page.
pub struct Index;

/// The kind of the pages that a section holds.
pub struct Leaf;

/// What tells one kind of page from the other: the stem of the two file names
/// that make up a page of that kind, its frontmatter and its source.
pub trait Mode: Seal {
    /// The stem, as text.
    spec fn filestem() -> Seq<char>;

    /// The stem of a page's file names.
    fn frontmatter_filestem() -> (stem: String)
        ensures
            stem@ == Self::filestem(),
    ;

    /// The name of the file that holds a page's frontmatter.
    fn frontmatter_filename() -> (name: String)
        ensures
            name@ == Self::filestem() + ".toml"@,
    {
        Self::frontmatter_filestem().concat(".toml")
    }

    /// The name of the file that the compiler starts from.
    fn typst_filename() -> (name: String)
        ensures
            name@ == Self::filestem() + ".typ"@,
    {
        Self::frontmatter_filestem().concat(".typ")
    }
}

impl Seal for Index {

}

impl Mode for Index {
    open spec fn filestem() -> Seq<char> {
        "index"@
    }

    fn frontmatter_filestem() -> (stem: String) {
        "index".to_owned()
    }
}

impl Seal for Leaf {

}

impl Mode for Leaf {
    open spec fn filestem() -> Seq<char> {
        "page"@
    }

    fn frontmatter_filestem() -> (stem: String) {
        "page".to_owned()
    }
}

} // verus!
