//! Attaching to each page what its frontmatter file holds.

use std::marker::PhantomData;
use vstd::prelude::*;
use crate::discovery::DiscoveredPage;
use crate::error::{Error, ErrorView};
use crate::page::Mode;
use crate::section::{
    lemma_walk_callable_total, lemma_walk_err_weaken, lemma_walk_ok_weaken, map_index_ready,
    map_index_step, map_leaf_ready, map_leaf_step, same_shape, walk_err, walk_ok, Section,
};
use crate::slug::Slug;
use crate::slug_map::lemma_named_at;
use crate::utils::{join, joined_path, Loaded};
use crate::value::{Dict, IntoValue, Value, ValueView};

verus! {

/// A page together with what its frontmatter file holds.
pub struct PageWithFrontmatter<M, F> {
    slug: Slug,
    content_dir: String,
    frontmatter: F,
    m: PhantomData<M>,
}

/// The frontmatter file of a page of kind `M` that lies in the directory `dir`.
pub open spec fn frontmatter_file<M: Mode>(dir: Seq<char>) -> Seq<char> {
    joined_path(dir, M::filestem() + ".toml"@)
}

/// What is made of the reading of the frontmatter file `file`: a file that
/// cannot be had is a failure of the file system, one that is not what it
/// should be is a malformed frontmatter; both name the file.
pub open spec fn frontmatter_of<F>(file: Seq<char>, loaded: Loaded<F>) -> Result<F, ErrorView> {
    match loaded {
        Loaded::Parsed(frontmatter) => Ok(frontmatter),
        Loaded::NotFound(cause) => Err(ErrorView::FileIO { path: Some(file), raw: cause@ }),
        Loaded::Unreadable(cause) => Err(ErrorView::FileIO { path: Some(file), raw: cause@ }),
        Loaded::Malformed(cause) => Err(
            ErrorView::MalformedFrontmatter { location: file, raw: cause@ },
        ),
    }
}

/// Whether `out` is what comes of the page `slug` in `dir` once the reading of
/// its frontmatter file has ended in `loaded`: the page with its frontmatter,
/// or the error that the reading is judged as.
pub open spec fn page_parsed<M: Mode, F>(
    slug: Slug,
    dir: Seq<char>,
    loaded: Loaded<F>,
    out: Result<PageWithFrontmatter<M, F>, Error>,
) -> bool {
    match frontmatter_of(frontmatter_file::<M>(dir), loaded) {
        Ok(frontmatter) => {
            &&& out matches Ok(page)
            &&& page.spec_slug() == slug
            &&& page.dir() == dir
            &&& page.spec_frontmatter() == frontmatter
        },
        Err(e) => out matches Err(failure) && failure@ == e,
    }
}

/// Whether `load` may be called on every file.
pub open spec fn load_ready<F, Ld: Fn(&str) -> Loaded<F>>(load: Ld) -> bool {
    forall|file: &str| call_requires(load, (file,))
}

/// Whether `out` is something that comes of the discovered page `page` when
/// `load` reads its frontmatter file.
pub open spec fn parse_outcome<M: Mode, F, Ld: Fn(&str) -> Loaded<F>>(
    load: Ld,
    page: DiscoveredPage<M>,
    out: Result<PageWithFrontmatter<M, F>, Error>,
) -> bool {
    exists|file: &str, loaded: Loaded<F>|
        {
            &&& file@ == frontmatter_file::<M>(page.dir())
            &&& call_ensures(load, (file,), loaded)
            &&& page_parsed(page.spec_slug(), page.dir(), loaded, out)
        }
}

/// The parsing of index pages with `load`, as a relation for a walk.
pub open spec fn parse_index_step<M: Mode, F, Ld: Fn(&str) -> Loaded<F>>(load: Ld) -> spec_fn(
    Seq<Slug>,
    DiscoveredPage<M>,
    Result<PageWithFrontmatter<M, F>, Error>,
) -> bool {
    |path: Seq<Slug>, page: DiscoveredPage<M>, out: Result<PageWithFrontmatter<M, F>, Error>|
        parse_outcome(load, page, out)
}

/// The parsing of leaf pages with `load`, as a relation for a walk.
pub open spec fn parse_leaf_step<M: Mode, F, Ld: Fn(&str) -> Loaded<F>>(load: Ld) -> spec_fn(
    Seq<Slug>,
    Slug,
    DiscoveredPage<M>,
    Result<PageWithFrontmatter<M, F>, Error>,
) -> bool {
    |
        path: Seq<Slug>,
        slug: Slug,
        page: DiscoveredPage<M>,
        out: Result<PageWithFrontmatter<M, F>, Error>,
    |
        parse_outcome(load, page, out)
}

impl<M, F> PageWithFrontmatter<M, F> {
    /// The page's slug.
    pub closed spec fn spec_slug(self) -> Slug {
        self.slug
    }

    /// The directory that holds the page.
    pub closed spec fn dir(self) -> Seq<char> {
        self.content_dir@
    }

    /// What the page's frontmatter file holds.
    pub closed spec fn spec_frontmatter(self) -> F {
        self.frontmatter
    }

    /// The page's slug.
    pub fn slug(&self) -> (slug: &Slug)
        ensures
            *slug == self.spec_slug(),
    {
        &self.slug
    }

    /// The directory that holds the page.
    pub fn content_dir(&self) -> (dir: &str)
        ensures
            dir@ == self.dir(),
    {
        self.content_dir.as_str()
    }

    /// What the page's frontmatter file holds.
    pub fn frontmatter(&self) -> (frontmatter: &F)
        ensures
            *frontmatter == self.spec_frontmatter(),
    {
        &self.frontmatter
    }

    /// The page as its parts: slug, directory and frontmatter.
    pub fn into_parts(self) -> (parts: (Slug, String, F))
        ensures
            parts.0 == self.spec_slug(),
            parts.1@ == self.dir(),
            parts.2 == self.spec_frontmatter(),
    {
        (self.slug, self.content_dir, self.frontmatter)
    }
}

impl<M: Mode, F> PageWithFrontmatter<M, F> {
    /// The page `slug` in the directory `dir` with its frontmatter, once the
    /// reading of its frontmatter file has ended in `loaded`.
    pub fn try_parse(slug: Slug, dir: String, loaded: Loaded<F>) -> (parsed: Result<Self, Error>)
        ensures
            page_parsed(slug, dir@, loaded, parsed),
    {
        match loaded {
            Loaded::Parsed(frontmatter) => Ok(
                PageWithFrontmatter { slug, content_dir: dir, frontmatter, m: PhantomData },
            ),
            Loaded::NotFound(cause) => {
                let file = join(dir.as_str(), M::frontmatter_filename().as_str());
                Err(Error::FileIO { path: Some(file), raw: cause })
            },
            Loaded::Unreadable(cause) => {
                let file = join(dir.as_str(), M::frontmatter_filename().as_str());
                Err(Error::FileIO { path: Some(file), raw: cause })
            },
            Loaded::Malformed(cause) => {
                let file = join(dir.as_str(), M::frontmatter_filename().as_str());
                Err(Error::MalformedFrontmatter { location: file, raw: cause })
            },
        }
    }
}

/// The value that a page with the frontmatter value `frontmatter` is told as.
pub open spec fn page_value(frontmatter: ValueView) -> ValueView {
    ValueView::Dict(seq![("frontmatter"@, frontmatter)])
}

impl<M, F: IntoValue> PageWithFrontmatter<M, F> {
    /// The page as a value: its frontmatter under `frontmatter`.
    pub fn to_typst(&self) -> (made: Value)
        ensures
            made@ == page_value(self.spec_frontmatter().value()),
    {
        let mut d = Dict::new();
        proof {
            lemma_named_at(d@, "frontmatter"@);
        }
        d.insert("frontmatter".to_owned(), self.frontmatter.into_value());
        assert(d@ =~= seq![("frontmatter"@, self.spec_frontmatter().value())]);
        Value::Dict(d)
    }
}

impl<M, F: IntoValue> IntoValue for PageWithFrontmatter<M, F> {
    open spec fn value(&self) -> ValueView {
        page_value(self.spec_frontmatter().value())
    }

    fn into_value(&self) -> (made: Value) {
        self.to_typst()
    }
}

impl<M: Mode> DiscoveredPage<M> {
    /// The page with what its frontmatter file holds. The file is read by one
    /// call of `load`.
    pub fn try_parse<F, Ld>(self, load: &Ld) -> (parsed: Result<
        PageWithFrontmatter<M, F>,
        Error,
    >) where Ld: Fn(&str) -> Loaded<F>

        requires
            load_ready(*load),
        ensures
            parse_outcome(*load, self, parsed),
    {
        let (slug, dir) = self.into_parts();
        let file = join(dir.as_str(), M::frontmatter_filename().as_str());
        let at: &str = file.as_str();
        let loaded = load(at);
        let ghost seen = loaded;
        let parsed = PageWithFrontmatter::try_parse(slug, dir, loaded);
        assert(at@ == frontmatter_file::<M>(self.dir()) && call_ensures(*load, (at,), seen)
            && page_parsed(self.spec_slug(), self.dir(), seen, parsed));
        parsed
    }
}

/// Attaches frontmatter to the pages of a tree.
pub struct Parser;

impl Parser {
    /// A parser.
    pub fn new() -> Self {
        Self {  }
    }

    /// The tree with the frontmatter of every page attached. Every index page
    /// has its frontmatter file read by `load_index`, every leaf page by
    /// `load_leaf`, in the order of a walk; the first page whose frontmatter
    /// cannot be had ends the parsing.
    pub fn try_parse<MIndex, MLeaf, FIndex, FLeaf, LdIndex, LdLeaf>(
        &self,
        section: Section<DiscoveredPage<MIndex>, DiscoveredPage<MLeaf>>,
        load_index: LdIndex,
        load_leaf: LdLeaf,
    ) -> (parsed: Result<
        Section<PageWithFrontmatter<MIndex, FIndex>, PageWithFrontmatter<MLeaf, FLeaf>>,
        Error,
    >) where
        MIndex: Mode,
        MLeaf: Mode,
        LdIndex: Fn(&str) -> Loaded<FIndex>,
        LdLeaf: Fn(&str) -> Loaded<FLeaf>,

        requires
            load_ready(load_index),
            load_ready(load_leaf),
        ensures
            match parsed {
                Ok(tree) => {
                    &&& walk_ok(
                        section,
                        tree,
                        Seq::<Slug>::empty(),
                        parse_index_step(load_index),
                        parse_leaf_step(load_leaf),
                    )
                    &&& same_shape(section, tree)
                    &&& section.wf() ==> tree.wf()
                },
                Err(e) => walk_err(
                    section,
                    e,
                    Seq::<Slug>::empty(),
                    parse_index_step(load_index),
                    parse_leaf_step(load_leaf),
                ),
            },
    {
        let index_loader = &load_index;
        let leaf_loader = &load_leaf;
        let on_index = |page: DiscoveredPage<MIndex>| -> (out: Result<
            PageWithFrontmatter<MIndex, FIndex>,
            Error,
        >)
            ensures
                parse_outcome(index_loader, page, out),
            { page.try_parse(index_loader) };
        let on_leaf = |page: DiscoveredPage<MLeaf>| -> (out: Result<
            PageWithFrontmatter<MLeaf, FLeaf>,
            Error,
        >)
            ensures
                parse_outcome(leaf_loader, page, out),
            { page.try_parse(leaf_loader) };
        proof {
            lemma_walk_callable_total(
                section,
                Seq::<Slug>::empty(),
                map_index_ready(on_index),
                map_leaf_ready(on_leaf),
            );
        }
        let parsed = section.try_map(on_index, on_leaf);
        proof {
            let si = map_index_step(on_index);
            let sl = map_leaf_step(on_leaf);
            let ti = parse_index_step(load_index);
            let tl = parse_leaf_step(load_leaf);
            let ghost outcome = parsed;
            match outcome {
                Ok(tree) => {
                    lemma_walk_ok_weaken(section, tree, Seq::<Slug>::empty(), si, sl, ti, tl);
                },
                Err(e) => {
                    lemma_walk_err_weaken(section, e, Seq::<Slug>::empty(), si, sl, ti, tl);
                },
            }
        }
        parsed
    }
}

} // verus!
