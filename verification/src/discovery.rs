//! Finding the pages of a project among what a walk of its content directory
//! brought up.

use std::marker::PhantomData;
use vstd::prelude::*;
use crate::error::{Error, ErrorView};
use crate::page::{Index, Leaf, Mode};
use crate::section::Section;
use crate::slug::{slug_of_dir, Slug};
use crate::slug_map::{lemma_named_at, lemma_position_of, named_at, position_of, put, SlugMap};
use crate::utils::{ends_with, join, joined_path, parent, parent_path, path_has_tail};

verus! {

/// An entry that a walk of a directory came upon, two levels below the
/// directory that the walk began at.
#[derive(Debug, Clone, PartialEq, Eq)]
pub struct WalkEntry {
    /// Where the entry lies.
    pub path: String,
    /// The entry's own name, where it can be read as text.
    pub file_name: Option<String>,
    /// Whether the entry is a regular file.
    pub is_file: bool,
}

/// A place that a walk of a directory could not read.
#[derive(Debug, Clone, PartialEq, Eq)]
pub struct WalkFailure {
    /// The directory that a symbolic link leads back to, where the walk ran into a loop.
    pub loop_ancestor: Option<String>,
    /// Where the walk failed, as far as it is known.
    pub path: Option<String>,
    /// What the file system said.
    pub cause: String,
}

/// Self-contained directory representing a page.
pub struct DiscoveredPage<M> {
    slug: Slug,
    content_dir: String,
    m: PhantomData<M>,
}

/// Whether `entry` is the frontmatter file of a leaf page.
pub open spec fn is_leaf_frontmatter(entry: WalkEntry) -> bool {
    &&& entry.is_file
    &&& entry.file_name matches Some(name)
    &&& name@ == Leaf::filestem() + ".toml"@
}

/// Whether `entry` is a file right inside a directory whose name is kept for
/// other uses than leaf pages.
pub open spec fn in_reserved_dir(entry: WalkEntry) -> bool {
    &&& entry.is_file
    &&& parent_path(entry.path@) matches Some(dir)
    &&& {
        ||| path_has_tail(dir, "_index"@)
        ||| path_has_tail(dir, "posts"@)
        ||| path_has_tail(dir, "static"@)
        ||| path_has_tail(dir, "assets"@)
    }
}

/// Whether `entry` stands for a leaf page.
pub open spec fn marks_leaf_page(entry: WalkEntry) -> bool {
    is_leaf_frontmatter(entry) && !in_reserved_dir(entry)
}

/// The error that a failure of the walk is reported as: a loop of links as a
/// malformed project, naming the directory that the loop leads back to, anything
/// else as a failure of the file system at the place where it happened.
pub open spec fn walk_error(failure: WalkFailure) -> ErrorView {
    match failure.loop_ancestor {
        Some(dir) => ErrorView::MalformedProjectStructure { path: dir@ },
        None => ErrorView::FileIO {
            path: match failure.path {
                Some(path) => Some(path@),
                None => None,
            },
            raw: failure.cause@,
        },
    }
}

/// The leaf page that the frontmatter file `entry` stands for, as its slug and
/// its directory: the directory is the one that holds the file, the slug is that
/// directory's name.
pub open spec fn leaf_page_of(entry: WalkEntry) -> Result<(Seq<char>, Seq<char>), ErrorView> {
    match parent_path(entry.path@) {
        None => Err(ErrorView::InvalidSlug { path: entry.path@ }),
        Some(dir) => match slug_of_dir(dir) {
            Ok(slug) => Ok((slug, dir)),
            Err(e) => Err(e),
        },
    }
}

/// The leaf pages among what a walk brought up, as pairs of slug and directory
/// in the order in which their slugs first came. The walk's finds are taken in
/// order; the first failure of the walk, or the first page without a slug, ends
/// it and is the result.
pub open spec fn leaf_pages(found: Seq<Result<WalkEntry, WalkFailure>>) -> Result<
    Seq<(Seq<char>, Seq<char>)>,
    ErrorView,
>
    decreases found.len(),
{
    if found.len() == 0 {
        Ok(Seq::empty())
    } else {
        match leaf_pages(found.drop_last()) {
            Err(e) => Err(e),
            Ok(pages) => match found.last() {
                Err(failure) => Err(walk_error(failure)),
                Ok(entry) => if !marks_leaf_page(entry) {
                    Ok(pages)
                } else {
                    match leaf_page_of(entry) {
                        Err(e) => Err(e),
                        Ok((slug, dir)) => Ok(put(pages, slug, dir)),
                    }
                },
            },
        }
    }
}

/// The pages of a map as pairs of slug and directory.
pub open spec fn listing<M>(pages: Seq<(Slug, DiscoveredPage<M>)>) -> Seq<(Seq<char>, Seq<char>)> {
    pages.map_values(|page: (Slug, DiscoveredPage<M>)| (page.0@, page.1.dir()))
}

/// Every page of a map is filed under its own slug.
pub open spec fn filed_by_slug<M>(pages: Seq<(Slug, DiscoveredPage<M>)>) -> bool {
    forall|k: int| 0 <= k < pages.len() ==> (#[trigger] pages[k]).1.slug_text() == pages[k].0@
}

/// A slug is found in a map where it is found in the map's listing.
proof fn lemma_listing_position<M>(pages: Seq<(Slug, DiscoveredPage<M>)>, slug: Seq<char>)
    ensures
        named_at(listing(pages), slug) == position_of(pages, slug),
{
    lemma_named_at(listing(pages), slug);
    lemma_position_of(pages, slug);
    match position_of(pages, slug) {
        Some(k) => {
            assert(listing(pages)[k].0 == slug);
            match named_at(listing(pages), slug) {
                Some(j) => {
                    if j < k {
                        assert(pages[j].0@ != slug);
                        assert(listing(pages)[j].0 == pages[j].0@);
                    } else if k < j {
                        assert(listing(pages)[k].0 != slug);
                    }
                },
                None => {},
            }
        },
        None => {
            match named_at(listing(pages), slug) {
                Some(j) => {
                    assert(pages[j].0@ != slug);
                    assert(listing(pages)[j].0 == pages[j].0@);
                },
                None => {},
            }
        },
    }
}

impl<M> DiscoveredPage<M> {
    /// The page's slug.
    pub closed spec fn spec_slug(self) -> Slug {
        self.slug
    }

    /// The text of the page's slug.
    pub open spec fn slug_text(self) -> Seq<char> {
        self.spec_slug()@
    }

    /// The page as its parts: slug and directory.
    pub fn into_parts(self) -> (parts: (Slug, String))
        ensures
            parts.0 == self.spec_slug(),
            parts.1@ == self.dir(),
    {
        (self.slug, self.content_dir)
    }

    /// The directory that holds the page.
    pub closed spec fn dir(self) -> Seq<char> {
        self.content_dir@
    }

    /// The page's slug.
    pub fn slug(&self) -> (slug: &Slug)
        ensures
            *slug == self.spec_slug(),
    {
        &self.slug
    }

    /// The directory that holds the page.
    pub fn content_dir(&self) -> (dir: &str)
        ensures
            dir@ == self.dir(),
    {
        self.content_dir.as_str()
    }
}

impl DiscoveredPage<Index> {
    /// Read an index page from the specified directory.
    pub fn index_page(dir: String) -> (page: DiscoveredPage<Index>)
        ensures
            page.slug_text() == Slug::index_text(),
            page.dir() == dir@,
    {
        DiscoveredPage { slug: Slug::index(), content_dir: dir, m: PhantomData }
    }
}

impl DiscoveredPage<Leaf> {
    /// Read a leaf page from the specified directory.
    pub fn leaf_page(slug: Slug, dir: String) -> (page: Self)
        ensures
            page.spec_slug() == slug,
            page.dir() == dir@,
    {
        DiscoveredPage { slug, content_dir: dir, m: PhantomData }
    }
}

/// Whether `walk` may be called on the directory `dir`.
pub open spec fn walk_ready<W: Fn(&str) -> Vec<Result<WalkEntry, WalkFailure>>>(
    walk: W,
    dir: Seq<char>,
) -> bool {
    forall|at: &str| at@ == dir ==> call_requires(walk, (at,))
}

/// Whether `found` is something that `walk` can bring up from the directory `dir`.
pub open spec fn walk_gives<W: Fn(&str) -> Vec<Result<WalkEntry, WalkFailure>>>(
    walk: W,
    dir: Seq<char>,
    found: Seq<Result<WalkEntry, WalkFailure>>,
) -> bool {
    exists|at: &str, out: Vec<Result<WalkEntry, WalkFailure>>|
        at@ == dir && out@ == found && call_ensures(walk, (at,), out)
}

/// Whether `tree` is the tree of a project whose content lies in
/// `content_dir`, with the leaf pages `toplevels` at the top and the leaf pages
/// `posts` in its one section, `posts`.
pub open spec fn is_project_tree(
    tree: Section<DiscoveredPage<Index>, DiscoveredPage<Leaf>>,
    content_dir: Seq<char>,
    toplevels: Seq<(Seq<char>, Seq<char>)>,
    posts: Seq<(Seq<char>, Seq<char>)>,
) -> bool {
    &&& tree.spec_slug()@ == ""@
    &&& tree.spec_index().slug_text() == Slug::index_text()
    &&& tree.spec_index().dir() == joined_path(joined_path(content_dir, ""@), "_index"@)
    &&& listing(tree.leaves()) == toplevels
    &&& filed_by_slug(tree.leaves())
    &&& tree.children().len() == 1
    &&& tree.children()[0].0@ == "posts"@
    &&& tree.children()[0].1.spec_slug()@ == "posts"@
    &&& tree.children()[0].1.spec_index().slug_text() == Slug::index_text()
    &&& tree.children()[0].1.spec_index().dir() == joined_path(
        joined_path(content_dir, "posts"@),
        "_index"@,
    )
    &&& listing(tree.children()[0].1.leaves()) == posts
    &&& filed_by_slug(tree.children()[0].1.leaves())
    &&& tree.children()[0].1.children().len() == 0
    &&& tree.wf()
}

/// Whether `out` is something that comes of the traversal of the content
/// directory `content_dir` with `walk`: the tree that the leaf pages in `posts`
/// and those at the top make, where both walks went well; else the failure of
/// the walk of `posts`, or, where that went well, the failure of the walk of the
/// content directory itself.
pub open spec fn traversed<W: Fn(&str) -> Vec<Result<WalkEntry, WalkFailure>>>(
    walk: W,
    content_dir: Seq<char>,
    out: Result<Section<DiscoveredPage<Index>, DiscoveredPage<Leaf>>, Error>,
) -> bool {
    match out {
        Ok(tree) => exists|
            posts_found: Seq<Result<WalkEntry, WalkFailure>>,
            top_found: Seq<Result<WalkEntry, WalkFailure>>,
        |
            {
                &&& #[trigger] walk_gives(
                    walk,
                    joined_path(content_dir, "posts"@),
                    posts_found,
                )
                &&& #[trigger] walk_gives(walk, content_dir, top_found)
                &&& leaf_pages(posts_found) is Ok
                &&& leaf_pages(top_found) is Ok
                &&& is_project_tree(
                    tree,
                    content_dir,
                    leaf_pages(top_found)->Ok_0,
                    leaf_pages(posts_found)->Ok_0,
                )
            },
        Err(e) => exists|posts_found: Seq<Result<WalkEntry, WalkFailure>>|
            {
                &&& #[trigger] walk_gives(
                    walk,
                    joined_path(content_dir, "posts"@),
                    posts_found,
                )
                &&& {
                    ||| leaf_pages(posts_found) == Err::<
                        Seq<(Seq<char>, Seq<char>)>,
                        ErrorView,
                    >(e@)
                    ||| {
                        &&& leaf_pages(posts_found) is Ok
                        &&& exists|top_found: Seq<Result<WalkEntry, WalkFailure>>|
                            {
                                &&& #[trigger] walk_gives(walk, content_dir, top_found)
                                &&& leaf_pages(top_found) == Err::<
                                    Seq<(Seq<char>, Seq<char>)>,
                                    ErrorView,
                                >(e@)
                            }
                    }
                }
            },
    }
}

/// Finds the pages of a project.
pub struct Discoverer {}

impl Discoverer {
    /// Whether `entry` is the frontmatter file of a page of kind `M`.
    fn is_frontmatter<M: Mode>(entry: &WalkEntry) -> (held: bool)
        ensures
            held == {
                &&& entry.is_file
                &&& entry.file_name matches Some(name)
                &&& name@ == M::filestem() + ".toml"@
            },
    {
        entry.is_file && match &entry.file_name {
            Some(name) => *name == M::frontmatter_filename(),
            None => false,
        }
    }

    /// Whether `entry` is a file right inside a directory whose name is kept for
    /// other uses than leaf pages.
    fn is_reserved_dir(entry: &WalkEntry) -> (held: bool)
        ensures
            held == in_reserved_dir(*entry),
    {
        entry.is_file && match parent(entry.path.as_str()) {
            Some(dir) => ends_with(dir.as_str(), "_index") || ends_with(dir.as_str(), "posts")
                || ends_with(dir.as_str(), "static") || ends_with(dir.as_str(), "assets"),
            None => false,
        }
    }

    /// The error that a failure of the walk is reported as.
    fn walk_failed(failure: WalkFailure) -> (e: Error)
        ensures
            e@ == walk_error(failure),
    {
        match failure.loop_ancestor {
            Some(dir) => Error::MalformedProjectStructure { path: dir },
            None => Error::FileIO { path: failure.path, raw: failure.cause },
        }
    }

    /// The leaf pages among what a walk brought up: one for each frontmatter
    /// file of a leaf page that lies in a directory of its own whose name is
    /// not kept for other uses. The page is the directory, its slug is the
    /// directory's name. The first failure ends the collection.
    pub fn collect_leaf_pages(found: Vec<Result<WalkEntry, WalkFailure>>) -> (collected: Result<
        SlugMap<DiscoveredPage<Leaf>>,
        Error,
    >)
        ensures
            match collected {
                Ok(pages) => {
                    &&& leaf_pages(found@) == Ok::<Seq<(Seq<char>, Seq<char>)>, ErrorView>(
                        listing(pages@),
                    )
                    &&& filed_by_slug(pages@)
                    &&& pages.wf()
                },
                Err(e) => leaf_pages(found@) == Err::<Seq<(Seq<char>, Seq<char>)>, ErrorView>(e@),
            },
    {
        let mut pages: SlugMap<DiscoveredPage<Leaf>> = SlugMap::new();
        assert(listing(pages@) =~= Seq::<(Seq<char>, Seq<char>)>::empty());
        for item in it: found
            invariant
                it.seq() == found@,
                leaf_pages(found@.take(it.index() as int)) == Ok::<
                    Seq<(Seq<char>, Seq<char>)>,
                    ErrorView,
                >(listing(pages@)),
                filed_by_slug(pages@),
                pages.wf(),
        {
            let ghost k = it.index() as int;
            proof {
                assert(found@.take(k + 1).drop_last() =~= found@.take(k));
                assert(found@.take(k + 1).last() == item);
            }
            match item {
                Err(failure) => {
                    let e = Self::walk_failed(failure);
                    proof {
                        Self::lemma_failure_stays(found@, k + 1);
                    }
                    return Err(e);
                },
                Ok(entry) => {
                    if Self::is_frontmatter::<Leaf>(&entry) && !Self::is_reserved_dir(&entry) {
                        let dir = match parent(entry.path.as_str()) {
                            Some(dir) => dir,
                            None => {
                                proof {
                                    Self::lemma_failure_stays(found@, k + 1);
                                }
                                return Err(Error::InvalidSlug { path: entry.path });
                            },
                        };
                        let slug = match Slug::try_from_dir(dir.as_str()) {
                            Ok(slug) => slug,
                            Err(e) => {
                                proof {
                                    Self::lemma_failure_stays(found@, k + 1);
                                }
                                return Err(e);
                            },
                        };
                        let key = slug.clone();
                        let ghost before = pages@;
                        proof {
                            lemma_listing_position(before, key@);
                            lemma_position_of(before, key@);
                        }
                        let page = DiscoveredPage::<Leaf>::leaf_page(slug, dir);
                        pages.insert(key, page);
                        proof {
                            assert(listing(pages@) =~= put(listing(before), key@, dir@));
                        }
                    }
                },
            }
        }
        proof {
            assert(found@.take(found@.len() as int) =~= found@);
        }
        Ok(pages)
    }

    /// The tree of a project whose content lies in `content_dir`: the section at
    /// the top holds the leaf pages `toplevels` and one section, `posts`, which
    /// holds the leaf pages `posts`. The index page of either section lies in
    /// the directory `_index` of the section's own directory.
    pub fn project_tree(
        content_dir: &str,
        toplevels: SlugMap<DiscoveredPage<Leaf>>,
        posts: SlugMap<DiscoveredPage<Leaf>>,
    ) -> (tree: Section<DiscoveredPage<Index>, DiscoveredPage<Leaf>>)
        ensures
            tree.spec_slug()@ == ""@,
            tree.spec_index().slug_text() == Slug::index_text(),
            tree.spec_index().dir() == joined_path(joined_path(content_dir@, ""@), "_index"@),
            tree.leaves() == toplevels@,
            tree.children().len() == 1,
            tree.children()[0].0@ == "posts"@,
            tree.children()[0].1.spec_slug()@ == "posts"@,
            tree.children()[0].1.spec_index().slug_text() == Slug::index_text(),
            tree.children()[0].1.spec_index().dir() == joined_path(
                joined_path(content_dir@, "posts"@),
                "_index"@,
            ),
            tree.children()[0].1.leaves() == posts@,
            tree.children()[0].1.children().len() == 0,
            toplevels.wf() && posts.wf() ==> tree.wf(),
    {
        let posts_index = join(join(content_dir, "posts").as_str(), "_index");
        let posts_section = Section::new(
            Slug::from_string("posts".to_owned()),
            DiscoveredPage::index_page(posts_index),
            posts,
            SlugMap::new(),
        );
        let ghost below = posts_section;
        let mut sub_secs: SlugMap<Section<DiscoveredPage<Index>, DiscoveredPage<Leaf>>> =
            SlugMap::new();
        proof {
            lemma_position_of(sub_secs@, "posts"@);
            assert(posts.wf() ==> below.wf());
        }
        let _ = sub_secs.insert(Slug::from_string("posts".to_owned()), posts_section);
        let top_index = join(join(content_dir, "").as_str(), "_index");
        let tree = Section::new(
            Slug::from_string("".to_owned()),
            DiscoveredPage::index_page(top_index),
            toplevels,
            sub_secs,
        );
        proof {
            assert(tree.children()[0].1 == below);
            assert(toplevels.wf() && posts.wf() ==> tree.wf());
        }
        tree
    }

    /// The tree of the project whose content lies in `content_dir`. The
    /// directory `posts` in it is walked first, then the content directory
    /// itself, each by one call of `walk`; what the two walks brought up
    /// decides the tree, and the first failure ends the traversal.
    pub fn try_traverse<W>(content_dir: String, walk: W) -> (tree: Result<
        Section<DiscoveredPage<Index>, DiscoveredPage<Leaf>>,
        Error,
    >) where W: Fn(&str) -> Vec<Result<WalkEntry, WalkFailure>>
        requires
            walk_ready(walk, joined_path(content_dir@, "posts"@)),
            walk_ready(walk, content_dir@),
        ensures
            traversed(walk, content_dir@, tree),
    {
        let posts_dir = join(content_dir.as_str(), "posts");
        let posts_found = walk(posts_dir.as_str());
        let ghost posts_seen = posts_found@;
        assert(walk_gives(walk, joined_path(content_dir@, "posts"@), posts_seen));
        let posts = match Discoverer::collect_leaf_pages(posts_found) {
            Ok(posts) => posts,
            Err(e) => {
                return Err(e);
            },
        };
        let top_found = walk(content_dir.as_str());
        let ghost top_seen = top_found@;
        assert(walk_gives(walk, content_dir@, top_seen));
        let toplevels = match Discoverer::collect_leaf_pages(top_found) {
            Ok(toplevels) => toplevels,
            Err(e) => {
                return Err(e);
            },
        };
        let tree = Discoverer::project_tree(content_dir.as_str(), toplevels, posts);
        assert(is_project_tree(
            tree,
            content_dir@,
            leaf_pages(top_seen)->Ok_0,
            leaf_pages(posts_seen)->Ok_0,
        ));
        Ok(tree)
    }

    /// Once the collection has failed over the first `k` finds, it fails in the
    /// same way over all of them.
    proof fn lemma_failure_stays(found: Seq<Result<WalkEntry, WalkFailure>>, k: int)
        requires
            0 <= k <= found.len(),
            leaf_pages(found.take(k)) is Err,
        ensures
            leaf_pages(found) == leaf_pages(found.take(k)),
        decreases found.len() - k,
    {
        if k < found.len() {
            assert(found.take(k + 1).drop_last() =~= found.take(k));
            Self::lemma_failure_stays(found, k + 1);
        } else {
            assert(found.take(k) =~= found);
        }
    }
}

} // verus!
