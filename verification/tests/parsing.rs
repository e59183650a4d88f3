use loveletters::content::{IndexFrontmatter, LeafFrontmatter};
use loveletters::discovery::DiscoveredPage;
use loveletters::error::Error;
use loveletters::frontmatter_parsing::{PageWithFrontmatter, Parser};
use loveletters::page::{Index, Leaf};
use loveletters::section::Section;
use loveletters::slug::Slug;
use loveletters::slug_map::SlugMap;
use loveletters::utils::Loaded;
use loveletters::value::Datetime;
use std::cell::RefCell;

fn at_noon() -> Datetime {
    Datetime::new(2022, 3, 4, 12, 0, 0, 0).unwrap()
}

fn key(t: &str) -> Slug {
    Slug::from_string(t.to_owned())
}

fn found_tree() -> Section<DiscoveredPage<Index>, DiscoveredPage<Leaf>> {
    let mut posts_pages = SlugMap::new();
    posts_pages.insert(key("a"), DiscoveredPage::leaf_page(key("a"), "/c/posts/a".to_owned()));
    posts_pages.insert(key("b"), DiscoveredPage::leaf_page(key("b"), "/c/posts/b".to_owned()));
    let posts = Section::new(
        key("posts"),
        DiscoveredPage::index_page("/c/posts/_index".to_owned()),
        posts_pages,
        SlugMap::new(),
    );
    let mut subs = SlugMap::new();
    subs.insert(key("posts"), posts);
    Section::new(
        key(""),
        DiscoveredPage::index_page("/c/_index".to_owned()),
        SlugMap::new(),
        subs,
    )
}

#[test]
fn page_takes_the_frontmatter_that_was_read() {
    let page: PageWithFrontmatter<Leaf, u32> =
        PageWithFrontmatter::try_parse(key("a"), "/c/a".to_owned(), Loaded::Parsed(7)).unwrap();
    assert_eq!(page.slug().as_str(), "a");
    assert_eq!(page.content_dir(), "/c/a");
    assert_eq!(*page.frontmatter(), 7);
    let (slug, dir, frontmatter) = page.into_parts();
    assert_eq!((slug.as_str(), dir.as_str(), frontmatter), ("a", "/c/a", 7));
}

#[test]
fn frontmatter_that_cannot_be_read_is_a_file_error() {
    let page: Result<PageWithFrontmatter<Leaf, u32>, Error> = PageWithFrontmatter::try_parse(
        key("a"),
        "/c/a".to_owned(),
        Loaded::NotFound("no such file".to_owned()),
    );
    assert_eq!(
        page.err(),
        Some(Error::FileIO {
            path: Some("/c/a/page.toml".to_owned()),
            raw: "no such file".to_owned()
        })
    );
    let page: Result<PageWithFrontmatter<Index, u32>, Error> = PageWithFrontmatter::try_parse(
        Slug::index(),
        "/c/_index".to_owned(),
        Loaded::Unreadable("denied".to_owned()),
    );
    assert_eq!(
        page.err(),
        Some(Error::FileIO {
            path: Some("/c/_index/index.toml".to_owned()),
            raw: "denied".to_owned()
        })
    );
}

#[test]
fn frontmatter_that_cannot_be_understood_is_malformed() {
    let page: Result<PageWithFrontmatter<Leaf, u32>, Error> = PageWithFrontmatter::try_parse(
        key("a"),
        "/c/a".to_owned(),
        Loaded::Malformed("missing field `title`".to_owned()),
    );
    assert_eq!(
        page.err(),
        Some(Error::MalformedFrontmatter {
            location: "/c/a/page.toml".to_owned(),
            raw: "missing field `title`".to_owned()
        })
    );
}

#[test]
fn discovered_page_reads_its_own_frontmatter_file() {
    let asked: RefCell<Vec<String>> = RefCell::new(Vec::new());
    let load = |file: &str| {
        asked.borrow_mut().push(file.to_owned());
        Loaded::Parsed(file.len())
    };
    let page = DiscoveredPage::leaf_page(key("a"), "/c/posts/a".to_owned())
        .try_parse(&load)
        .unwrap();
    assert_eq!(*page.frontmatter(), "/c/posts/a/page.toml".len());
    let index = DiscoveredPage::index_page("/c/_index".to_owned())
        .try_parse(&load)
        .unwrap();
    assert_eq!(index.slug().as_str(), "_index");
    assert_eq!(
        *asked.borrow(),
        vec!["/c/posts/a/page.toml".to_owned(), "/c/_index/index.toml".to_owned()]
    );
}

#[test]
fn parser_attaches_frontmatter_to_every_page() {
    let asked: RefCell<Vec<String>> = RefCell::new(Vec::new());
    let load_index = |file: &str| {
        asked.borrow_mut().push(file.to_owned());
        Loaded::Parsed(IndexFrontmatter::new(file.to_owned(), at_noon()))
    };
    let load_leaf = |file: &str| {
        asked.borrow_mut().push(file.to_owned());
        Loaded::Parsed(LeafFrontmatter::new(file.to_owned(), at_noon()))
    };
    let tree = Parser::new()
        .try_parse(found_tree(), load_index, load_leaf)
        .unwrap();
    assert_eq!(
        *asked.borrow(),
        vec![
            "/c/_index/index.toml".to_owned(),
            "/c/posts/_index/index.toml".to_owned(),
            "/c/posts/a/page.toml".to_owned(),
            "/c/posts/b/page.toml".to_owned(),
        ]
    );
    assert_eq!(tree.slug().as_str(), "");
    assert_eq!(
        tree.index().frontmatter(),
        &IndexFrontmatter::new("/c/_index/index.toml".to_owned(), at_noon())
    );
    let posts = &tree.sub_sections()[0].1;
    assert_eq!(tree.sub_sections()[0].0.as_str(), "posts");
    assert_eq!(posts.pages().len(), 2);
    assert_eq!(posts.pages()[0].0.as_str(), "a");
    assert_eq!(posts.pages()[0].1.content_dir(), "/c/posts/a");
    assert_eq!(
        posts.pages()[1].1.frontmatter(),
        &LeafFrontmatter::new("/c/posts/b/page.toml".to_owned(), at_noon())
    );
}

#[test]
fn parser_stops_at_the_first_page_without_frontmatter() {
    let asked: RefCell<Vec<String>> = RefCell::new(Vec::new());
    let load_index = |file: &str| {
        asked.borrow_mut().push(file.to_owned());
        Loaded::Parsed(IndexFrontmatter::new("t".to_owned(), at_noon()))
    };
    let load_leaf = |file: &str| -> Loaded<LeafFrontmatter> {
        asked.borrow_mut().push(file.to_owned());
        Loaded::Malformed("bad".to_owned())
    };
    let tree = Parser::new().try_parse(found_tree(), load_index, load_leaf);
    assert_eq!(
        tree.err(),
        Some(Error::MalformedFrontmatter {
            location: "/c/posts/a/page.toml".to_owned(),
            raw: "bad".to_owned()
        })
    );
    assert_eq!(asked.borrow().len(), 3);
}
