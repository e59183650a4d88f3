use loveletters::discovery::{DiscoveredPage, Discoverer, WalkEntry, WalkFailure};
use loveletters::error::Error;
use loveletters::slug::Slug;
use std::cell::RefCell;

fn file(path: &str) -> Result<WalkEntry, WalkFailure> {
    let name = path.rsplit('/').next().map(|n| n.to_owned());
    Ok(WalkEntry {
        path: path.to_owned(),
        file_name: name,
        is_file: true,
    })
}

fn dir(path: &str) -> Result<WalkEntry, WalkFailure> {
    let name = path.rsplit('/').next().map(|n| n.to_owned());
    Ok(WalkEntry {
        path: path.to_owned(),
        file_name: name,
        is_file: false,
    })
}

fn listed(pages: &[(Slug, DiscoveredPage<loveletters::page::Leaf>)]) -> Vec<(String, String)> {
    pages
        .iter()
        .map(|(slug, page)| {
            assert_eq!(page.slug(), slug);
            (slug.as_str().to_owned(), page.content_dir().to_owned())
        })
        .collect()
}

#[test]
fn leaf_pages_are_directories_with_a_leaf_frontmatter() {
    let found = vec![
        file("/c/posts/first/page.toml"),
        file("/c/posts/first/page.typ"),
        file("/c/posts/second/page.toml"),
        dir("/c/posts/second/images"),
        file("/c/posts/third/notes.txt"),
    ];
    let pages = Discoverer::collect_leaf_pages(found).unwrap().into_entries();
    assert_eq!(
        listed(&pages),
        vec![
            ("first".to_owned(), "/c/posts/first".to_owned()),
            ("second".to_owned(), "/c/posts/second".to_owned()),
        ]
    );
}

#[test]
fn reserved_directories_hold_no_leaf_pages() {
    let found = vec![
        file("/c/_index/page.toml"),
        file("/c/posts/page.toml"),
        file("/c/static/page.toml"),
        file("/c/assets/page.toml"),
        file("/c/about/page.toml"),
    ];
    let pages = Discoverer::collect_leaf_pages(found).unwrap().into_entries();
    assert_eq!(
        listed(&pages),
        vec![("about".to_owned(), "/c/about".to_owned())]
    );
}

#[test]
fn a_directory_named_like_the_frontmatter_is_no_page() {
    let found = vec![dir("/c/posts/odd/page.toml")];
    let pages = Discoverer::collect_leaf_pages(found).unwrap();
    assert_eq!(pages.len(), 0);
}

#[test]
fn index_frontmatter_marks_no_leaf_page() {
    let found = vec![file("/c/posts/first/index.toml")];
    let pages = Discoverer::collect_leaf_pages(found).unwrap();
    assert!(pages.is_empty());
}

#[test]
fn a_later_page_replaces_an_earlier_one_of_the_same_slug() {
    let found = vec![
        file("/c/a/same/page.toml"),
        file("/c/z/other/page.toml"),
        file("/c/b/same/page.toml"),
    ];
    let pages = Discoverer::collect_leaf_pages(found).unwrap().into_entries();
    assert_eq!(
        listed(&pages),
        vec![
            ("same".to_owned(), "/c/b/same".to_owned()),
            ("other".to_owned(), "/c/z/other".to_owned()),
        ]
    );
}

#[test]
fn symlink_loop_is_a_malformed_project() {
    let found = vec![
        file("/c/posts/first/page.toml"),
        Err(WalkFailure {
            loop_ancestor: Some("/c/posts".to_owned()),
            path: Some("/c/posts/first/back".to_owned()),
            cause: "loop".to_owned(),
        }),
        file("/c/posts/second/page.toml"),
    ];
    assert_eq!(
        Discoverer::collect_leaf_pages(found).err(),
        Some(Error::MalformedProjectStructure {
            path: "/c/posts".to_owned()
        })
    );
}

#[test]
fn other_walk_failures_name_the_offending_path() {
    let found = vec![Err(WalkFailure {
        loop_ancestor: None,
        path: Some("/c/posts/locked".to_owned()),
        cause: "permission denied".to_owned(),
    })];
    assert_eq!(
        Discoverer::collect_leaf_pages(found).err(),
        Some(Error::FileIO {
            path: Some("/c/posts/locked".to_owned()),
            raw: "permission denied".to_owned()
        })
    );
    let found = vec![Err(WalkFailure {
        loop_ancestor: None,
        path: None,
        cause: "gone".to_owned(),
    })];
    assert_eq!(
        Discoverer::collect_leaf_pages(found).err(),
        Some(Error::FileIO {
            path: None,
            raw: "gone".to_owned()
        })
    );
}

#[test]
fn a_page_without_a_directory_name_has_no_slug() {
    let found = vec![Ok(WalkEntry {
        path: "/page.toml".to_owned(),
        file_name: Some("page.toml".to_owned()),
        is_file: true,
    })];
    assert_eq!(
        Discoverer::collect_leaf_pages(found).err(),
        Some(Error::InvalidSlug {
            path: "/".to_owned()
        })
    );
}

#[test]
fn index_and_leaf_pages_carry_slug_and_directory() {
    let index = DiscoveredPage::index_page("/c/_index".to_owned());
    assert_eq!(index.slug().as_str(), "_index");
    assert_eq!(index.content_dir(), "/c/_index");
    let leaf = DiscoveredPage::leaf_page(Slug::from_string("a".to_owned()), "/c/a".to_owned());
    assert_eq!(leaf.slug().as_str(), "a");
    assert_eq!(leaf.content_dir(), "/c/a");
}

#[test]
fn one_post_makes_one_leaf_under_posts_and_none_at_top() {
    let walked: RefCell<Vec<String>> = RefCell::new(Vec::new());
    let walk = |at: &str| {
        walked.borrow_mut().push(at.to_owned());
        if at == "/site/content/posts" {
            vec![
                file("/site/content/posts/_index/index.toml"),
                file("/site/content/posts/_index/index.typ"),
                file("/site/content/posts/hello/page.toml"),
                file("/site/content/posts/hello/page.typ"),
            ]
        } else {
            vec![
                file("/site/content/_index/index.toml"),
                file("/site/content/_index/index.typ"),
                dir("/site/content/posts/_index"),
                dir("/site/content/posts/hello"),
            ]
        }
    };
    let tree = Discoverer::try_traverse("/site/content".to_owned(), walk).unwrap();
    assert_eq!(
        *walked.borrow(),
        vec!["/site/content/posts".to_owned(), "/site/content".to_owned()]
    );
    assert_eq!(tree.slug().as_str(), "");
    assert_eq!(tree.index().slug().as_str(), "_index");
    assert_eq!(tree.index().content_dir(), "/site/content/_index");
    assert_eq!(tree.pages().len(), 0);
    assert_eq!(tree.sub_sections().len(), 1);
    let (key, posts) = &tree.sub_sections()[0];
    assert_eq!(key.as_str(), "posts");
    assert_eq!(posts.slug().as_str(), "posts");
    assert_eq!(posts.index().slug().as_str(), "_index");
    assert_eq!(posts.index().content_dir(), "/site/content/posts/_index");
    assert_eq!(posts.sub_sections().len(), 0);
    assert_eq!(
        listed(posts.pages()),
        vec![("hello".to_owned(), "/site/content/posts/hello".to_owned())]
    );
}

#[test]
fn a_failed_walk_of_posts_ends_the_traversal() {
    let walked: RefCell<Vec<String>> = RefCell::new(Vec::new());
    let walk = |at: &str| {
        walked.borrow_mut().push(at.to_owned());
        vec![Err(WalkFailure {
            loop_ancestor: None,
            path: Some(at.to_owned()),
            cause: "unreadable".to_owned(),
        })]
    };
    let tree = Discoverer::try_traverse("/site/content".to_owned(), walk);
    assert_eq!(
        tree.err(),
        Some(Error::FileIO {
            path: Some("/site/content/posts".to_owned()),
            raw: "unreadable".to_owned()
        })
    );
    assert_eq!(*walked.borrow(), vec!["/site/content/posts".to_owned()]);
}

#[test]
fn project_tree_files_posts_below_the_top() {
    let tree = Discoverer::project_tree(
        "/p/content",
        loveletters::slug_map::SlugMap::new(),
        loveletters::slug_map::SlugMap::new(),
    );
    assert_eq!(tree.index().content_dir(), "/p/content/_index");
    assert_eq!(tree.sub_sections()[0].1.index().content_dir(), "/p/content/posts/_index");
}
