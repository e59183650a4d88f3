use loveletters::error::Error;
use loveletters::section::Section;
use loveletters::slug::Slug;
use loveletters::slug_map::SlugMap;

fn slug(text: &str) -> Slug {
    Slug::from_string(text.to_owned())
}

fn sample() -> Section<u32, String> {
    let mut posts_pages = SlugMap::new();
    posts_pages.insert(slug("a"), "first".to_owned());
    posts_pages.insert(slug("b"), "second".to_owned());
    let posts = Section::new(slug("posts"), 2, posts_pages, SlugMap::new());
    let mut subs = SlugMap::new();
    subs.insert(slug("posts"), posts);
    let mut pages = SlugMap::new();
    pages.insert(slug("about"), "about me".to_owned());
    Section::new(slug(""), 1, pages, subs)
}

#[test]
fn map_keeps_slugs_and_nesting() {
    let mapped = sample()
        .try_map(|i: u32| Ok(i + 10), |l: String| Ok(l.len()))
        .unwrap();
    assert_eq!(mapped.slug().as_str(), "");
    assert_eq!(*mapped.index(), 11);
    assert_eq!(mapped.pages().len(), 1);
    assert_eq!(mapped.pages()[0].0.as_str(), "about");
    assert_eq!(mapped.pages()[0].1, 8);
    assert_eq!(mapped.sub_sections().len(), 1);
    let (key, posts) = &mapped.sub_sections()[0];
    assert_eq!(key.as_str(), "posts");
    assert_eq!(posts.slug().as_str(), "posts");
    assert_eq!(*posts.index(), 12);
    assert_eq!(posts.pages().len(), 2);
    assert_eq!(posts.pages()[0].0.as_str(), "a");
    assert_eq!(posts.pages()[0].1, 5);
    assert_eq!(posts.pages()[1].0.as_str(), "b");
    assert_eq!(posts.pages()[1].1, 6);
    assert_eq!(posts.sub_sections().len(), 0);
}

#[test]
fn map_hands_back_the_first_failure() {
    let mapped: Result<Section<u32, usize>, Error> = sample().try_map(
        |i: u32| Ok(i),
        |l: String| {
            if l == "first" {
                Err(Error::InvalidSlug { path: l })
            } else if l == "second" {
                Err(Error::Other)
            } else {
                Ok(l.len())
            }
        },
    );
    assert_eq!(
        mapped.err(),
        Some(Error::InvalidSlug {
            path: "first".to_owned()
        })
    );
}

#[test]
fn walk_hands_each_page_its_path() {
    let walked = sample()
        .try_walk(
            |path: &[Slug], i: u32| {
                let texts: Vec<&str> = path.iter().map(|s| s.as_str()).collect();
                Ok(format!("{}:{}", texts.join("/"), i))
            },
            |path: &[Slug], slug: &Slug, l: String| {
                let texts: Vec<&str> = path.iter().map(|s| s.as_str()).collect();
                Ok(format!("{}|{}|{}", texts.join("/"), slug.as_str(), l))
            },
        )
        .unwrap();
    assert_eq!(walked.index(), ":1");
    assert_eq!(walked.pages()[0].1, "|about|about me");
    let posts = &walked.sub_sections()[0].1;
    assert_eq!(posts.index(), "posts:2");
    assert_eq!(posts.pages()[0].1, "posts|a|first");
    assert_eq!(posts.pages()[1].1, "posts|b|second");
}

fn deep() -> Section<u32, String> {
    let mut leaf_pages = SlugMap::new();
    leaf_pages.insert(slug("x"), "deep page".to_owned());
    let innermost = Section::new(slug("2024"), 3, leaf_pages, SlugMap::new());
    let mut inner_subs = SlugMap::new();
    inner_subs.insert(slug("2024"), innermost);
    let mut posts_pages = SlugMap::new();
    posts_pages.insert(slug("a"), "first".to_owned());
    let posts = Section::new(slug("posts"), 2, posts_pages, inner_subs);
    let notes = Section::new(slug("notes"), 4, SlugMap::new(), SlugMap::new());
    let mut subs = SlugMap::new();
    subs.insert(slug("posts"), posts);
    subs.insert(slug("notes"), notes);
    Section::new(slug(""), 1, SlugMap::new(), subs)
}

#[test]
fn walk_path_grows_with_every_section_on_the_way_down() {
    let seen = std::cell::RefCell::new(Vec::new());
    let walked = deep()
        .try_walk(
            |path: &[Slug], i: u32| {
                let texts: Vec<String> = path.iter().map(|s| s.as_str().to_owned()).collect();
                seen.borrow_mut().push((texts, None, i.to_string()));
                Ok(i)
            },
            |path: &[Slug], slug: &Slug, l: String| {
                let texts: Vec<String> = path.iter().map(|s| s.as_str().to_owned()).collect();
                seen.borrow_mut()
                    .push((texts, Some(slug.as_str().to_owned()), l.clone()));
                Ok(l)
            },
        )
        .unwrap();
    let none: Vec<String> = vec![];
    assert_eq!(
        *seen.borrow(),
        vec![
            (none, None, "1".to_owned()),
            (vec!["posts".to_owned()], None, "2".to_owned()),
            (
                vec!["posts".to_owned()],
                Some("a".to_owned()),
                "first".to_owned()
            ),
            (
                vec!["posts".to_owned(), "2024".to_owned()],
                None,
                "3".to_owned()
            ),
            (
                vec!["posts".to_owned(), "2024".to_owned()],
                Some("x".to_owned()),
                "deep page".to_owned()
            ),
            (vec!["notes".to_owned()], None, "4".to_owned()),
        ]
    );
    assert_eq!(walked.sub_sections()[0].1.sub_sections()[0].0.as_str(), "2024");
    assert_eq!(walked.sub_sections()[1].0.as_str(), "notes");
}

#[test]
fn walk_hands_back_the_first_failure_in_walk_order() {
    let walked: Result<Section<u32, String>, Error> = deep().try_walk(
        |path: &[Slug], i: u32| {
            if path.len() == 1 && path[0].as_str() == "notes" {
                Err(Error::Other)
            } else {
                Ok(i)
            }
        },
        |_path: &[Slug], slug: &Slug, l: String| {
            if slug.as_str() == "x" {
                Err(Error::InvalidSlug {
                    path: slug.as_str().to_owned(),
                })
            } else {
                Ok(l)
            }
        },
    );
    assert_eq!(
        walked.err(),
        Some(Error::InvalidSlug {
            path: "x".to_owned()
        })
    );
}

#[test]
fn a_failing_index_stops_the_walk_before_its_leaves() {
    let calls = std::cell::Cell::new(0u32);
    let walked: Result<Section<u32, String>, Error> = sample().try_walk(
        |_path: &[Slug], _i: u32| {
            calls.set(calls.get() + 1);
            Err(Error::Other)
        },
        |_path: &[Slug], _slug: &Slug, l: String| {
            calls.set(calls.get() + 1);
            Ok(l)
        },
    );
    assert_eq!(walked.err(), Some(Error::Other));
    assert_eq!(calls.get(), 1);
}

#[test]
fn a_leaf_and_a_section_may_share_a_slug() {
    let mut pages = SlugMap::new();
    pages.insert(slug("posts"), "a page named posts".to_owned());
    let mut subs = SlugMap::new();
    subs.insert(
        slug("posts"),
        Section::new(slug("posts"), 2u32, SlugMap::new(), SlugMap::new()),
    );
    let tree = Section::new(slug(""), 1u32, pages, subs);
    let mapped = tree
        .try_map(|i: u32| Ok(i), |l: String| Ok(l.len()))
        .unwrap();
    assert_eq!(mapped.pages()[0].0.as_str(), "posts");
    assert_eq!(mapped.sub_sections()[0].0.as_str(), "posts");
}

#[test]
fn slug_converts_from_a_string_and_to_text() {
    let made: Slug = "about".to_owned().into();
    assert_eq!(made.as_str(), "about");
    let text: &str = made.as_ref();
    assert_eq!(text, "about");
}
