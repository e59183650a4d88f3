use loveletters::config::{Config, RawConfig};
use loveletters::content::{IndexFrontmatter, LeafFrontmatter};
use loveletters::error::{EntityKind, Error};
use loveletters::frontmatter_parsing::PageWithFrontmatter;
use loveletters::page::{Index, Leaf};
use loveletters::rendering::context::{GlobalContext, PageContext};
use loveletters::section::Section;
use loveletters::slug::Slug;
use loveletters::slug_map::SlugMap;
use loveletters::utils::Loaded;
use loveletters::value::{Datetime, Dict, IntoValue, Value};

fn text(t: &str) -> Value {
    Value::Str(t.to_owned())
}

fn dict(entries: Vec<(&str, Value)>) -> Dict {
    let mut d = Dict::new();
    for (name, value) in entries {
        d.insert(name.to_owned(), value);
    }
    d
}

fn noon(year: i32, month: u8, day: u8) -> Datetime {
    Datetime::new(year, month, day, 12, 0, 0, 0).unwrap()
}

#[test]
fn dict_keeps_names_in_order_and_overwrites_in_place() {
    let mut d = Dict::new();
    assert_eq!(d.len(), 0);
    d.insert("b".to_owned(), text("1"));
    d.insert("a".to_owned(), text("2"));
    d.insert("b".to_owned(), text("3"));
    assert_eq!(d.len(), 2);
    assert_eq!(d.entries()[0], ("b".to_owned(), text("3")));
    assert_eq!(d.entries()[1], ("a".to_owned(), text("2")));
    assert_eq!(d.get("a"), Some(&text("2")));
    assert_eq!(d.get("b"), Some(&text("3")));
    assert_eq!(d.get("c"), None);
}

#[test]
fn value_clone_is_deep() {
    let value = Value::Array(vec![
        text("x"),
        Value::Dict(dict(vec![("k", Value::Datetime(noon(2024, 2, 29)))])),
    ]);
    assert_eq!(value.clone(), value);
    assert_eq!(Value::text("abc"), text("abc"));
}

#[test]
fn datetime_knows_the_calendar() {
    assert!(Datetime::new(2024, 2, 29, 0, 0, 0, 0).is_some());
    assert!(Datetime::new(2023, 2, 29, 0, 0, 0, 0).is_none());
    assert!(Datetime::new(1900, 2, 29, 0, 0, 0, 0).is_none());
    assert!(Datetime::new(2000, 2, 29, 0, 0, 0, 0).is_some());
    assert!(Datetime::new(2023, 4, 31, 0, 0, 0, 0).is_none());
    assert!(Datetime::new(2023, 4, 30, 23, 59, 59, 999_999_999).is_some());
    assert!(Datetime::new(2023, 12, 31, 0, 0, 0, 0).is_some());
    assert!(Datetime::new(2023, 13, 1, 0, 0, 0, 0).is_none());
    assert!(Datetime::new(2023, 0, 1, 0, 0, 0, 0).is_none());
    assert!(Datetime::new(2023, 1, 0, 0, 0, 0, 0).is_none());
    assert!(Datetime::new(2023, 1, 1, 24, 0, 0, 0).is_none());
    assert!(Datetime::new(2023, 1, 1, 0, 60, 0, 0).is_none());
    assert!(Datetime::new(2023, 1, 1, 0, 0, 60, 0).is_none());
    assert!(Datetime::new(2023, 1, 1, 0, 0, 0, 1_000_000_000).is_none());
    assert!(Datetime::new(10000, 1, 1, 0, 0, 0, 0).is_none());
    assert!(Datetime::new(-9999, 1, 1, 0, 0, 0, 0).is_some());
    assert!(Datetime::new(-4, 2, 29, 0, 0, 0, 0).is_some());
    assert_eq!(
        Datetime::new(2021, 7, 4, 1, 2, 3, 4),
        Some(Datetime {
            year: 2021,
            month: 7,
            day: 4,
            hour: 1,
            minute: 2,
            second: 3,
            nanosecond: 4
        })
    );
}

#[test]
fn frontmatter_is_told_as_title_and_publication() {
    let at = noon(2025, 1, 2);
    let expected = Value::Dict(dict(vec![
        ("title", text("Hello")),
        ("publication", Value::Datetime(at)),
    ]));
    assert_eq!(IndexFrontmatter::new("Hello".to_owned(), at).to_typst(), expected);
    assert_eq!(LeafFrontmatter::new("Hello".to_owned(), at).to_typst(), expected);
    assert_eq!(LeafFrontmatter::new("Hello".to_owned(), at).into_value(), expected);
    assert_eq!(IndexFrontmatter::new("Hello".to_owned(), at).into_value(), expected);
}

#[test]
fn config_splits_its_root_into_server_and_path() {
    let config = Config::new(
        "Blog".to_owned(),
        "Me".to_owned(),
        "https://example.org/blog/".to_owned(),
    )
    .unwrap();
    let expected = dict(vec![
        (
            "root",
            Value::Dict(dict(vec![
                ("server", text("https://example.org")),
                ("path", text("/blog/")),
            ])),
        ),
        ("author", text("Me")),
        ("title", text("Blog")),
    ]);
    assert_eq!(config.to_typst(), expected);
}

#[test]
fn config_root_without_a_path_has_the_root_path() {
    let config = Config::new(
        "T".to_owned(),
        "A".to_owned(),
        "http://localhost:8080".to_owned(),
    )
    .unwrap();
    let told = config.to_typst();
    assert_eq!(
        told.get("root"),
        Some(&Value::Dict(dict(vec![
            ("server", text("http://localhost:8080")),
            ("path", text("/")),
        ])))
    );
}

#[test]
fn config_needs_a_url_as_root() {
    assert_eq!(
        Config::new("T".to_owned(), "A".to_owned(), "not a url".to_owned()),
        None
    );
}

fn raw_config(root: &str) -> RawConfig {
    RawConfig {
        title: "Blog".to_owned(),
        author: "Me".to_owned(),
        root: root.to_owned(),
    }
}

#[test]
fn missing_config_is_a_missing_project_config() {
    assert_eq!(
        Config::try_read_from_disk(
            "/site/loveletters.toml",
            Loaded::NotFound("No such file or directory".to_owned())
        ),
        Err(Error::NotFound {
            missing: EntityKind::ProjectConfig,
            path: "/site/loveletters.toml".to_owned()
        })
    );
}

#[test]
fn unreadable_config_is_a_file_error() {
    assert_eq!(
        Config::try_read_from_disk(
            "/site/loveletters.toml",
            Loaded::Unreadable("permission denied".to_owned())
        ),
        Err(Error::FileIO {
            path: Some("/site/loveletters.toml".to_owned()),
            raw: "permission denied".to_owned()
        })
    );
}

#[test]
fn malformed_config_names_the_file_and_the_cause() {
    assert_eq!(
        Config::try_read_from_disk(
            "/site/loveletters.toml",
            Loaded::Malformed("missing field `author`".to_owned())
        ),
        Err(Error::MalformedProjectConfig {
            location: "/site/loveletters.toml".to_owned(),
            raw: "missing field `author`".to_owned()
        })
    );
    assert_eq!(
        Config::try_read_from_disk("/site/loveletters.toml", Loaded::Parsed(raw_config("::"))),
        Err(Error::MalformedProjectConfig {
            location: "/site/loveletters.toml".to_owned(),
            raw: "the root of the project is not a URL".to_owned()
        })
    );
}

#[test]
fn parsed_config_is_the_config() {
    let read = Config::try_read_from_disk(
        "/site/loveletters.toml",
        Loaded::Parsed(raw_config("https://example.org/")),
    );
    assert_eq!(
        read,
        Ok(Config::new(
            "Blog".to_owned(),
            "Me".to_owned(),
            "https://example.org/".to_owned()
        )
        .unwrap())
    );
}

fn slug(t: &str) -> Slug {
    Slug::from_string(t.to_owned())
}

#[test]
fn page_context_tells_path_slug_and_frontmatter() {
    let path = vec![slug("posts"), slug("2024")];
    let ctx = PageContext::new(&path, None);
    assert_eq!(
        ctx.into_value(),
        Value::Dict(dict(vec![(
            "path",
            Value::Array(vec![text("posts"), text("2024")])
        )]))
    );
    let page = slug("hello");
    let mut ctx = PageContext::new(&path, Some(&page));
    assert_eq!(
        ctx.into_value(),
        Value::Dict(dict(vec![
            ("path", Value::Array(vec![text("posts"), text("2024")])),
            ("page", text("hello")),
        ]))
    );
    ctx.with_frontmatter(text("meta"));
    assert_eq!(
        ctx.into_value(),
        Value::Dict(dict(vec![
            ("path", Value::Array(vec![text("posts"), text("2024")])),
            ("page", text("hello")),
            ("frontmatter", text("meta")),
        ]))
    );
    let root = PageContext::new(&[], None);
    assert_eq!(
        root.into_value(),
        Value::Dict(dict(vec![("path", Value::Array(vec![]))]))
    );
}

fn parsed_index(dir: &str, title: &str) -> PageWithFrontmatter<Index, IndexFrontmatter> {
    PageWithFrontmatter::try_parse(
        Slug::index(),
        dir.to_owned(),
        Loaded::Parsed(IndexFrontmatter::new(title.to_owned(), noon(2020, 1, 1))),
    )
    .unwrap()
}

fn parsed_leaf(name: &str, dir: &str, title: &str) -> PageWithFrontmatter<Leaf, LeafFrontmatter> {
    PageWithFrontmatter::try_parse(
        slug(name),
        dir.to_owned(),
        Loaded::Parsed(LeafFrontmatter::new(title.to_owned(), noon(2020, 1, 1))),
    )
    .unwrap()
}

fn page_of(title: &str) -> Value {
    Value::Dict(dict(vec![(
        "frontmatter",
        Value::Dict(dict(vec![
            ("title", text(title)),
            ("publication", Value::Datetime(noon(2020, 1, 1))),
        ])),
    )]))
}

#[test]
fn tree_is_told_as_index_pages_and_subsections() {
    let mut posts_pages = SlugMap::new();
    posts_pages.insert(slug("a"), parsed_leaf("a", "/c/posts/a", "A"));
    posts_pages.insert(slug("b"), parsed_leaf("b", "/c/posts/b", "B"));
    let posts = Section::new(
        slug("posts"),
        parsed_index("/c/posts/_index", "Posts"),
        posts_pages,
        SlugMap::new(),
    );
    let mut subs = SlugMap::new();
    subs.insert(slug("posts"), posts);
    let tree = Section::new(slug(""), parsed_index("/c/_index", "Home"), SlugMap::new(), subs);

    let expected = dict(vec![
        ("index", page_of("Home")),
        ("pages", Value::Dict(Dict::new())),
        (
            "subsections",
            Value::Dict(dict(vec![(
                "posts",
                Value::Dict(dict(vec![
                    ("index", page_of("Posts")),
                    (
                        "pages",
                        Value::Dict(dict(vec![("a", page_of("A")), ("b", page_of("B"))])),
                    ),
                    ("subsections", Value::Dict(Dict::new())),
                ])),
            )])),
        ),
    ]);
    assert_eq!(tree.to_typst(), expected);
    assert_eq!(tree.into_value(), Value::Dict(expected.clone()));

    let config = Config::new(
        "Blog".to_owned(),
        "Me".to_owned(),
        "https://example.org/".to_owned(),
    )
    .unwrap();
    let told_config = config.to_typst();
    let global = GlobalContext::new(&tree, config);
    assert_eq!(
        global.into_value(),
        Value::Dict(dict(vec![
            ("content", Value::Dict(expected)),
            ("config", Value::Dict(told_config)),
        ]))
    );
}

#[test]
fn page_with_frontmatter_is_told_as_its_frontmatter() {
    let page = parsed_leaf("a", "/c/a", "Title");
    assert_eq!(page.to_typst(), page_of("Title"));
    assert_eq!(page.slug().as_str(), "a");
    assert_eq!(page.content_dir(), "/c/a");
    assert_eq!(
        page.frontmatter(),
        &LeafFrontmatter::new("Title".to_owned(), noon(2020, 1, 1))
    );
}
