use loveletters::bundleing::{Bundler, InMemFile, PageBundle};
use loveletters::config::Config;
use loveletters::content::{IndexFrontmatter, LeafFrontmatter};
use loveletters::error::{Diagnostic, Error, Severity};
use loveletters::frontmatter_parsing::PageWithFrontmatter;
use loveletters::page::{Index, Leaf};
use loveletters::rendering::context::{GlobalContext, PageContext};
use loveletters::rendering::{Compiled, RenderJob, RenderedPage, Renderer};
use loveletters::section::Section;
use loveletters::slug::Slug;
use loveletters::slug_map::SlugMap;
use loveletters::utils::{Creation, Loaded};
use loveletters::value::{Datetime, Dict, IntoValue, Value};
use std::cell::RefCell;

fn s(t: &str) -> Slug {
    Slug::from_string(t.to_owned())
}

fn when() -> Datetime {
    Datetime::new(2024, 5, 6, 7, 8, 9, 0).unwrap()
}

fn index_page(dir: &str, title: &str) -> PageWithFrontmatter<Index, IndexFrontmatter> {
    PageWithFrontmatter::try_parse(
        Slug::index(),
        dir.to_owned(),
        Loaded::Parsed(IndexFrontmatter::new(title.to_owned(), when())),
    )
    .unwrap()
}

fn leaf_page(name: &str, dir: &str, title: &str) -> PageWithFrontmatter<Leaf, LeafFrontmatter> {
    PageWithFrontmatter::try_parse(
        s(name),
        dir.to_owned(),
        Loaded::Parsed(LeafFrontmatter::new(title.to_owned(), when())),
    )
    .unwrap()
}

fn content() -> Section<
    PageWithFrontmatter<Index, IndexFrontmatter>,
    PageWithFrontmatter<Leaf, LeafFrontmatter>,
> {
    let mut posts_pages = SlugMap::new();
    posts_pages.insert(s("a"), leaf_page("a", "/c/posts/a", "A"));
    posts_pages.insert(s("b"), leaf_page("b", "/c/posts/b", "B"));
    let posts = Section::new(
        s("posts"),
        index_page("/c/posts/_index", "Posts"),
        posts_pages,
        SlugMap::new(),
    );
    let mut subs = SlugMap::new();
    subs.insert(s("posts"), posts);
    Section::new(s(""), index_page("/c/_index", "Home"), SlugMap::new(), subs)
}

fn renderer_for(
    tree: &Section<
        PageWithFrontmatter<Index, IndexFrontmatter>,
        PageWithFrontmatter<Leaf, LeafFrontmatter>,
    >,
) -> (Renderer, Value) {
    let config = Config::new(
        "Blog".to_owned(),
        "Me".to_owned(),
        "https://example.org/".to_owned(),
    )
    .unwrap();
    let global = GlobalContext::new(tree, config);
    let told = global.into_value();
    (Renderer::new(global), told)
}

fn rendered_tree() -> Section<RenderedPage<Index>, RenderedPage<Leaf>> {
    let tree = content();
    let (renderer, _) = renderer_for(&tree);
    renderer
        .try_render(tree, |job: &RenderJob| {
            Compiled::Document(format!("<html>{}</html>", job.content_dir))
        })
        .unwrap()
}

#[test]
fn compiled_document_becomes_the_rendered_page() {
    let page: RenderedPage<Leaf> = RenderedPage::try_render(
        s("a"),
        "/c/a".to_owned(),
        Compiled::Document("<p>hi</p>".to_owned()),
    )
    .unwrap();
    assert_eq!(page.slug().as_str(), "a");
    assert_eq!(page.content_dir(), "/c/a");
    assert_eq!(page.rendering(), "<p>hi</p>");
}

#[test]
fn diagnostics_are_folded_into_one_compilation_error() {
    let diagnostics = vec![
        Diagnostic {
            severity: Severity::Error,
            message: "unknown variable: foo".to_owned(),
            hints: vec!["did you mean `for`?".to_owned()],
        },
        Diagnostic {
            severity: Severity::Warning,
            message: "unused".to_owned(),
            hints: vec![],
        },
    ];
    let page: Result<RenderedPage<Leaf>, Error> = RenderedPage::try_render(
        s("a"),
        "/c/a".to_owned(),
        Compiled::Rejected(diagnostics.clone()),
    );
    assert_eq!(
        page.err(),
        Some(Error::Compilation {
            page: "/c/a".to_owned(),
            diagnostics
        })
    );
}

#[test]
fn a_compiler_that_could_not_start_hands_on_its_failure() {
    let failure = Error::NotFound {
        missing: loveletters::error::EntityKind::TypstRoot,
        path: "/c/a/page.typ".to_owned(),
    };
    let page: Result<RenderedPage<Leaf>, Error> =
        RenderedPage::try_render(s("a"), "/c/a".to_owned(), Compiled::Failed(failure.clone()));
    assert_eq!(page.err(), Some(failure));
}

#[test]
fn every_page_is_rendered_with_its_own_context() {
    let tree = content();
    let (renderer, project) = renderer_for(&tree);
    let jobs: RefCell<Vec<RenderJob>> = RefCell::new(Vec::new());
    let rendered = renderer
        .try_render(tree, |job: &RenderJob| {
            jobs.borrow_mut().push(RenderJob {
                content_dir: job.content_dir.clone(),
                root_file: job.root_file.clone(),
                bindings: job.bindings.clone(),
            });
            Compiled::Document(format!("doc of {}", job.content_dir))
        })
        .unwrap();

    let jobs = jobs.into_inner();
    let seen: Vec<(&str, &str)> = jobs
        .iter()
        .map(|j| (j.content_dir.as_str(), j.root_file.as_str()))
        .collect();
    assert_eq!(
        seen,
        vec![
            ("/c/_index", "index.typ"),
            ("/c/posts/_index", "index.typ"),
            ("/c/posts/a", "page.typ"),
            ("/c/posts/b", "page.typ"),
        ]
    );

    let mut ctx = PageContext::new(&[s("posts")], Some(&s("a")));
    ctx.with_frontmatter(LeafFrontmatter::new("A".to_owned(), when()).into_value());
    let mut bindings = Dict::new();
    bindings.insert("project".to_owned(), project.clone());
    bindings.insert("page".to_owned(), ctx.into_value());
    assert_eq!(jobs[2].bindings, Value::Dict(bindings));

    let mut ctx = PageContext::new(&[], None);
    ctx.with_frontmatter(IndexFrontmatter::new("Home".to_owned(), when()).into_value());
    let mut bindings = Dict::new();
    bindings.insert("project".to_owned(), project);
    bindings.insert("page".to_owned(), ctx.into_value());
    assert_eq!(jobs[0].bindings, Value::Dict(bindings));

    assert_eq!(rendered.index().rendering(), "doc of /c/_index");
    assert_eq!(rendered.index().slug().as_str(), "_index");
    let posts = &rendered.sub_sections()[0].1;
    assert_eq!(posts.index().rendering(), "doc of /c/posts/_index");
    assert_eq!(posts.pages()[0].0.as_str(), "a");
    assert_eq!(posts.pages()[0].1.rendering(), "doc of /c/posts/a");
    assert_eq!(posts.pages()[1].1.slug().as_str(), "b");
}

#[test]
fn first_page_that_fails_to_compile_ends_the_rendering() {
    let tree = content();
    let (renderer, _) = renderer_for(&tree);
    let asked: RefCell<Vec<String>> = RefCell::new(Vec::new());
    let rendered = renderer.try_render(tree, |job: &RenderJob| {
        asked.borrow_mut().push(job.content_dir.clone());
        if job.content_dir == "/c/posts/a" {
            Compiled::Rejected(vec![Diagnostic {
                severity: Severity::Error,
                message: "boom".to_owned(),
                hints: vec![],
            }])
        } else {
            Compiled::Document("ok".to_owned())
        }
    });
    assert_eq!(
        rendered.err(),
        Some(Error::Compilation {
            page: "/c/posts/a".to_owned(),
            diagnostics: vec![Diagnostic {
                severity: Severity::Error,
                message: "boom".to_owned(),
                hints: vec![],
            }]
        })
    );
    assert_eq!(
        *asked.borrow(),
        vec![
            "/c/_index".to_owned(),
            "/c/posts/_index".to_owned(),
            "/c/posts/a".to_owned()
        ]
    );
}

#[test]
fn bundle_mirrors_the_tree_below_the_output_root() {
    let created: RefCell<Vec<String>> = RefCell::new(Vec::new());
    let written: RefCell<Vec<(String, Vec<u8>)>> = RefCell::new(Vec::new());
    let bundler = Bundler::new("/site".to_owned(), "/out".to_owned());
    let done = bundler.try_bundle(
        rendered_tree(),
        |dir: &str| {
            let known = created.borrow().iter().any(|d| d == dir);
            created.borrow_mut().push(dir.to_owned());
            if known {
                Creation::AlreadyExists
            } else {
                Creation::Created
            }
        },
        |file: &str, bytes: &[u8]| {
            written.borrow_mut().push((file.to_owned(), bytes.to_vec()));
            Ok(())
        },
    );
    assert_eq!(done, Ok(()));
    assert_eq!(
        *written.borrow(),
        vec![
            ("/out/index.html".to_owned(), b"<html>/c/_index</html>".to_vec()),
            (
                "/out/posts/index.html".to_owned(),
                b"<html>/c/posts/_index</html>".to_vec()
            ),
            (
                "/out/posts/a/index.html".to_owned(),
                b"<html>/c/posts/a</html>".to_vec()
            ),
            (
                "/out/posts/b/index.html".to_owned(),
                b"<html>/c/posts/b</html>".to_vec()
            ),
        ]
    );
    let mut dirs = created.borrow().clone();
    dirs.dedup();
    assert_eq!(
        dirs,
        vec![
            "/out".to_owned(),
            "/out/posts".to_owned(),
            "/out/posts/a".to_owned(),
            "/out/posts/b".to_owned()
        ]
    );
}

#[test]
fn a_write_failure_names_the_output_path() {
    let written: RefCell<Vec<String>> = RefCell::new(Vec::new());
    let bundler = Bundler::new("/site".to_owned(), "/out".to_owned());
    let done = bundler.try_bundle(
        rendered_tree(),
        |_dir: &str| Creation::AlreadyExists,
        |file: &str, _bytes: &[u8]| {
            written.borrow_mut().push(file.to_owned());
            if file == "/out/posts/index.html" {
                Err("disk full".to_owned())
            } else {
                Ok(())
            }
        },
    );
    assert_eq!(
        done,
        Err(Error::FileIO {
            path: Some("/out/posts/index.html".to_owned()),
            raw: "disk full".to_owned()
        })
    );
    assert_eq!(
        *written.borrow(),
        vec!["/out/index.html".to_owned(), "/out/posts/index.html".to_owned()]
    );
}

#[test]
fn a_directory_that_cannot_be_made_ends_the_bundling() {
    let written: RefCell<Vec<String>> = RefCell::new(Vec::new());
    let bundler = Bundler::new("/site".to_owned(), "/out".to_owned());
    let done = bundler.try_bundle(
        rendered_tree(),
        |dir: &str| {
            if dir == "/out/posts/a" {
                Creation::Failed("read-only".to_owned())
            } else {
                Creation::Created
            }
        },
        |file: &str, _bytes: &[u8]| {
            written.borrow_mut().push(file.to_owned());
            Ok(())
        },
    );
    assert_eq!(
        done,
        Err(Error::FileIO {
            path: Some("/out/posts/a".to_owned()),
            raw: "read-only".to_owned()
        })
    );
    assert_eq!(written.borrow().len(), 2);
}

#[test]
fn page_bundle_writes_index_html_into_its_directory() {
    let written: RefCell<Vec<(String, Vec<u8>)>> = RefCell::new(Vec::new());
    let create = |_dir: &str| Creation::Created;
    let write = |file: &str, bytes: &[u8]| -> Result<(), String> {
        written.borrow_mut().push((file.to_owned(), bytes.to_vec()));
        Ok(())
    };
    let bundle = PageBundle::new(
        "/out/x".to_owned(),
        InMemFile::new(bytes::Bytes::from("héllo".to_owned())),
    );
    assert_eq!(bundle.write_to_disk(&create, &write), Ok(()));
    assert_eq!(
        *written.borrow(),
        vec![("/out/x/index.html".to_owned(), "héllo".as_bytes().to_vec())]
    );
}

#[test]
fn in_mem_file_reports_a_refused_write() {
    let write = |_file: &str, _bytes: &[u8]| -> Result<(), String> { Err("nope".to_owned()) };
    let file = InMemFile::new(bytes::Bytes::from_static(b"abc"));
    assert_eq!(
        file.write_to("/out/f", &write),
        Err(Error::FileIO {
            path: Some("/out/f".to_owned()),
            raw: "nope".to_owned()
        })
    );
}

#[test]
fn rendered_page_becomes_a_bundle_of_its_document() {
    let written: RefCell<Vec<(String, Vec<u8>)>> = RefCell::new(Vec::new());
    let create = |_dir: &str| Creation::AlreadyExists;
    let write = |file: &str, bytes: &[u8]| -> Result<(), String> {
        written.borrow_mut().push((file.to_owned(), bytes.to_vec()));
        Ok(())
    };
    let page: RenderedPage<Leaf> = RenderedPage::try_render(
        s("a"),
        "/c/a".to_owned(),
        Compiled::Document("<b>ü</b>".to_owned()),
    )
    .unwrap();
    let bundle = page.try_bundle("/out/a".to_owned(), &create).unwrap();
    assert_eq!(bundle.write_to_disk(&create, &write), Ok(()));
    assert_eq!(
        *written.borrow(),
        vec![("/out/a/index.html".to_owned(), "<b>ü</b>".as_bytes().to_vec())]
    );
    let page: RenderedPage<Leaf> =
        RenderedPage::try_render(s("a"), "/c/a".to_owned(), Compiled::Document("x".to_owned()))
            .unwrap();
    let refuse = |_dir: &str| Creation::Failed("no".to_owned());
    assert_eq!(
        page.try_bundle("/out/a".to_owned(), &refuse).err(),
        Some(Error::FileIO {
            path: Some("/out/a".to_owned()),
            raw: "no".to_owned()
        })
    );
}
