use loveletters::config::RawConfig;
use loveletters::content::{IndexFrontmatter, LeafFrontmatter};
use loveletters::discovery::{WalkEntry, WalkFailure};
use loveletters::error::{Diagnostic, EntityKind, Error, Severity};
use loveletters::rendering::{Compiled, RenderJob};
use loveletters::utils::{Creation, Loaded};
use loveletters::value::Datetime;
use loveletters::{render_dir, Host};
use std::cell::RefCell;

struct Disk {
    dirs: Vec<&'static str>,
    config: bool,
    broken_page: Option<&'static str>,
    log: RefCell<Vec<String>>,
}

fn entry(path: &str) -> Result<WalkEntry, WalkFailure> {
    Ok(WalkEntry {
        path: path.to_owned(),
        file_name: path.rsplit('/').next().map(|n| n.to_owned()),
        is_file: true,
    })
}

fn build(disk: &Disk) -> Result<(), Error> {
    let host = Host {
        resolve_dir: |dir: &str| {
            disk.log.borrow_mut().push(format!("resolve {dir}"));
            if disk.dirs.iter().any(|d| *d == dir) || dir == "out" {
                Some(format!("/abs/{}", dir.trim_start_matches("/abs/")))
            } else {
                None
            }
        },
        load_config: |file: &str| {
            disk.log.borrow_mut().push(format!("config {file}"));
            if disk.config {
                Loaded::Parsed(RawConfig {
                    title: "Blog".to_owned(),
                    author: "Me".to_owned(),
                    root: "https://example.org/".to_owned(),
                })
            } else {
                Loaded::NotFound("No such file or directory (os error 2)".to_owned())
            }
        },
        walk: |dir: &str| {
            disk.log.borrow_mut().push(format!("walk {dir}"));
            if dir.ends_with("posts") {
                vec![
                    entry("/abs/site/content/posts/_index/index.toml"),
                    entry("/abs/site/content/posts/a/page.toml"),
                    entry("/abs/site/content/posts/a/page.typ"),
                    entry("/abs/site/content/posts/b/page.toml"),
                ]
            } else {
                vec![entry("/abs/site/content/_index/index.toml")]
            }
        },
        load_index: |file: &str| {
            disk.log.borrow_mut().push(format!("frontmatter {file}"));
            Loaded::Parsed(IndexFrontmatter::new(
                "Index".to_owned(),
                Datetime::new(2024, 1, 1, 0, 0, 0, 0).unwrap(),
            ))
        },
        load_leaf: |file: &str| {
            disk.log.borrow_mut().push(format!("frontmatter {file}"));
            Loaded::Parsed(LeafFrontmatter::new(
                "Leaf".to_owned(),
                Datetime::new(2024, 1, 2, 0, 0, 0, 0).unwrap(),
            ))
        },
        compile: |job: &RenderJob| {
            disk.log
                .borrow_mut()
                .push(format!("compile {}/{}", job.content_dir, job.root_file));
            if Some(job.content_dir.as_str()) == disk.broken_page {
                Compiled::Rejected(vec![Diagnostic {
                    severity: Severity::Error,
                    message: "expected expression".to_owned(),
                    hints: vec!["try removing the hash".to_owned()],
                }])
            } else {
                Compiled::Document(format!("<h1>{}</h1>", job.content_dir))
            }
        },
        create_dir: |dir: &str| {
            disk.log.borrow_mut().push(format!("mkdir {dir}"));
            Creation::Created
        },
        write: |file: &str, bytes: &[u8]| {
            disk.log
                .borrow_mut()
                .push(format!("write {file} {}", String::from_utf8_lossy(bytes)));
            Ok(())
        },
    };
    render_dir("site".to_owned(), "out".to_owned(), host)
}

fn writes(disk: &Disk) -> Vec<String> {
    disk.log
        .borrow()
        .iter()
        .filter(|l| l.starts_with("write "))
        .cloned()
        .collect()
}

#[test]
fn project_is_built_into_the_output_directory() {
    let disk = Disk {
        dirs: vec!["site", "/abs/site/content"],
        config: true,
        broken_page: None,
        log: RefCell::new(Vec::new()),
    };
    assert_eq!(build(&disk), Ok(()));
    assert_eq!(
        writes(&disk),
        vec![
            "write /abs/out/index.html <h1>/abs/site/content/_index</h1>".to_owned(),
            "write /abs/out/posts/index.html <h1>/abs/site/content/posts/_index</h1>".to_owned(),
            "write /abs/out/posts/a/index.html <h1>/abs/site/content/posts/a</h1>".to_owned(),
            "write /abs/out/posts/b/index.html <h1>/abs/site/content/posts/b</h1>".to_owned(),
        ]
    );
    let log = disk.log.borrow();
    assert_eq!(log[0], "resolve site");
    assert_eq!(log[1], "mkdir out");
    assert_eq!(log[2], "resolve out");
    assert_eq!(log[3], "config /abs/site/loveletters.toml");
    assert_eq!(log[4], "resolve /abs/site/content");
    assert_eq!(log[5], "walk /abs/site/content/posts");
    assert_eq!(log[6], "walk /abs/site/content");
    assert_eq!(log[7], "frontmatter /abs/site/content/_index/index.toml");
    let first_compile = log.iter().position(|l| l.starts_with("compile ")).unwrap();
    let last_frontmatter = log.iter().rposition(|l| l.starts_with("frontmatter ")).unwrap();
    let last_compile = log.iter().rposition(|l| l.starts_with("compile ")).unwrap();
    let first_write = log.iter().position(|l| l.starts_with("write ")).unwrap();
    assert!(last_frontmatter < first_compile);
    assert!(last_compile < first_write);
    assert_eq!(log[first_compile], "compile /abs/site/content/_index/index.typ");
    assert_eq!(log[last_compile], "compile /abs/site/content/posts/b/page.typ");
}

#[test]
fn project_requires_configuration() {
    let disk = Disk {
        dirs: vec!["site", "/abs/site/content"],
        config: false,
        broken_page: None,
        log: RefCell::new(Vec::new()),
    };
    let res = build(&disk);
    let matches = matches!(
        res,
        Err(Error::NotFound {
            missing: EntityKind::ProjectConfig,
            path: _
        })
    );
    assert!(matches);
    assert_eq!(
        res,
        Err(Error::NotFound {
            missing: EntityKind::ProjectConfig,
            path: "/abs/site/loveletters.toml".to_owned()
        })
    );
    assert!(writes(&disk).is_empty());
}

#[test]
fn project_requires_content() {
    let disk = Disk {
        dirs: vec!["site"],
        config: true,
        broken_page: None,
        log: RefCell::new(Vec::new()),
    };
    let res = build(&disk);
    let matches = matches!(
        res,
        Err(Error::NotFound {
            missing: EntityKind::ContentDirectory,
            path: _
        })
    );
    assert!(matches);
    assert_eq!(
        res,
        Err(Error::NotFound {
            missing: EntityKind::ContentDirectory,
            path: "/abs/site/content".to_owned()
        })
    );
    assert!(!disk.log.borrow().iter().any(|l| l.starts_with("walk ")));
}

#[test]
fn project_requires_its_directory() {
    let disk = Disk {
        dirs: vec![],
        config: true,
        broken_page: None,
        log: RefCell::new(Vec::new()),
    };
    assert_eq!(
        build(&disk),
        Err(Error::NotFound {
            missing: EntityKind::InputDirectory,
            path: "site".to_owned()
        })
    );
    assert_eq!(*disk.log.borrow(), vec!["resolve site".to_owned()]);
}

#[test]
fn a_page_that_fails_to_compile_leaves_nothing_written() {
    let disk = Disk {
        dirs: vec!["site", "/abs/site/content"],
        config: true,
        broken_page: Some("/abs/site/content/posts/a"),
        log: RefCell::new(Vec::new()),
    };
    assert_eq!(
        build(&disk),
        Err(Error::Compilation {
            page: "/abs/site/content/posts/a".to_owned(),
            diagnostics: vec![Diagnostic {
                severity: Severity::Error,
                message: "expected expression".to_owned(),
                hints: vec!["try removing the hash".to_owned()],
            }]
        })
    );
    assert!(writes(&disk).is_empty());
    let log = disk.log.borrow();
    assert!(!log.iter().any(|l| l.contains("posts/b/page.typ")));
    assert_eq!(log.iter().filter(|l| l.starts_with("mkdir ")).count(), 1);
}
