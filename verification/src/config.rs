//! What a project says of itself.

use vstd::prelude::*;
use crate::error::{EntityKind, Error, ErrorView};
use crate::slug_map::lemma_named_at;
use crate::utils::Loaded;
use crate::value::{Dict, Value, ValueView};

verus! {

/// The two parts that a project's root URL is told to the pages in, the server
/// and the path on it: what `url::Url::parse` makes of the text, cut before its
/// path and after it. No parts where the text is no URL.
pub uninterp spec fn root_parts(root: Seq<char>) -> Option<(Seq<char>, Seq<char>)>;

/// Parses `root` with `url::Url::parse` and slices the URL by `url::Position`:
/// up to `BeforePath`, and from there to `AfterPath`. Nothing is proved of the
/// result: it is taken to be `root_parts` of the text, a function of it alone.
#[verifier::external_body]
fn split_root(root: &str) -> (parts: Option<(String, String)>)
    ensures
        match parts {
            Some((server, path)) => root_parts(root@) == Some((server@, path@)),
            None => root_parts(root@) is None,
        },
{
    match url::Url::parse(root) {
        Ok(url) => Some(
            (
                url[..url::Position::BeforePath].to_owned(),
                url[url::Position::BeforePath..url::Position::AfterPath].to_owned(),
            ),
        ),
        Err(_) => None,
    }
}

/// A project's configuration as its file holds it.
#[derive(Debug, PartialEq, Eq)]
pub struct RawConfig {
    pub title: String,
    pub author: String,
    pub root: String,
}

/// A project's configuration.
#[derive(Debug, PartialEq, Eq)]
pub struct Config {
    title: String,
    author: String,
    root: String,
    server: String,
    path: String,
}

/// The value that a configuration is told to the pages as: the two parts of the
/// root under `root`, then author and title.
pub open spec fn config_dict(title: Seq<char>, author: Seq<char>, root: Seq<char>) -> Seq<
    (Seq<char>, ValueView),
> {
    seq![
        (
            "root"@,
            ValueView::Dict(
                seq![
                    ("server"@, ValueView::Str(root_parts(root).unwrap().0)),
                    ("path"@, ValueView::Str(root_parts(root).unwrap().1)),
                ],
            ),
        ),
        ("author"@, ValueView::Str(author)),
        ("title"@, ValueView::Str(title)),
    ]
}

/// What is made of the reading of the configuration file `path`: a file that
/// is not there is a missing project configuration, one that cannot be read a
/// failure of the file system, and one that is not what it should be, or whose
/// root is no URL, a malformed configuration. All of them name the file.
pub open spec fn config_of(path: Seq<char>, loaded: Loaded<RawConfig>) -> Result<
    RawConfig,
    ErrorView,
> {
    match loaded {
        Loaded::Parsed(raw) => if root_parts(raw.root@) is Some {
            Ok(raw)
        } else {
            Err(
                ErrorView::MalformedProjectConfig {
                    location: path,
                    raw: "the root of the project is not a URL"@,
                },
            )
        },
        Loaded::NotFound(cause) => Err(
            ErrorView::NotFound { missing: EntityKind::ProjectConfig, path },
        ),
        Loaded::Unreadable(cause) => Err(ErrorView::FileIO { path: Some(path), raw: cause@ }),
        Loaded::Malformed(cause) => Err(
            ErrorView::MalformedProjectConfig { location: path, raw: cause@ },
        ),
    }
}

impl Config {
    /// The title of the project.
    pub closed spec fn spec_title(&self) -> Seq<char> {
        self.title@
    }

    /// The author of the project.
    pub closed spec fn spec_author(&self) -> Seq<char> {
        self.author@
    }

    /// The URL under which the project is served.
    pub closed spec fn spec_root(&self) -> Seq<char> {
        self.root@
    }

    /// Validity of a configuration: the root is a URL, and its two parts are
    /// at hand.
    pub closed spec fn wf(&self) -> bool {
        root_parts(self.root@) == Some((self.server@, self.path@))
    }

    /// The configuration of the given parts, where `root` is a URL.
    pub fn new(title: String, author: String, root: String) -> (made: Option<Self>)
        ensures
            match made {
                Some(config) => {
                    &&& root_parts(root@) is Some
                    &&& config.wf()
                    &&& config.spec_title() == title@
                    &&& config.spec_author() == author@
                    &&& config.spec_root() == root@
                },
                None => root_parts(root@) is None,
            },
    {
        match split_root(root.as_str()) {
            Some((server, path)) => Some(Config { title, author, root, server, path }),
            None => None,
        }
    }

    /// The configuration that the file `path` holds, once the reading of the
    /// file has ended in `loaded`.
    pub fn try_read_from_disk(path: &str, loaded: Loaded<RawConfig>) -> (read: Result<Self, Error>)
        ensures
            match read {
                Ok(config) => {
                    &&& config_of(path@, loaded) matches Ok(raw)
                    &&& config.wf()
                    &&& config.spec_title() == raw.title@
                    &&& config.spec_author() == raw.author@
                    &&& config.spec_root() == raw.root@
                },
                Err(e) => config_of(path@, loaded) matches Err(failure) && failure == e@,
            },
    {
        match loaded {
            Loaded::Parsed(raw) => {
                match Config::new(raw.title, raw.author, raw.root) {
                    Some(config) => Ok(config),
                    None => Err(
                        Error::MalformedProjectConfig {
                            location: path.to_owned(),
                            raw: "the root of the project is not a URL".to_owned(),
                        },
                    ),
                }
            },
            Loaded::NotFound(cause) => Err(
                Error::NotFound { missing: EntityKind::ProjectConfig, path: path.to_owned() },
            ),
            Loaded::Unreadable(cause) => Err(
                Error::FileIO { path: Some(path.to_owned()), raw: cause },
            ),
            Loaded::Malformed(cause) => Err(
                Error::MalformedProjectConfig { location: path.to_owned(), raw: cause },
            ),
        }
    }

    /// The configuration as named values for the pages to read.
    pub fn to_typst(&self) -> (made: Dict)
        requires
            self.wf(),
        ensures
            made@ == config_dict(self.spec_title(), self.spec_author(), self.spec_root()),
    {
        let mut root_dict = Dict::new();
        proof {
            reveal_strlit("server");
            reveal_strlit("path");
            reveal_strlit("root");
            reveal_strlit("author");
            reveal_strlit("title");
            assert("server"@.len() != "path"@.len());
            assert("root"@.len() != "author"@.len());
            assert("root"@.len() != "title"@.len());
            assert("author"@.len() != "title"@.len());
            lemma_named_at(root_dict@, "server"@);
        }
        root_dict.insert("server".to_owned(), Value::Str(self.server.clone()));
        proof {
            lemma_named_at(root_dict@, "path"@);
        }
        root_dict.insert("path".to_owned(), Value::Str(self.path.clone()));
        assert(root_dict@ =~= seq![
            ("server"@, ValueView::Str(self.server@)),
            ("path"@, ValueView::Str(self.path@)),
        ]);

        let mut d = Dict::new();
        proof {
            lemma_named_at(d@, "root"@);
        }
        d.insert("root".to_owned(), Value::Dict(root_dict));
        proof {
            lemma_named_at(d@, "author"@);
        }
        d.insert("author".to_owned(), Value::Str(self.author.clone()));
        proof {
            lemma_named_at(d@, "title"@);
        }
        d.insert("title".to_owned(), Value::Str(self.title.clone()));
        assert(d@ =~= config_dict(self.spec_title(), self.spec_author(), self.spec_root()));
        d
    }
}

} // verus!
