//! What a page is told when it is rendered: of the project as a whole, and of
//! its own place in it.

use vstd::prelude::*;
use crate::config::{config_dict, Config};
use crate::content::{IndexFrontmatter, LeafFrontmatter};
use crate::frontmatter_parsing::PageWithFrontmatter;
use crate::page::{Index, Leaf};
use crate::section::{section_dict, Section};
use crate::slug::Slug;
use crate::slug_map::lemma_named_at;
use crate::value::{array_view, Dict, IntoValue, Value, ValueView};

verus! {

/// What every page is told of the project: its content and its configuration.
pub struct GlobalContext {
    content: Dict,
    config: Dict,
}

/// The value that the project's content and configuration are told as: each
/// under its name.
pub open spec fn global_value(
    content: Seq<(Seq<char>, ValueView)>,
    config: Seq<(Seq<char>, ValueView)>,
) -> ValueView {
    ValueView::Dict(
        seq![("content"@, ValueView::Dict(content)), ("config"@, ValueView::Dict(config))],
    )
}

impl GlobalContext {
    /// The project's content, as named values.
    pub closed spec fn content(&self) -> Seq<(Seq<char>, ValueView)> {
        self.content@
    }

    /// The project's configuration, as named values.
    pub closed spec fn config(&self) -> Seq<(Seq<char>, ValueView)> {
        self.config@
    }

    /// What the pages are told of a project with the pages `content` and the
    /// configuration `config`.
    pub fn new(
        content: &Section<
            PageWithFrontmatter<Index, IndexFrontmatter>,
            PageWithFrontmatter<Leaf, LeafFrontmatter>,
        >,
        config: Config,
    ) -> (made: Self)
        requires
            config.wf(),
        ensures
            made.content() == section_dict(*content),
            made.config() == config_dict(
                config.spec_title(),
                config.spec_author(),
                config.spec_root(),
            ),
    {
        Self { content: content.to_typst(), config: config.to_typst() }
    }
}

impl IntoValue for GlobalContext {
    open spec fn value(&self) -> ValueView {
        global_value(self.content(), self.config())
    }

    fn into_value(&self) -> (made: Value) {
        let mut d = Dict::new();
        proof {
            reveal_strlit("content");
            reveal_strlit("config");
            assert("content"@.len() != "config"@.len());
            lemma_named_at(d@, "content"@);
        }
        d.insert("content".to_owned(), Value::Dict(self.content.clone()));
        proof {
            lemma_named_at(d@, "config"@);
        }
        d.insert("config".to_owned(), Value::Dict(self.config.clone()));
        assert(d@ =~= seq![
            ("content"@, ValueView::Dict(self.content())),
            ("config"@, ValueView::Dict(self.config())),
        ]);
        Value::Dict(d)
    }
}

/// What a page is told of its own place: the path of the section that holds
/// it, its slug unless it is the section's index page, and its frontmatter once
/// that is known.
pub struct PageContext {
    section_path: Vec<Slug>,
    page: Option<Slug>,
    frontmatter: Option<Value>,
}

/// A path as a value: the texts of its slugs in a row.
pub open spec fn path_value(path: Seq<Slug>) -> ValueView {
    ValueView::Array(Seq::new(path.len(), |k: int| ValueView::Str(path[k]@)))
}

/// The value that a page is told of its own place as: the path under `path`,
/// then the slug under `page` where there is one, then the frontmatter under
/// `frontmatter` where it is known.
pub open spec fn page_context_value(
    path: Seq<Slug>,
    page: Option<Slug>,
    frontmatter: Option<ValueView>,
) -> ValueView {
    let with_path = seq![("path"@, path_value(path))];
    let with_page = match page {
        Some(slug) => with_path.push(("page"@, ValueView::Str(slug@))),
        None => with_path,
    };
    ValueView::Dict(
        match frontmatter {
            Some(frontmatter) => with_page.push(("frontmatter"@, frontmatter)),
            None => with_page,
        },
    )
}

/// The frontmatter that a context holds, as plain values.
pub open spec fn held_view(frontmatter: Option<Value>) -> Option<ValueView> {
    match frontmatter {
        Some(frontmatter) => Some(frontmatter@),
        None => None,
    }
}

impl PageContext {
    /// The path of the section that holds the page.
    pub closed spec fn path(&self) -> Seq<Slug> {
        self.section_path@
    }

    /// The slug of the page, unless it is an index page.
    pub closed spec fn slug(&self) -> Option<Slug> {
        self.page
    }

    /// The page's frontmatter, once it is known.
    pub closed spec fn frontmatter(&self) -> Option<ValueView> {
        held_view(self.frontmatter)
    }

    /// The context of the page `page` in the section at `path`, or of that
    /// section's index page where `page` is `None`.
    pub fn new(path: &[Slug], page: Option<&Slug>) -> (made: Self)
        ensures
            made.path() == path@,
            made.slug() == match page {
                Some(slug) => Some(*slug),
                None => None,
            },
            made.frontmatter() is None,
    {
        let mut section_path: Vec<Slug> = Vec::new();
        let mut k: usize = 0;
        while k < path.len()
            invariant
                k <= path.len(),
                section_path@ == path@.take(k as int),
            decreases path.len() - k,
        {
            section_path.push(path[k].clone());
            proof {
                assert(path@.take(k + 1) =~= path@.take(k as int).push(path@[k as int]));
            }
            k += 1;
        }
        proof {
            assert(path@.take(path.len() as int) =~= path@);
        }
        let page = match page {
            Some(slug) => Some(slug.clone()),
            None => None,
        };
        Self { section_path, page, frontmatter: None }
    }

    /// Makes the page's frontmatter known.
    pub fn with_frontmatter(&mut self, frontmatter: Value)
        ensures
            final(self).path() == old(self).path(),
            final(self).slug() == old(self).slug(),
            final(self).frontmatter() == Some(frontmatter@),
    {
        self.frontmatter = Some(frontmatter);
    }
}

impl IntoValue for PageContext {
    open spec fn value(&self) -> ValueView {
        page_context_value(self.path(), self.slug(), self.frontmatter())
    }

    fn into_value(&self) -> (made: Value) {
        let mut texts: Vec<Value> = Vec::new();
        let mut k: usize = 0;
        while k < self.section_path.len()
            invariant
                k <= self.section_path.len(),
                texts@.len() == k,
                forall|m: int|
                    0 <= m < k ==> (#[trigger] texts@[m])@ == ValueView::Str(
                        self.section_path@[m]@,
                    ),
            decreases self.section_path.len() - k,
        {
            texts.push(Value::text(self.section_path[k].as_str()));
            k += 1;
        }
        let path = Value::Array(texts);
        proof {
            assert(array_view(texts@) =~= path_value(self.path())->Array_0);
        }
        let mut d = Dict::new();
        proof {
            reveal_strlit("path");
            reveal_strlit("page");
            reveal_strlit("frontmatter");
            assert("path"@[2] != "page"@[2]);
            assert("path"@.len() != "frontmatter"@.len());
            assert("page"@.len() != "frontmatter"@.len());
            lemma_named_at(d@, "path"@);
        }
        d.insert("path".to_owned(), path);
        assert(d@ =~= seq![("path"@, path_value(self.path()))]);
        if let Some(page) = &self.page {
            proof {
                lemma_named_at(d@, "page"@);
            }
            d.insert("page".to_owned(), Value::text(page.as_str()));
        }
        if let Some(frontmatter) = &self.frontmatter {
            proof {
                lemma_named_at(d@, "frontmatter"@);
            }
            d.insert("frontmatter".to_owned(), frontmatter.clone());
        }
        assert(ValueView::Dict(d@) =~= page_context_value(
            self.path(),
            self.slug(),
            self.frontmatter(),
        ));
        Value::Dict(d)
    }
}

} // verus!
