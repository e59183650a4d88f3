//! Rendering the pages of a tree.

pub mod context;
pub mod driver_typst;

use std::marker::PhantomData;
use vstd::prelude::*;
use crate::content::{IndexFrontmatter, LeafFrontmatter};
use crate::error::{Diagnostic, Error, ErrorView};
use crate::frontmatter_parsing::PageWithFrontmatter;
use crate::page::{Index, Leaf, Mode};
use crate::rendering::context::{page_context_value, GlobalContext, PageContext};
use crate::section::{
    index_ready, index_step, leaf_ready, leaf_step, lemma_walk_callable_total,
    lemma_walk_err_weaken, lemma_walk_ok_weaken, same_shape, walk_err, walk_ok, Section,
};
use crate::slug::Slug;
use crate::slug_map::lemma_named_at;
use crate::value::{Dict, IntoValue, Value, ValueView};

verus! {

/// What the compiler is asked to render: the page in the directory
/// `content_dir`, starting from the file `root_file` in it, with `bindings` for
/// the page to read.
#[derive(Debug, PartialEq, Eq)]
pub struct RenderJob {
    pub content_dir: String,
    pub root_file: String,
    pub bindings: Value,
}

/// How the compilation of a page ended.
#[derive(Debug, PartialEq, Eq)]
pub enum Compiled {
    /// The page as a document, ready to be written.
    Document(String),
    /// The compiler rejected the page, with these messages.
    Rejected(Vec<Diagnostic>),
    /// The compiler could not be set to work.
    Failed(Error),
}

/// A page as the compiler rendered it.
pub struct RenderedPage<M> {
    slug: Slug,
    content_dir: String,
    rendering: String,
    m: PhantomData<M>,
}

/// What a page reads while it is rendered: what it is told of the project
/// under `project`, and what it is told of itself under `page`.
pub open spec fn bindings_value(project: ValueView, page: ValueView) -> ValueView {
    ValueView::Dict(seq![("project"@, project), ("page"@, page)])
}

/// Whether `job` asks for the page of kind `M` in `dir` to be rendered with
/// `bindings`.
pub open spec fn is_job<M: Mode>(job: RenderJob, dir: Seq<char>, bindings: ValueView) -> bool {
    &&& job.content_dir@ == dir
    &&& job.root_file@ == M::filestem() + ".typ"@
    &&& job.bindings@ == bindings
}

/// Whether `out` is what comes of the page `slug` in `dir` once its
/// compilation has ended in `compiled`: the rendered page, or one error that
/// names the page's directory and carries the compiler's messages, or the
/// failure as it came.
pub open spec fn rendered<M>(
    slug: Slug,
    dir: Seq<char>,
    compiled: Compiled,
    out: Result<RenderedPage<M>, Error>,
) -> bool {
    match compiled {
        Compiled::Document(document) => {
            &&& out matches Ok(page)
            &&& page.spec_slug() == slug
            &&& page.dir() == dir
            &&& page.document() == document@
        },
        Compiled::Rejected(diagnostics) => {
            &&& out matches Err(e)
            &&& e@ == ErrorView::Compilation {
                page: dir,
                diagnostics: diagnostics@.map_values(|d: Diagnostic| d@),
            }
        },
        Compiled::Failed(failure) => out matches Err(e) && e == failure,
    }
}

/// Whether `compile` may be called on every job.
pub open spec fn compile_ready<C: Fn(&RenderJob) -> Compiled>(compile: C) -> bool {
    forall|job: &RenderJob| call_requires(compile, (job,))
}

/// Whether `out` is something that comes of the page `slug` of kind `M` in
/// `dir` when `compile` renders it with what the project tells, `project`, and
/// what the page is told of itself, `page`.
pub open spec fn render_outcome<M: Mode, C: Fn(&RenderJob) -> Compiled>(
    compile: C,
    project: ValueView,
    slug: Slug,
    dir: Seq<char>,
    page: ValueView,
    out: Result<RenderedPage<M>, Error>,
) -> bool {
    exists|job: RenderJob, compiled: Compiled|
        {
            &&& is_job::<M>(job, dir, bindings_value(project, page))
            &&& call_ensures(compile, (&job,), compiled)
            &&& rendered(slug, dir, compiled, out)
        }
}

/// The rendering of index pages, as a relation for a walk: each is told the
/// path of its section and its frontmatter.
pub open spec fn render_index_step<C: Fn(&RenderJob) -> Compiled>(
    compile: C,
    project: ValueView,
) -> spec_fn(
    Seq<Slug>,
    PageWithFrontmatter<Index, IndexFrontmatter>,
    Result<RenderedPage<Index>, Error>,
) -> bool {
    |
        path: Seq<Slug>,
        page: PageWithFrontmatter<Index, IndexFrontmatter>,
        out: Result<RenderedPage<Index>, Error>,
    |
        render_outcome(
            compile,
            project,
            page.spec_slug(),
            page.dir(),
            page_context_value(path, None, Some(page.spec_frontmatter().value())),
            out,
        )
}

/// The rendering of leaf pages, as a relation for a walk: each is told the
/// path of the section that holds it, the slug that it is filed under and its
/// frontmatter.
pub open spec fn render_leaf_step<C: Fn(&RenderJob) -> Compiled>(
    compile: C,
    project: ValueView,
) -> spec_fn(
    Seq<Slug>,
    Slug,
    PageWithFrontmatter<Leaf, LeafFrontmatter>,
    Result<RenderedPage<Leaf>, Error>,
) -> bool {
    |
        path: Seq<Slug>,
        slug: Slug,
        page: PageWithFrontmatter<Leaf, LeafFrontmatter>,
        out: Result<RenderedPage<Leaf>, Error>,
    |
        render_outcome(
            compile,
            project,
            page.spec_slug(),
            page.dir(),
            page_context_value(path, Some(slug), Some(page.spec_frontmatter().value())),
            out,
        )
}

impl<M> RenderedPage<M> {
    /// The page's slug.
    pub closed spec fn spec_slug(self) -> Slug {
        self.slug
    }

    /// The directory that holds the page's source.
    pub closed spec fn dir(self) -> Seq<char> {
        self.content_dir@
    }

    /// The page as a document.
    pub closed spec fn document(self) -> Seq<char> {
        self.rendering@
    }

    /// The page `slug` in the directory `content_dir` as rendered, once its
    /// compilation has ended in `compiled`.
    pub fn try_render(slug: Slug, content_dir: String, compiled: Compiled) -> (made: Result<
        Self,
        Error,
    >)
        ensures
            rendered(slug, content_dir@, compiled, made),
    {
        match compiled {
            Compiled::Document(rendering) => Ok(
                Self { slug, content_dir, rendering, m: PhantomData },
            ),
            Compiled::Rejected(diagnostics) => Err(
                Error::Compilation { page: content_dir, diagnostics },
            ),
            Compiled::Failed(failure) => Err(failure),
        }
    }

    /// The page's slug.
    pub fn slug(&self) -> (slug: &Slug)
        ensures
            *slug == self.spec_slug(),
    {
        &self.slug
    }

    /// The directory that holds the page's source.
    pub fn content_dir(&self) -> (dir: &str)
        ensures
            dir@ == self.dir(),
    {
        self.content_dir.as_str()
    }

    /// The page as a document.
    pub fn rendering(&self) -> (document: &str)
        ensures
            document@ == self.document(),
    {
        self.rendering.as_str()
    }
}

/// Renders the pages of a project.
pub struct Renderer {
    project: Value,
}

impl Renderer {
    /// What every page is told of the project.
    pub closed spec fn project(&self) -> ValueView {
        self.project@
    }

    /// A renderer for the pages of the project that `global_ctx` tells of.
    pub fn new(global_ctx: GlobalContext) -> (made: Self)
        ensures
            made.project() == global_ctx.value(),
    {
        Self { project: global_ctx.into_value() }
    }

    /// The page `slug` of kind `M` in the directory `content_dir`, rendered by
    /// one call of `compile` with what the project tells and with `ctx`.
    pub fn try_render_dir<M: Mode, C: Fn(&RenderJob) -> Compiled>(
        &self,
        slug: Slug,
        content_dir: String,
        ctx: PageContext,
        compile: &C,
    ) -> (made: Result<RenderedPage<M>, Error>)
        requires
            compile_ready(*compile),
        ensures
            render_outcome(*compile, self.project(), slug, content_dir@, ctx.value(), made),
    {
        let mut bindings = Dict::new();
        proof {
            reveal_strlit("project");
            reveal_strlit("page");
            assert("project"@.len() != "page"@.len());
            lemma_named_at(bindings@, "project"@);
        }
        bindings.insert("project".to_owned(), self.project.clone());
        proof {
            lemma_named_at(bindings@, "page"@);
        }
        bindings.insert("page".to_owned(), ctx.into_value());
        assert(bindings@ =~= seq![("project"@, self.project()), ("page"@, ctx.value())]);
        let job = RenderJob {
            content_dir: content_dir.clone(),
            root_file: M::typst_filename(),
            bindings: Value::Dict(bindings),
        };
        let compiled = compile(&job);
        let ghost seen = compiled;
        let made = RenderedPage::try_render(slug, content_dir, compiled);
        assert(is_job::<M>(job, content_dir@, bindings_value(self.project(), ctx.value()))
            && call_ensures(*compile, (&job,), seen) && rendered(slug, content_dir@, seen, made));
        made
    }

    /// The tree with every page rendered. The pages are taken in the order of
    /// a walk, each by one call of `compile`; the first page that cannot be
    /// rendered ends the rendering, and no tree comes out then.
    pub fn try_render<C: Fn(&RenderJob) -> Compiled>(
        &self,
        content: Section<
            PageWithFrontmatter<Index, IndexFrontmatter>,
            PageWithFrontmatter<Leaf, LeafFrontmatter>,
        >,
        compile: C,
    ) -> (made: Result<Section<RenderedPage<Index>, RenderedPage<Leaf>>, Error>)
        requires
            compile_ready(compile),
        ensures
            match made {
                Ok(tree) => {
                    &&& walk_ok(
                        content,
                        tree,
                        Seq::<Slug>::empty(),
                        render_index_step(compile, self.project()),
                        render_leaf_step(compile, self.project()),
                    )
                    &&& same_shape(content, tree)
                    &&& content.wf() ==> tree.wf()
                },
                Err(e) => walk_err(
                    content,
                    e,
                    Seq::<Slug>::empty(),
                    render_index_step(compile, self.project()),
                    render_leaf_step(compile, self.project()),
                ),
            },
    {
        let compiler = &compile;
        let on_index = |path: &[Slug], page: PageWithFrontmatter<Index, IndexFrontmatter>| -> (out:
            Result<RenderedPage<Index>, Error>)
            ensures
                render_outcome(
                    compiler,
                    self.project(),
                    page.spec_slug(),
                    page.dir(),
                    page_context_value(path@, None, Some(page.spec_frontmatter().value())),
                    out,
                ),
            {
                let ctx = PageContext::new(path, None);
                page.try_render(self, ctx, compiler)
            };
        let on_leaf = |
            path: &[Slug],
            slug: &Slug,
            page: PageWithFrontmatter<Leaf, LeafFrontmatter>,
        | -> (out: Result<RenderedPage<Leaf>, Error>)
            ensures
                render_outcome(
                    compiler,
                    self.project(),
                    page.spec_slug(),
                    page.dir(),
                    page_context_value(path@, Some(*slug), Some(page.spec_frontmatter().value())),
                    out,
                ),
            {
                let ctx = PageContext::new(path, Some(slug));
                page.try_render(self, ctx, compiler)
            };
        proof {
            lemma_walk_callable_total(
                content,
                Seq::<Slug>::empty(),
                index_ready(on_index),
                leaf_ready(on_leaf),
            );
        }
        let made = content.try_walk(on_index, on_leaf);
        proof {
            let si = index_step(on_index);
            let sl = leaf_step(on_leaf);
            let ti = render_index_step(compile, self.project());
            let tl = render_leaf_step(compile, self.project());
            let ghost outcome = made;
            match outcome {
                Ok(tree) => {
                    lemma_walk_ok_weaken(content, tree, Seq::<Slug>::empty(), si, sl, ti, tl);
                },
                Err(e) => {
                    lemma_walk_err_weaken(content, e, Seq::<Slug>::empty(), si, sl, ti, tl);
                },
            }
        }
        made
    }
}

impl<M: Mode, F: IntoValue> PageWithFrontmatter<M, F> {
    /// The page rendered by one call of `compile`, with what `renderer` tells
    /// of the project and with `ctx`, to which the page's frontmatter is added.
    pub fn try_render<C: Fn(&RenderJob) -> Compiled>(
        self,
        renderer: &Renderer,
        ctx: PageContext,
        compile: &C,
    ) -> (made: Result<RenderedPage<M>, Error>)
        requires
            compile_ready(*compile),
        ensures
            render_outcome(
                *compile,
                renderer.project(),
                self.spec_slug(),
                self.dir(),
                page_context_value(ctx.path(), ctx.slug(), Some(self.spec_frontmatter().value())),
                made,
            ),
    {
        let mut ctx = ctx;
        let (slug, content_dir, frontmatter) = self.into_parts();
        ctx.with_frontmatter(frontmatter.into_value());
        renderer.try_render_dir(slug, content_dir, ctx, compile)
    }
}

} // verus!
