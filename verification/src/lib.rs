//! loveletters' heavy lifting: the content tree of a project, and the stages
//! that carry it from the directories of a project to the rendered pages.
//!
//! The stages do not touch the file system, the network or the compiler
//! themselves. Whatever has to be done there is done by functions that the
//! caller hands in, and the stages say what they make of each outcome.

pub mod bundleing;
pub mod config;
pub mod content;
pub mod discovery;
pub mod error;
pub mod frontmatter_parsing;
pub mod package;
pub mod page;
pub mod rendering;
pub(crate) mod seal;
pub mod section;
pub mod slug;
pub mod slug_map;
pub mod utils;
pub mod value;

use vstd::prelude::*;
use crate::bundleing::{
    bundle_index_step, bundle_leaf_step, create_ready, made_dir, write_ready, Bundler,
};
use crate::config::{config_dict, config_of, Config, RawConfig};
use crate::content::{IndexFrontmatter, LeafFrontmatter};
use crate::discovery::{
    traversed, walk_gives, DiscoveredPage, Discoverer, WalkEntry, WalkFailure,
};
use crate::error::{EntityKind, Error, ErrorView};
use crate::frontmatter_parsing::{
    load_ready, parse_index_step, parse_leaf_step, PageWithFrontmatter, Parser,
};
use crate::package::text_view;
use crate::page::{Index, Leaf};
use crate::rendering::context::{global_value, GlobalContext};
use crate::rendering::{
    compile_ready, render_index_step, render_leaf_step, Compiled, RenderJob, RenderedPage,
    Renderer,
};
use crate::section::{section_dict, walk_err, walk_ok, walk_passes, Section};
use crate::slug::Slug;
use crate::utils::{creation_result, ensure_exists, join, joined_path, Creation, Loaded};
use crate::value::ValueView;

verus! {

/// The tree of a project as it is found.
pub type Discovered = Section<DiscoveredPage<Index>, DiscoveredPage<Leaf>>;

/// The tree of a project with the frontmatter of its pages.
pub type Parsed = Section<
    PageWithFrontmatter<Index, IndexFrontmatter>,
    PageWithFrontmatter<Leaf, LeafFrontmatter>,
>;

/// The tree of a project with its pages rendered.
pub type Rendered = Section<RenderedPage<Index>, RenderedPage<Leaf>>;

/// What a build has done for it outside of the library.
pub struct Host<R, LC, W, LI, LL, C, Mk, Wr> {
    /// Tells the full path of a directory, if the directory exists.
    pub resolve_dir: R,
    /// Reads a project's configuration file.
    pub load_config: LC,
    /// Walks a directory and tells what lies two levels below it.
    pub walk: W,
    /// Reads the frontmatter file of an index page.
    pub load_index: LI,
    /// Reads the frontmatter file of a leaf page.
    pub load_leaf: LL,
    /// Compiles a page.
    pub compile: C,
    /// Creates a directory.
    pub create_dir: Mk,
    /// Writes a file.
    pub write: Wr,
}

/// Whether `resolve_dir` may be called on every directory.
pub open spec fn resolve_ready<R: Fn(&str) -> Option<String>>(resolve_dir: R) -> bool {
    forall|dir: &str| call_requires(resolve_dir, (dir,))
}

/// Whether `walk` may be called on every directory.
pub open spec fn walk_anywhere<W: Fn(&str) -> Vec<Result<WalkEntry, WalkFailure>>>(
    walk: W,
) -> bool {
    forall|dir: &str| call_requires(walk, (dir,))
}

/// Whether `found` is something that `resolve_dir` can tell of the directory `dir`.
pub open spec fn resolves<R: Fn(&str) -> Option<String>>(
    resolve_dir: R,
    dir: Seq<char>,
    found: Option<Seq<char>>,
) -> bool {
    exists|at: &str, told: Option<String>|
        at@ == dir && call_ensures(resolve_dir, (at,), told) && text_view(told) == found
}

/// Whether `loaded` is something that comes of reading the configuration file
/// `file` with `load_config`.
pub open spec fn config_loads<LC: Fn(&str) -> Loaded<RawConfig>>(
    load_config: LC,
    file: Seq<char>,
    loaded: Loaded<RawConfig>,
) -> bool {
    exists|at: &str| at@ == file && call_ensures(load_config, (at,), loaded)
}

/// Whether `read` is what is made of the reading of the configuration file
/// `file` that ended in `loaded`.
pub open spec fn config_read(
    file: Seq<char>,
    loaded: Loaded<RawConfig>,
    read: Result<Config, Error>,
) -> bool {
    match read {
        Ok(config) => {
            &&& config_of(file, loaded) matches Ok(raw)
            &&& config.wf()
            &&& config.spec_title() == raw.title@
            &&& config.spec_author() == raw.author@
            &&& config.spec_root() == raw.root@
        },
        Err(e) => config_of(file, loaded) matches Err(failure) && failure == e@,
    }
}

/// The configuration file of the project in `in_dir`.
pub open spec fn config_file(in_dir: Seq<char>) -> Seq<char> {
    joined_path(in_dir, "loveletters.toml"@)
}

/// The content directory of the project in `in_dir`.
pub open spec fn content_dir(in_dir: Seq<char>) -> Seq<char> {
    joined_path(in_dir, "content"@)
}

/// What the pages of the project with the pages `tree` and the configuration
/// `config` are told of the project.
pub open spec fn project_value(tree: Parsed, config: Config) -> ValueView {
    global_value(
        section_dict(tree),
        config_dict(config.spec_title(), config.spec_author(), config.spec_root()),
    )
}

/// Whether `made` is something that comes of rendering the pages `tree` with
/// `compile`, which are told `project` of the project.
pub open spec fn render_result<C: Fn(&RenderJob) -> Compiled>(
    compile: C,
    project: ValueView,
    tree: Parsed,
    made: Result<Rendered, Error>,
) -> bool {
    match made {
        Ok(rendered) => walk_ok(
            tree,
            rendered,
            Seq::<Slug>::empty(),
            render_index_step(compile, project),
            render_leaf_step(compile, project),
        ),
        Err(e) => walk_err(
            tree,
            e,
            Seq::<Slug>::empty(),
            render_index_step(compile, project),
            render_leaf_step(compile, project),
        ),
    }
}

/// Whether `made` is something that comes of reading the frontmatter of the
/// pages `tree` with `load_index` and `load_leaf`.
pub open spec fn parse_result<
    LI: Fn(&str) -> Loaded<IndexFrontmatter>,
    LL: Fn(&str) -> Loaded<LeafFrontmatter>,
>(load_index: LI, load_leaf: LL, tree: Discovered, made: Result<Parsed, Error>) -> bool {
    match made {
        Ok(parsed) => walk_ok(
            tree,
            parsed,
            Seq::<Slug>::empty(),
            parse_index_step(load_index),
            parse_leaf_step(load_leaf),
        ),
        Err(e) => walk_err(
            tree,
            e,
            Seq::<Slug>::empty(),
            parse_index_step(load_index),
            parse_leaf_step(load_leaf),
        ),
    }
}

/// Whether the host can be asked for everything that a build may ask of it.
pub open spec fn host_ready<
    R: Fn(&str) -> Option<String>,
    LC: Fn(&str) -> Loaded<RawConfig>,
    W: Fn(&str) -> Vec<Result<WalkEntry, WalkFailure>>,
    LI: Fn(&str) -> Loaded<IndexFrontmatter>,
    LL: Fn(&str) -> Loaded<LeafFrontmatter>,
    C: Fn(&RenderJob) -> Compiled,
    Mk: Fn(&str) -> Creation,
    Wr: Fn(&str, &[u8]) -> Result<(), String>,
>(host: Host<R, LC, W, LI, LL, C, Mk, Wr>) -> bool {
    &&& resolve_ready(host.resolve_dir)
    &&& load_ready(host.load_config)
    &&& walk_anywhere(host.walk)
    &&& load_ready(host.load_index)
    &&& load_ready(host.load_leaf)
    &&& compile_ready(host.compile)
    &&& create_ready(host.create_dir)
    &&& write_ready(host.write)
}

/// Whether `out` is something that a build ends in once the pages `tree` are
/// rendered: all of them were written below `out_dir`, or the first that could
/// not be written gave its failure.
pub open spec fn bundling_ends<
    R: Fn(&str) -> Option<String>,
    LC: Fn(&str) -> Loaded<RawConfig>,
    W: Fn(&str) -> Vec<Result<WalkEntry, WalkFailure>>,
    LI: Fn(&str) -> Loaded<IndexFrontmatter>,
    LL: Fn(&str) -> Loaded<LeafFrontmatter>,
    C: Fn(&RenderJob) -> Compiled,
    Mk: Fn(&str) -> Creation,
    Wr: Fn(&str, &[u8]) -> Result<(), String>,
>(
    host: Host<R, LC, W, LI, LL, C, Mk, Wr>,
    out_dir: Seq<char>,
    tree: Rendered,
    out: Result<(), Error>,
) -> bool {
    match out {
        Ok(()) => walk_passes(
            tree,
            Seq::<Slug>::empty(),
            bundle_index_step(host.create_dir, host.write, out_dir),
            bundle_leaf_step(host.create_dir, host.write, out_dir),
        ),
        Err(e) => walk_err(
            tree,
            e,
            Seq::<Slug>::empty(),
            bundle_index_step(host.create_dir, host.write, out_dir),
            bundle_leaf_step(host.create_dir, host.write, out_dir),
        ),
    }
}

/// Whether `out` is something that a build ends in once the frontmatter of the
/// pages `tree` is known: the first page that cannot be rendered ends the
/// build with its failure, before anything is written; else the build goes on
/// to write the rendered pages.
pub open spec fn rendering_ends<
    R: Fn(&str) -> Option<String>,
    LC: Fn(&str) -> Loaded<RawConfig>,
    W: Fn(&str) -> Vec<Result<WalkEntry, WalkFailure>>,
    LI: Fn(&str) -> Loaded<IndexFrontmatter>,
    LL: Fn(&str) -> Loaded<LeafFrontmatter>,
    C: Fn(&RenderJob) -> Compiled,
    Mk: Fn(&str) -> Creation,
    Wr: Fn(&str, &[u8]) -> Result<(), String>,
>(
    host: Host<R, LC, W, LI, LL, C, Mk, Wr>,
    out_dir: Seq<char>,
    project: ValueView,
    tree: Parsed,
    out: Result<(), Error>,
) -> bool {
    exists|made: Result<Rendered, Error>|
        {
            &&& #[trigger] render_result(host.compile, project, tree, made)
            &&& match made {
                Ok(rendered) => bundling_ends(host, out_dir, rendered, out),
                Err(e) => out == Err::<(), Error>(e),
            }
        }
}

/// Whether `out` is something that a build ends in once the pages `tree` are
/// found: the first page whose frontmatter cannot be had ends the build with
/// its failure; else the build goes on to render the pages, which are told of
/// the project what its pages and `config` say.
pub open spec fn parsing_ends<
    R: Fn(&str) -> Option<String>,
    LC: Fn(&str) -> Loaded<RawConfig>,
    W: Fn(&str) -> Vec<Result<WalkEntry, WalkFailure>>,
    LI: Fn(&str) -> Loaded<IndexFrontmatter>,
    LL: Fn(&str) -> Loaded<LeafFrontmatter>,
    C: Fn(&RenderJob) -> Compiled,
    Mk: Fn(&str) -> Creation,
    Wr: Fn(&str, &[u8]) -> Result<(), String>,
>(
    host: Host<R, LC, W, LI, LL, C, Mk, Wr>,
    out_dir: Seq<char>,
    config: Config,
    tree: Discovered,
    out: Result<(), Error>,
) -> bool {
    exists|made: Result<Parsed, Error>|
        {
            &&& #[trigger] parse_result(host.load_index, host.load_leaf, tree, made)
            &&& match made {
                Ok(parsed) => rendering_ends(
                    host,
                    out_dir,
                    project_value(parsed, config),
                    parsed,
                    out,
                ),
                Err(e) => out == Err::<(), Error>(e),
            }
        }
}

/// Whether `out` is something that a build ends in once the configuration of
/// the project in `in_dir` is read: a project without a content directory ends
/// the build, so does a failure of the traversal; else the build goes on with
/// the pages that were found.
pub open spec fn traversal_ends<
    R: Fn(&str) -> Option<String>,
    LC: Fn(&str) -> Loaded<RawConfig>,
    W: Fn(&str) -> Vec<Result<WalkEntry, WalkFailure>>,
    LI: Fn(&str) -> Loaded<IndexFrontmatter>,
    LL: Fn(&str) -> Loaded<LeafFrontmatter>,
    C: Fn(&RenderJob) -> Compiled,
    Mk: Fn(&str) -> Creation,
    Wr: Fn(&str, &[u8]) -> Result<(), String>,
>(
    host: Host<R, LC, W, LI, LL, C, Mk, Wr>,
    in_dir: Seq<char>,
    out_dir: Seq<char>,
    config: Config,
    out: Result<(), Error>,
) -> bool {
    exists|found: Option<Seq<char>>|
        {
            &&& #[trigger] resolves(host.resolve_dir, content_dir(in_dir), found)
            &&& match found {
                None => out matches Err(e) && e@ == (ErrorView::NotFound {
                    missing: EntityKind::ContentDirectory,
                    path: content_dir(in_dir),
                }),
                Some(_) => exists|made: Result<Discovered, Error>|
                    {
                        &&& #[trigger] traversed(host.walk, content_dir(in_dir), made)
                        &&& match made {
                            Ok(tree) => parsing_ends(host, out_dir, config, tree, out),
                            Err(e) => out == Err::<(), Error>(e),
                        }
                    },
            }
        }
}

/// Whether `out` is something that a build of the project in `in_dir` ends in
/// once its output directory `out_dir` is there: a configuration that cannot be
/// had ends the build; else the build goes on to the project's content.
pub open spec fn config_ends<
    R: Fn(&str) -> Option<String>,
    LC: Fn(&str) -> Loaded<RawConfig>,
    W: Fn(&str) -> Vec<Result<WalkEntry, WalkFailure>>,
    LI: Fn(&str) -> Loaded<IndexFrontmatter>,
    LL: Fn(&str) -> Loaded<LeafFrontmatter>,
    C: Fn(&RenderJob) -> Compiled,
    Mk: Fn(&str) -> Creation,
    Wr: Fn(&str, &[u8]) -> Result<(), String>,
>(
    host: Host<R, LC, W, LI, LL, C, Mk, Wr>,
    in_dir: Seq<char>,
    out_dir: Seq<char>,
    out: Result<(), Error>,
) -> bool {
    exists|loaded: Loaded<RawConfig>, read: Result<Config, Error>|
        {
            &&& #[trigger] config_loads(host.load_config, config_file(in_dir), loaded)
            &&& #[trigger] config_read(config_file(in_dir), loaded, read)
            &&& match read {
                Ok(config) => traversal_ends(host, in_dir, out_dir, config, out),
                Err(e) => out == Err::<(), Error>(e),
            }
        }
}

/// Whether `out` is something that a build of the project in `in_dir` ends in
/// when its pages go to `output_dir`: an output directory that cannot be made
/// sure of, or that cannot be found once it is, ends the build; else the build
/// goes on to the project's configuration.
pub open spec fn output_ends<
    R: Fn(&str) -> Option<String>,
    LC: Fn(&str) -> Loaded<RawConfig>,
    W: Fn(&str) -> Vec<Result<WalkEntry, WalkFailure>>,
    LI: Fn(&str) -> Loaded<IndexFrontmatter>,
    LL: Fn(&str) -> Loaded<LeafFrontmatter>,
    C: Fn(&RenderJob) -> Compiled,
    Mk: Fn(&str) -> Creation,
    Wr: Fn(&str, &[u8]) -> Result<(), String>,
>(
    host: Host<R, LC, W, LI, LL, C, Mk, Wr>,
    in_dir: Seq<char>,
    output_dir: Seq<char>,
    out: Result<(), Error>,
) -> bool {
    ||| out matches Err(e) && made_dir(host.create_dir, output_dir, Err(e@))
    ||| {
        &&& made_dir(host.create_dir, output_dir, Ok(()))
        &&& exists|found: Option<Seq<char>>|
            {
                &&& #[trigger] resolves(host.resolve_dir, output_dir, found)
                &&& match found {
                    None => out matches Err(e) && e@ == (ErrorView::NotFound {
                        missing: EntityKind::OutputDirectory,
                        path: output_dir,
                    }),
                    Some(out_dir) => config_ends(host, in_dir, out_dir, out),
                }
            }
    }
}

/// Whether `out` is something that the build of the project in `input_dir`
/// into `output_dir` ends in: a project directory that cannot be found ends the
/// build; else the build goes on to the output directory.
pub open spec fn build_ends<
    R: Fn(&str) -> Option<String>,
    LC: Fn(&str) -> Loaded<RawConfig>,
    W: Fn(&str) -> Vec<Result<WalkEntry, WalkFailure>>,
    LI: Fn(&str) -> Loaded<IndexFrontmatter>,
    LL: Fn(&str) -> Loaded<LeafFrontmatter>,
    C: Fn(&RenderJob) -> Compiled,
    Mk: Fn(&str) -> Creation,
    Wr: Fn(&str, &[u8]) -> Result<(), String>,
>(
    host: Host<R, LC, W, LI, LL, C, Mk, Wr>,
    input_dir: Seq<char>,
    output_dir: Seq<char>,
    out: Result<(), Error>,
) -> bool {
    exists|found: Option<Seq<char>>|
        {
            &&& #[trigger] resolves(host.resolve_dir, input_dir, found)
            &&& match found {
                None => out matches Err(e) && e@ == (ErrorView::NotFound {
                    missing: EntityKind::InputDirectory,
                    path: input_dir,
                }),
                Some(in_dir) => output_ends(host, in_dir, output_dir, out),
            }
        }
}

/// Renders and writes the pages `tree`, whose frontmatter is known.
fn render_and_bundle<
    R: Fn(&str) -> Option<String>,
    LC: Fn(&str) -> Loaded<RawConfig>,
    W: Fn(&str) -> Vec<Result<WalkEntry, WalkFailure>>,
    LI: Fn(&str) -> Loaded<IndexFrontmatter>,
    LL: Fn(&str) -> Loaded<LeafFrontmatter>,
    C: Fn(&RenderJob) -> Compiled,
    Mk: Fn(&str) -> Creation,
    Wr: Fn(&str, &[u8]) -> Result<(), String>,
>(
    host: &Host<R, LC, W, LI, LL, C, Mk, Wr>,
    in_dir: String,
    out_dir: String,
    config: Config,
    tree: Parsed,
) -> (out: Result<(), Error>)
    requires
        host_ready(*host),
        config.wf(),
    ensures
        rendering_ends(*host, out_dir@, project_value(tree, config), tree, out),
{
    let bundler = Bundler::new(in_dir, out_dir);
    let global_ctx = GlobalContext::new(&tree, config);
    let renderer = Renderer::new(global_ctx);
    let made = renderer.try_render(tree, &host.compile);
    let ghost seen = made;
    proof {
        let project = project_value(tree, config);
        assert(render_index_step(&host.compile, project) == render_index_step(
            host.compile,
            project,
        ));
        assert(render_leaf_step(&host.compile, project) == render_leaf_step(
            host.compile,
            project,
        ));
    }
    let out = match made {
        Ok(rendering) => bundler.try_bundle(rendering, &host.create_dir, &host.write),
        Err(e) => Err(e),
    };
    proof {
        assert(bundle_index_step(&host.create_dir, &host.write, out_dir@) == bundle_index_step(
            host.create_dir,
            host.write,
            out_dir@,
        ));
        assert(bundle_leaf_step(&host.create_dir, &host.write, out_dir@) == bundle_leaf_step(
            host.create_dir,
            host.write,
            out_dir@,
        ));
        assert(render_result(host.compile, project_value(tree, config), tree, seen));
    }
    out
}

/// Finds the pages of the project in `in_dir`, reads their frontmatter, and
/// renders and writes them.
fn build_content<
    R: Fn(&str) -> Option<String>,
    LC: Fn(&str) -> Loaded<RawConfig>,
    W: Fn(&str) -> Vec<Result<WalkEntry, WalkFailure>>,
    LI: Fn(&str) -> Loaded<IndexFrontmatter>,
    LL: Fn(&str) -> Loaded<LeafFrontmatter>,
    C: Fn(&RenderJob) -> Compiled,
    Mk: Fn(&str) -> Creation,
    Wr: Fn(&str, &[u8]) -> Result<(), String>,
>(
    host: &Host<R, LC, W, LI, LL, C, Mk, Wr>,
    in_dir: String,
    out_dir: String,
    config: Config,
) -> (out: Result<(), Error>)
    requires
        host_ready(*host),
        config.wf(),
    ensures
        traversal_ends(*host, in_dir@, out_dir@, config, out),
{
    let content_dir = join(in_dir.as_str(), "content");
    let at: &str = content_dir.as_str();
    let told = (host.resolve_dir)(at);
    proof {
        assert(resolves(host.resolve_dir, content_dir@, text_view(told)));
    }
    if told.is_none() {
        return Err(Error::NotFound { missing: EntityKind::ContentDirectory, path: content_dir });
    }
    let discovered_content = Discoverer::try_traverse(content_dir, &host.walk);
    let ghost found = discovered_content;
    proof {
        assert forall|dir: Seq<char>, items: Seq<Result<WalkEntry, WalkFailure>>|
            walk_gives(&host.walk, dir, items) == walk_gives(host.walk, dir, items) by {}
        assert(traversed(host.walk, crate::content_dir(in_dir@), found));
    }
    let discovered_content = match discovered_content {
        Ok(tree) => tree,
        Err(e) => {
            return Err(e);
        },
    };
    let parser = Parser::new();
    let frontmatter = parser.try_parse(discovered_content, &host.load_index, &host.load_leaf);
    let ghost parsed = frontmatter;
    let out = match frontmatter {
        Ok(tree) => render_and_bundle(host, in_dir, out_dir, config, tree),
        Err(e) => Err(e),
    };
    proof {
        assert(parse_index_step::<Index, IndexFrontmatter, &LI>(&host.load_index)
            == parse_index_step::<Index, IndexFrontmatter, LI>(host.load_index));
        assert(parse_leaf_step::<Leaf, LeafFrontmatter, &LL>(&host.load_leaf) == parse_leaf_step::<
            Leaf,
            LeafFrontmatter,
            LL,
        >(host.load_leaf));
        assert(parse_result(host.load_index, host.load_leaf, discovered_content, parsed));
        assert(parsing_ends(*host, out_dir@, config, discovered_content, out));
    }
    out
}

/// Builds the project in `input_dir` into `output_dir`.
///
/// The build finds the project, makes sure of the output directory, reads the
/// configuration, finds the pages, reads their frontmatter, renders them and
/// writes them, in this order; each step is done in full before the next one
/// begins, and the first failure ends the build. So nothing is written unless
/// every page was rendered. What has to be done outside of the library, `host`
/// does.
pub fn render_dir<
    R: Fn(&str) -> Option<String>,
    LC: Fn(&str) -> Loaded<RawConfig>,
    W: Fn(&str) -> Vec<Result<WalkEntry, WalkFailure>>,
    LI: Fn(&str) -> Loaded<IndexFrontmatter>,
    LL: Fn(&str) -> Loaded<LeafFrontmatter>,
    C: Fn(&RenderJob) -> Compiled,
    Mk: Fn(&str) -> Creation,
    Wr: Fn(&str, &[u8]) -> Result<(), String>,
>(input_dir: String, output_dir: String, host: Host<R, LC, W, LI, LL, C, Mk, Wr>) -> (out: Result<
    (),
    Error,
>)
    requires
        host_ready(host),
    ensures
        build_ends(host, input_dir@, output_dir@, out),
{
    let at: &str = input_dir.as_str();
    let told = (host.resolve_dir)(at);
    proof {
        assert(resolves(host.resolve_dir, input_dir@, text_view(told)));
    }
    let in_dir = match told {
        Some(in_dir) => in_dir,
        None => {
            return Err(Error::NotFound { missing: EntityKind::InputDirectory, path: input_dir });
        },
    };

    let at: &str = output_dir.as_str();
    let how = (host.create_dir)(at);
    let ghost made = how;
    match ensure_exists(at, how) {
        Ok(()) => {
            proof {
                assert(call_ensures(host.create_dir, (at,), made) && creation_result(
                    output_dir@,
                    made,
                ) == Ok::<(), ErrorView>(()));
            }
        },
        Err(e) => {
            proof {
                assert(call_ensures(host.create_dir, (at,), made) && creation_result(
                    output_dir@,
                    made,
                ) == Err::<(), ErrorView>(e@));
            }
            return Err(e);
        },
    }
    let told = (host.resolve_dir)(at);
    proof {
        assert(resolves(host.resolve_dir, output_dir@, text_view(told)));
    }
    let out_dir = match told {
        Some(out_dir) => out_dir,
        None => {
            return Err(Error::NotFound { missing: EntityKind::OutputDirectory, path: output_dir });
        },
    };

    let config_file = join(in_dir.as_str(), "loveletters.toml");
    let at: &str = config_file.as_str();
    let loaded = (host.load_config)(at);
    let ghost seen = loaded;
    let read = Config::try_read_from_disk(at, loaded);
    let ghost judged = read;
    proof {
        assert(config_loads(host.load_config, crate::config_file(in_dir@), seen));
        assert(config_read(crate::config_file(in_dir@), seen, judged));
    }
    let out = match read {
        Ok(config) => build_content(&host, in_dir, out_dir, config),
        Err(e) => Err(e),
    };
    proof {
        assert(config_ends(host, in_dir@, out_dir@, out));
    }
    out
}

} // verus!
