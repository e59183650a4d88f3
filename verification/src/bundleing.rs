//! Writing the rendered pages to where the tree says they belong.

use vstd::prelude::*;
use vstd::utf8::encode_utf8;
use crate::error::{Error, ErrorView};
use crate::page::{Index, Leaf};
use crate::rendering::RenderedPage;
use crate::section::{
    index_ready, index_step, leaf_ready, leaf_step, lemma_walk_callable_total,
    lemma_walk_err_weaken, lemma_walk_ok_weaken, walk_err, walk_passes, Section,
};
use crate::slug::Slug;
use crate::utils::{creation_result, ensure_exists, join, joined_path, Creation};

verus! {

/// Makes `bytes::Bytes`, a buffer of bytes, known to the verifier. Nothing is
/// known of what a buffer holds but what is said of `bytes_held`.
#[verifier::external_type_specification]
#[verifier::external_body]
pub struct ExBytes(bytes::Bytes);

/// The bytes that a buffer holds, in order.
pub uninterp spec fn bytes_held(buffer: bytes::Bytes) -> Seq<u8>;

/// Makes a `bytes::Bytes` of a text by its `From<String>`, which takes over the
/// text's bytes as they are. Nothing is proved of the buffer: it is taken to
/// hold the text in UTF-8.
#[verifier::external_body]
fn bytes_of_text(text: String) -> (buffer: bytes::Bytes)
    ensures
        bytes_held(buffer) == encode_utf8(text@),
{
    bytes::Bytes::from(text)
}

/// Borrows what a `bytes::Bytes` holds by its `AsRef<[u8]>`. Nothing is proved
/// of the slice: it is taken to be the buffer's bytes.
#[verifier::external_body]
fn bytes_as_slice(buffer: &bytes::Bytes) -> (slice: &[u8])
    ensures
        slice@ == bytes_held(*buffer),
{
    buffer.as_ref()
}

/// A file that is held in memory until it is written.
pub struct InMemFile {
    content: bytes::Bytes,
}

/// A page that is ready to be written: the directory that it goes to, and the
/// document that goes there.
pub struct PageBundle {
    bundle_dir: String,
    index: InMemFile,
}

/// Writes the rendered pages of a project below its output directory.
pub struct Bundler {
    root_dir: String,
    output_dir: String,
}

/// Whether `create_dir` may be called on every directory.
pub open spec fn create_ready<C: Fn(&str) -> Creation>(create_dir: C) -> bool {
    forall|dir: &str| call_requires(create_dir, (dir,))
}

/// Whether `write` may be called on every file and content.
pub open spec fn write_ready<W: Fn(&str, &[u8]) -> Result<(), String>>(write: W) -> bool {
    forall|file: &str, content: &[u8]| call_requires(write, (file, content))
}

/// Whether an attempt of `create_dir` to make sure of the directory `dir` can
/// end in what is judged as `out`.
pub open spec fn made_dir<C: Fn(&str) -> Creation>(
    create_dir: C,
    dir: Seq<char>,
    out: Result<(), ErrorView>,
) -> bool {
    exists|at: &str, how: Creation|
        at@ == dir && call_ensures(create_dir, (at,), how) && creation_result(dir, how) == out
}

/// What is made of an attempt to write the file `file`: a refusal is a failure
/// of the file system that names the file.
pub open spec fn write_result(file: Seq<char>, how: Result<(), String>) -> Result<(), ErrorView> {
    match how {
        Ok(()) => Ok(()),
        Err(cause) => Err(ErrorView::FileIO { path: Some(file), raw: cause@ }),
    }
}

/// Whether an attempt of `write` to write `content` to the file `file` can end
/// in what is judged as `out`.
pub open spec fn wrote<W: Fn(&str, &[u8]) -> Result<(), String>>(
    write: W,
    file: Seq<char>,
    content: Seq<u8>,
    out: Result<(), ErrorView>,
) -> bool {
    exists|at: &str, bytes: &[u8], how: Result<(), String>|
        {
            &&& at@ == file
            &&& bytes@ == content
            &&& call_ensures(write, (at, bytes), how)
            &&& write_result(file, how) == out
        }
}

/// The file of a page's document in the directory `dir`.
pub open spec fn document_file(dir: Seq<char>) -> Seq<char> {
    joined_path(dir, "index.html"@)
}

/// Whether `out` is something that comes of storing `content` as the document
/// of the directory `dir`: with success, the directory was made sure of and the
/// document written; a failure is that of making sure of the directory, or that
/// of writing once the directory was there.
pub open spec fn stored<C: Fn(&str) -> Creation, W: Fn(&str, &[u8]) -> Result<(), String>>(
    create_dir: C,
    write: W,
    dir: Seq<char>,
    content: Seq<u8>,
    out: Result<(), Error>,
) -> bool {
    match out {
        Ok(()) => {
            &&& made_dir(create_dir, dir, Ok(()))
            &&& wrote(write, document_file(dir), content, Ok(()))
        },
        Err(e) => {
            ||| made_dir(create_dir, dir, Err(e@))
            ||| {
                &&& made_dir(create_dir, dir, Ok(()))
                &&& wrote(write, document_file(dir), content, Err(e@))
            }
        },
    }
}

/// The directory reached from `base` by going down along the first `n` slugs
/// of `path`.
pub open spec fn joined_along(base: Seq<char>, path: Seq<Slug>, n: nat) -> Seq<char>
    decreases n,
{
    if n == 0 || n > path.len() {
        base
    } else {
        joined_path(joined_along(base, path, (n - 1) as nat), path[n - 1]@)
    }
}

/// The directory below `output_dir` that the index page of the section at
/// `path` goes to: the section's own.
pub open spec fn section_dir(output_dir: Seq<char>, path: Seq<Slug>) -> Seq<char> {
    joined_along(output_dir, path, path.len())
}

/// The directory below `output_dir` that the leaf page `slug` of the section
/// at `path` goes to: one of its own in the section's.
pub open spec fn leaf_dir(output_dir: Seq<char>, path: Seq<Slug>, slug: Slug) -> Seq<char> {
    joined_path(section_dir(output_dir, path), slug@)
}

/// The bundling of index pages below `output_dir`, as a relation for a walk.
pub open spec fn bundle_index_step<
    C: Fn(&str) -> Creation,
    W: Fn(&str, &[u8]) -> Result<(), String>,
>(create_dir: C, write: W, output_dir: Seq<char>) -> spec_fn(
    Seq<Slug>,
    RenderedPage<Index>,
    Result<(), Error>,
) -> bool {
    |path: Seq<Slug>, page: RenderedPage<Index>, out: Result<(), Error>|
        stored(
            create_dir,
            write,
            section_dir(output_dir, path),
            encode_utf8(page.document()),
            out,
        )
}

/// The bundling of leaf pages below `output_dir`, as a relation for a walk.
pub open spec fn bundle_leaf_step<
    C: Fn(&str) -> Creation,
    W: Fn(&str, &[u8]) -> Result<(), String>,
>(create_dir: C, write: W, output_dir: Seq<char>) -> spec_fn(
    Seq<Slug>,
    Slug,
    RenderedPage<Leaf>,
    Result<(), Error>,
) -> bool {
    |path: Seq<Slug>, slug: Slug, page: RenderedPage<Leaf>, out: Result<(), Error>|
        stored(
            create_dir,
            write,
            leaf_dir(output_dir, path, slug),
            encode_utf8(page.document()),
            out,
        )
}

/// Makes sure of the directory `dir` by one call of `create_dir`.
fn make_dir<C: Fn(&str) -> Creation>(dir: &str, create_dir: &C) -> (made: Result<(), Error>)
    requires
        create_ready(*create_dir),
    ensures
        match made {
            Ok(()) => made_dir(*create_dir, dir@, Ok(())),
            Err(e) => made_dir(*create_dir, dir@, Err(e@)),
        },
{
    let how = create_dir(dir);
    let ghost seen = how;
    let made = ensure_exists(dir, how);
    proof {
        assert(call_ensures(*create_dir, (dir,), seen));
        if made is Ok {
            assert(creation_result(dir@, seen) == Ok::<(), ErrorView>(()));
        }
    }
    made
}

/// The directory reached from `base` by going down along `path`.
fn dir_along(base: &str, path: &[Slug]) -> (dir: String)
    ensures
        dir@ == section_dir(base@, path@),
{
    let mut dir = base.to_owned();
    let mut k: usize = 0;
    while k < path.len()
        invariant
            k <= path.len(),
            dir@ == joined_along(base@, path@, k as nat),
        decreases path.len() - k,
    {
        dir = join(dir.as_str(), path[k].as_str());
        k += 1;
    }
    dir
}

impl InMemFile {
    /// The bytes of the file.
    pub closed spec fn bytes(self) -> Seq<u8> {
        bytes_held(self.content)
    }

    /// A file of the given content.
    pub fn new(content: bytes::Bytes) -> (file: Self)
        ensures
            file.bytes() == bytes_held(content),
    {
        Self { content }
    }

    /// Writes the file to `out_file` by one call of `write`.
    pub fn write_to<W: Fn(&str, &[u8]) -> Result<(), String>>(
        self,
        out_file: &str,
        write: &W,
    ) -> (written: Result<(), Error>)
        requires
            write_ready(*write),
        ensures
            match written {
                Ok(()) => wrote(*write, out_file@, self.bytes(), Ok(())),
                Err(e) => wrote(*write, out_file@, self.bytes(), Err(e@)),
            },
    {
        let bytes = bytes_as_slice(&self.content);
        let how = write(out_file, bytes);
        proof {
            assert(call_ensures(*write, (out_file, bytes), how));
        }
        match how {
            Ok(()) => {
                assert(write_result(out_file@, how) == Ok::<(), ErrorView>(()));
                Ok(())
            },
            Err(cause) => {
                let e = Error::FileIO { path: Some(out_file.to_owned()), raw: cause };
                assert(write_result(out_file@, how) == Err::<(), ErrorView>(e@));
                Err(e)
            },
        }
    }
}

impl PageBundle {
    /// The directory that the page goes to.
    pub closed spec fn dir(self) -> Seq<char> {
        self.bundle_dir@
    }

    /// The bytes of the page's document.
    pub closed spec fn bytes(self) -> Seq<u8> {
        self.index.bytes()
    }

    /// The bundle of the document `index`, which goes to `output_dir`.
    pub fn new(output_dir: String, index: InMemFile) -> (bundle: Self)
        ensures
            bundle.dir() == output_dir@,
            bundle.bytes() == index.bytes(),
    {
        Self { bundle_dir: output_dir, index }
    }

    /// Writes the page: makes sure of its directory by one call of
    /// `create_dir`, then writes its document there by one call of `write`.
    pub fn write_to_disk<C: Fn(&str) -> Creation, W: Fn(&str, &[u8]) -> Result<(), String>>(
        self,
        create_dir: &C,
        write: &W,
    ) -> (written: Result<(), Error>)
        requires
            create_ready(*create_dir),
            write_ready(*write),
        ensures
            stored(*create_dir, *write, self.dir(), self.bytes(), written),
    {
        if let Err(e) = make_dir(self.bundle_dir.as_str(), create_dir) {
            return Err(e);
        }
        let file = join(self.bundle_dir.as_str(), "index.html");
        self.index.write_to(file.as_str(), write)
    }
}

impl<M> RenderedPage<M> {
    /// The page as a bundle that goes to `output_dir`, which is made sure of
    /// by one call of `create_dir`.
    pub fn try_bundle<C: Fn(&str) -> Creation>(self, output_dir: String, create_dir: &C) -> (bundle:
        Result<PageBundle, Error>)
        requires
            create_ready(*create_dir),
        ensures
            match bundle {
                Ok(bundle) => {
                    &&& made_dir(*create_dir, output_dir@, Ok(()))
                    &&& bundle.dir() == output_dir@
                    &&& bundle.bytes() == encode_utf8(self.document())
                },
                Err(e) => made_dir(*create_dir, output_dir@, Err(e@)),
            },
    {
        if let Err(e) = make_dir(output_dir.as_str(), create_dir) {
            return Err(e);
        }
        let document = self.rendering().to_owned();
        Ok(PageBundle::new(output_dir, InMemFile::new(bytes_of_text(document))))
    }
}

/// Stores the rendered page `page` in the directory `dir`.
fn store<M, C: Fn(&str) -> Creation, W: Fn(&str, &[u8]) -> Result<(), String>>(
    page: RenderedPage<M>,
    dir: String,
    create_dir: &C,
    write: &W,
) -> (done: Result<(), Error>)
    requires
        create_ready(*create_dir),
        write_ready(*write),
    ensures
        stored(*create_dir, *write, dir@, encode_utf8(page.document()), done),
{
    if let Err(e) = make_dir(dir.as_str(), create_dir) {
        return Err(e);
    }
    let bundle = match page.try_bundle(dir, create_dir) {
        Ok(bundle) => bundle,
        Err(e) => {
            return Err(e);
        },
    };
    bundle.write_to_disk(create_dir, write)
}

impl Bundler {
    /// The directory that the rendered pages go below.
    pub closed spec fn output(&self) -> Seq<char> {
        self.output_dir@
    }

    /// A bundler for the project in `root_dir`, whose rendered pages go below
    /// `output_dir`.
    pub fn new(root_dir: String, output_dir: String) -> (bundler: Self)
        ensures
            bundler.output() == output_dir@,
    {
        Self { root_dir, output_dir }
    }

    /// Writes every page of `content` to the directory that mirrors its place
    /// in the tree: the index page of a section to the section's directory, a
    /// leaf page to a directory of its own in it, named by its slug. The pages
    /// are taken in the order of a walk; the first page that cannot be written
    /// ends the bundling.
    pub fn try_bundle<C: Fn(&str) -> Creation, W: Fn(&str, &[u8]) -> Result<(), String>>(
        &self,
        content: Section<RenderedPage<Index>, RenderedPage<Leaf>>,
        create_dir: C,
        write: W,
    ) -> (bundled: Result<(), Error>)
        requires
            create_ready(create_dir),
            write_ready(write),
        ensures
            match bundled {
                Ok(()) => walk_passes(
                    content,
                    Seq::<Slug>::empty(),
                    bundle_index_step(create_dir, write, self.output()),
                    bundle_leaf_step(create_dir, write, self.output()),
                ),
                Err(e) => walk_err(
                    content,
                    e,
                    Seq::<Slug>::empty(),
                    bundle_index_step(create_dir, write, self.output()),
                    bundle_leaf_step(create_dir, write, self.output()),
                ),
            },
    {
        let creator = &create_dir;
        let writer = &write;
        let on_index = |section: &[Slug], rendering: RenderedPage<Index>| -> (out: Result<
            (),
            Error,
        >)
            ensures
                stored(
                    creator,
                    writer,
                    section_dir(self.output(), section@),
                    encode_utf8(rendering.document()),
                    out,
                ),
            {
                let output_dir = dir_along(self.output_dir.as_str(), section);
                store(rendering, output_dir, creator, writer)
            };
        let on_leaf = |
            section: &[Slug],
            page: &Slug,
            rendering: RenderedPage<Leaf>,
        | -> (out: Result<(), Error>)
            ensures
                stored(
                    creator,
                    writer,
                    leaf_dir(self.output(), section@, *page),
                    encode_utf8(rendering.document()),
                    out,
                ),
            {
                let output_dir = join(
                    dir_along(self.output_dir.as_str(), section).as_str(),
                    page.as_str(),
                );
                store(rendering, output_dir, creator, writer)
            };
        proof {
            lemma_walk_callable_total(
                content,
                Seq::<Slug>::empty(),
                index_ready(on_index),
                leaf_ready(on_leaf),
            );
        }
        let bundled = content.try_walk(on_index, on_leaf);
        proof {
            let si = index_step(on_index);
            let sl = leaf_step(on_leaf);
            let ti = bundle_index_step(create_dir, write, self.output());
            let tl = bundle_leaf_step(create_dir, write, self.output());
            let ghost outcome = bundled;
            match outcome {
                Ok(tree) => {
                    lemma_walk_ok_weaken(content, tree, Seq::<Slug>::empty(), si, sl, ti, tl);
                },
                Err(e) => {
                    lemma_walk_err_weaken(content, e, Seq::<Slug>::empty(), si, sl, ti, tl);
                },
            }
        }
        match bundled {
            Ok(_) => Ok(()),
            Err(e) => Err(e),
        }
    }
}

} // verus!
