//! Paths as text, and the one file-system decision that every stage shares.

use vstd::prelude::*;
use crate::error::{Error, ErrorView};

verus! {

/// The path that `std::path::Path::join` makes of `base` and `child`, on the
/// platform that the library is built for.
pub uninterp spec fn joined_path(base: Seq<char>, child: Seq<char>) -> Seq<char>;

/// The path that `std::path::Path::parent` gives for `path`, on the platform
/// that the library is built for.
pub uninterp spec fn parent_path(path: Seq<char>) -> Option<Seq<char>>;

/// The component that `std::path::Path::file_name` gives for `path`, on the
/// platform that the library is built for.
pub uninterp spec fn final_component(path: Seq<char>) -> Option<Seq<char>>;

/// What `std::path::Path::ends_with` answers for `path` and `tail`, on the
/// platform that the library is built for.
pub uninterp spec fn path_has_tail(path: Seq<char>, tail: Seq<char>) -> bool;

/// Calls `std::path::Path::join` on two paths given as text. Nothing is proved of
/// the result: it is taken to be `joined_path` of the two texts, a function of
/// them alone.
#[verifier::external_body]
pub(crate) fn join(base: &str, child: &str) -> (joined: String)
    ensures
        joined@ == joined_path(base@, child@),
{
    std::path::Path::new(base).join(child).to_string_lossy().into_owned()
}

/// Calls `std::path::Path::parent` on a path given as text. Nothing is proved of
/// the result: it is taken to be `parent_path` of the text, a function of it alone.
#[verifier::external_body]
pub(crate) fn parent(path: &str) -> (dir: Option<String>)
    ensures
        match dir {
            Some(dir) => parent_path(path@) == Some(dir@),
            None => parent_path(path@) is None,
        },
{
    std::path::Path::new(path).parent().map(|dir| dir.to_string_lossy().into_owned())
}

/// Calls `std::path::Path::file_name` on a path given as text. Nothing is proved
/// of the result: it is taken to be `final_component` of the text, a function of
/// it alone.
#[verifier::external_body]
pub(crate) fn file_name(path: &str) -> (name: Option<String>)
    ensures
        match name {
            Some(name) => final_component(path@) == Some(name@),
            None => final_component(path@) is None,
        },
{
    std::path::Path::new(path).file_name().map(|name| name.to_string_lossy().into_owned())
}

/// Calls `std::path::Path::ends_with` on two paths given as text. Nothing is
/// proved of the answer: it is taken to be `path_has_tail` of the two texts, a
/// function of them alone.
#[verifier::external_body]
pub(crate) fn ends_with(path: &str, tail: &str) -> (held: bool)
    ensures
        held == path_has_tail(path@, tail@),
{
    std::path::Path::new(path).ends_with(tail)
}

/// How the reading of a file that holds structured data ended.
#[derive(Debug, PartialEq, Eq)]
pub enum Loaded<T> {
    /// The file was read and understood.
    Parsed(T),
    /// There is no such file; the text is what the file system said.
    NotFound(String),
    /// The file could not be read, for the reason given.
    Unreadable(String),
    /// The file was read and is not what it should be, for the reason given.
    Malformed(String),
}

/// How an attempt to create a directory ended.
#[derive(Debug, Clone, PartialEq, Eq)]
pub enum Creation {
    /// The directory was made.
    Created,
    /// A directory was there already.
    AlreadyExists,
    /// The file system refused, for the reason given.
    Failed(String),
}

/// What is made of an attempt to create the directory `path`: that the
/// directory was there already is as good as having made it, any other
/// refusal is an error that names the path.
pub open spec fn creation_result(path: Seq<char>, outcome: Creation) -> Result<(), ErrorView> {
    match outcome {
        Creation::Created => Ok(()),
        Creation::AlreadyExists => Ok(()),
        Creation::Failed(cause) => Err(ErrorView::FileIO { path: Some(path), raw: cause@ }),
    }
}

/// Judges an attempt to create the directory `path`, which has to exist from
/// now on.
pub fn ensure_exists(path: &str, outcome: Creation) -> (checked: Result<(), Error>)
    ensures
        match checked {
            Ok(()) => creation_result(path@, outcome) is Ok,
            Err(e) => creation_result(path@, outcome) == Err::<(), ErrorView>(e@),
        },
{
    match outcome {
        Creation::Created => Ok(()),
        Creation::AlreadyExists => Ok(()),
        Creation::Failed(cause) => Err(Error::FileIO { path: Some(path.to_owned()), raw: cause }),
    }
}

} // verus!
