//! What can go wrong while a project is built.

use vstd::prelude::*;

verus! {

/// The kind of thing that was looked for and not found.
#[derive(Debug, Clone, Copy, PartialEq, Eq, Structural)]
pub enum EntityKind {
    /// The directory that holds a project.
    InputDirectory,
    /// The directory that holds a project's content.
    ContentDirectory,
    /// The directory that the rendered pages go to.
    OutputDirectory,
    /// The project's configuration file.
    ProjectConfig,
    /// The file that the compiler starts from when it renders a page.
    TypstRoot,
    /// A package, under any version.
    Package,
    /// One version of a package that exists under other versions.
    PackageVersion,
}

/// How serious a compiler diagnostic is.
#[derive(Debug, Clone, Copy, PartialEq, Eq, Structural)]
pub enum Severity {
    /// The page cannot be rendered.
    Error,
    /// The page can be rendered, and something about it is doubtful.
    Warning,
}

/// One message of the compiler about a page.
#[derive(Debug, Clone, PartialEq, Eq)]
pub struct Diagnostic {
    /// How serious the message is.
    pub severity: Severity,
    /// What the compiler found.
    pub message: String,
    /// What the compiler suggests.
    pub hints: Vec<String>,
}

/// A failure of the build, with what is needed to act on it.
#[derive(Debug, Clone, PartialEq, Eq)]
#[non_exhaustive]
pub enum Error {
    /// Something that the build needs does not exist.
    NotFound { missing: EntityKind, path: String },
    /// No slug can be had from the last component of `path`.
    InvalidSlug { path: String },
    /// The file system refused an operation.
    FileIO { path: Option<String>, raw: String },
    /// The project's configuration file cannot be understood.
    MalformedProjectConfig { location: String, raw: String },
    /// A page's frontmatter file cannot be understood.
    MalformedFrontmatter { location: String, raw: String },
    /// The content directory is laid out in a way that cannot be walked.
    MalformedProjectStructure { path: String },
    /// The compiler rejected the page in directory `page`.
    Compilation { page: String, diagnostics: Vec<Diagnostic> },
    /// A package could neither be found in the cache nor fetched.
    PackageFetch { package: String, cause: String },
    /// An unspecified error
    Other,
}

/// A diagnostic as plain values.
pub struct DiagnosticView {
    pub severity: Severity,
    pub message: Seq<char>,
    pub hints: Seq<Seq<char>>,
}

impl View for Diagnostic {
    type V = DiagnosticView;

    open spec fn view(&self) -> DiagnosticView {
        DiagnosticView {
            severity: self.severity,
            message: self.message@,
            hints: self.hints@.map_values(|hint: String| hint@),
        }
    }
}

/// An error as plain values.
pub enum ErrorView {
    NotFound { missing: EntityKind, path: Seq<char> },
    InvalidSlug { path: Seq<char> },
    FileIO { path: Option<Seq<char>>, raw: Seq<char> },
    MalformedProjectConfig { location: Seq<char>, raw: Seq<char> },
    MalformedFrontmatter { location: Seq<char>, raw: Seq<char> },
    MalformedProjectStructure { path: Seq<char> },
    Compilation { page: Seq<char>, diagnostics: Seq<DiagnosticView> },
    PackageFetch { package: Seq<char>, cause: Seq<char> },
    Other,
}

impl View for Error {
    type V = ErrorView;

    open spec fn view(&self) -> ErrorView {
        match *self {
            Error::NotFound { missing, path } => ErrorView::NotFound { missing, path: path@ },
            Error::InvalidSlug { path } => ErrorView::InvalidSlug { path: path@ },
            Error::FileIO { path, raw } => ErrorView::FileIO {
                path: match path {
                    Some(path) => Some(path@),
                    None => None,
                },
                raw: raw@,
            },
            Error::MalformedProjectConfig { location, raw } => ErrorView::MalformedProjectConfig {
                location: location@,
                raw: raw@,
            },
            Error::MalformedFrontmatter { location, raw } => ErrorView::MalformedFrontmatter {
                location: location@,
                raw: raw@,
            },
            Error::MalformedProjectStructure { path } => ErrorView::MalformedProjectStructure {
                path: path@,
            },
            Error::Compilation { page, diagnostics } => ErrorView::Compilation {
                page: page@,
                diagnostics: diagnostics@.map_values(|d: Diagnostic| d@),
            },
            Error::PackageFetch { package, cause } => ErrorView::PackageFetch {
                package: package@,
                cause: cause@,
            },
            Error::Other => ErrorView::Other,
        }
    }
}

} // verus!
