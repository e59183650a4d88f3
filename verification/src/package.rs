//! How packages are named, and where a package is kept and fetched from.

use vstd::prelude::*;
use vstd::string::StringExecFns;
use crate::error::{EntityKind, Error, ErrorView};

verus! {

/// The decimal digit for `d`, which is below ten.
pub open spec fn digit(d: nat) -> char {
    if d == 0 {
        '0'
    } else if d == 1 {
        '1'
    } else if d == 2 {
        '2'
    } else if d == 3 {
        '3'
    } else if d == 4 {
        '4'
    } else if d == 5 {
        '5'
    } else if d == 6 {
        '6'
    } else if d == 7 {
        '7'
    } else if d == 8 {
        '8'
    } else {
        '9'
    }
}

/// The number `n` written in decimal digits, without leading zeros.
pub open spec fn decimal(n: nat) -> Seq<char>
    decreases n,
{
    if n < 10 {
        seq![digit(n)]
    } else {
        decimal(n / 10).push(digit(n % 10))
    }
}

/// Calls `to_string` of std on a `u32`. Nothing is proved of the result: it is
/// taken to be the number in decimal digits, as std documents it.
#[verifier::external_body]
fn decimal_string(n: u32) -> (text: String)
    ensures
        text@ == decimal(n as nat),
{
    n.to_string()
}

/// The version of a package.
#[derive(Debug, Clone, Copy, PartialEq, Eq, Hash, Structural)]
pub struct PackageVersion {
    pub major: u32,
    pub minor: u32,
    pub patch: u32,
}

/// Names one version of a package in a namespace.
#[derive(Debug, PartialEq, Eq, Hash)]
pub struct PackageSpec {
    /// The namespace the package lives in.
    pub namespace: String,
    /// The name of the package within its namespace.
    pub name: String,
    /// The package's version.
    pub version: PackageVersion,
}

/// A package's name, as plain values.
pub struct PackageSpecView {
    pub namespace: Seq<char>,
    pub name: Seq<char>,
    pub version: PackageVersion,
}

impl View for PackageSpec {
    type V = PackageSpecView;

    open spec fn view(&self) -> PackageSpecView {
        PackageSpecView { namespace: self.namespace@, name: self.name@, version: self.version }
    }
}

impl Clone for PackageSpec {
    fn clone(&self) -> (copy: Self)
        ensures
            copy == *self,
    {
        PackageSpec {
            namespace: self.namespace.clone(),
            name: self.name.clone(),
            version: self.version,
        }
    }
}

/// A version as text: its three numbers with dots between them.
pub open spec fn version_text(version: PackageVersion) -> Seq<char> {
    decimal(version.major as nat) + "."@ + decimal(version.minor as nat) + "."@ + decimal(
        version.patch as nat,
    )
}

/// A package's name as text, as it is shown in messages.
pub open spec fn package_text(package: PackageSpecView) -> Seq<char> {
    "@"@ + package.namespace + "/"@ + package.name + ":"@ + version_text(package.version)
}

/// Where a package lies below the root of the cache: namespace, name and
/// version, one inside the other.
pub open spec fn package_subdir(package: PackageSpecView) -> Seq<char> {
    package.namespace + "/"@ + package.name + "/"@ + version_text(package.version)
}

/// Where the registry offers a package: one archive for each version.
pub open spec fn package_url(package: PackageSpecView) -> Seq<char> {
    "https://packages.typst.org/"@ + package.namespace + "/"@ + package.name + "-"@
        + version_text(package.version) + ".tar.gz"@
}

impl PackageVersion {
    /// The version as text.
    pub fn to_text(&self) -> (text: String)
        ensures
            text@ == version_text(*self),
    {
        let mut text = decimal_string(self.major);
        text.append(".");
        text.append(decimal_string(self.minor).as_str());
        text.append(".");
        text.append(decimal_string(self.patch).as_str());
        text
    }
}

impl PackageSpec {
    /// The package's name as text, as it is shown in messages.
    pub fn to_text(&self) -> (text: String)
        ensures
            text@ == package_text(self@),
    {
        let mut text = "@".to_owned();
        text.append(self.namespace.as_str());
        text.append("/");
        text.append(self.name.as_str());
        text.append(":");
        text.append(self.version.to_text().as_str());
        text
    }

    /// Where the package lies below the root of the cache.
    pub fn subdir(&self) -> (dir: String)
        ensures
            dir@ == package_subdir(self@),
    {
        let mut dir = self.namespace.clone();
        dir.append("/");
        dir.append(self.name.as_str());
        dir.append("/");
        dir.append(self.version.to_text().as_str());
        dir
    }

    /// Where the registry offers the package.
    pub fn url(&self) -> (url: String)
        ensures
            url@ == package_url(self@),
    {
        let mut url = "https://packages.typst.org/".to_owned();
        url.append(self.namespace.as_str());
        url.append("/");
        url.append(self.name.as_str());
        url.append("-");
        url.append(self.version.to_text().as_str());
        url.append(".tar.gz");
        url
    }
}

/// Why a package could not be had.
#[derive(Debug, PartialEq, Eq)]
pub enum PackageError {
    /// No package of that name exists.
    NotFound(PackageSpec),
    /// The package exists, but not in that version.
    VersionNotFound(PackageSpec, PackageVersion),
    /// The registry could not be reached or refused.
    NetworkFailed(Option<String>),
    /// What the registry sent is no archive of a package.
    MalformedArchive(Option<String>),
    /// Anything else.
    Other(Option<String>),
}

/// Why a package could not be had, as plain values.
pub enum PackageErrorView {
    NotFound(PackageSpecView),
    VersionNotFound(PackageSpecView, PackageVersion),
    NetworkFailed(Option<Seq<char>>),
    MalformedArchive(Option<Seq<char>>),
    Other(Option<Seq<char>>),
}

/// A text that may be missing, as plain values.
pub open spec fn text_view(text: Option<String>) -> Option<Seq<char>> {
    match text {
        Some(text) => Some(text@),
        None => None,
    }
}

impl View for PackageError {
    type V = PackageErrorView;

    open spec fn view(&self) -> PackageErrorView {
        match *self {
            PackageError::NotFound(package) => PackageErrorView::NotFound(package@),
            PackageError::VersionNotFound(package, version) => PackageErrorView::VersionNotFound(
                package@,
                version,
            ),
            PackageError::NetworkFailed(cause) => PackageErrorView::NetworkFailed(
                text_view(cause),
            ),
            PackageError::MalformedArchive(cause) => PackageErrorView::MalformedArchive(
                text_view(cause),
            ),
            PackageError::Other(cause) => PackageErrorView::Other(text_view(cause)),
        }
    }
}

/// The text of a cause that may be missing: nothing where it is.
pub open spec fn cause_text(cause: Option<Seq<char>>) -> Seq<char> {
    match cause {
        Some(cause) => cause,
        None => Seq::empty(),
    }
}

/// The failure of a build that the failed lookup of `package` is: a package, or
/// a version of it, that does not exist is something that was not found, named
/// as it was searched for; anything else is a failed fetch of `package`.
pub open spec fn lookup_failure(e: PackageErrorView, package: PackageSpecView) -> ErrorView {
    match e {
        PackageErrorView::NotFound(searched) => ErrorView::NotFound {
            missing: EntityKind::Package,
            path: package_text(searched),
        },
        PackageErrorView::VersionNotFound(searched, version) => ErrorView::NotFound {
            missing: EntityKind::PackageVersion,
            path: package_text(
                PackageSpecView { namespace: searched.namespace, name: searched.name, version },
            ),
        },
        PackageErrorView::NetworkFailed(cause) => ErrorView::PackageFetch {
            package: package_text(package),
            cause: cause_text(cause),
        },
        PackageErrorView::MalformedArchive(cause) => ErrorView::PackageFetch {
            package: package_text(package),
            cause: cause_text(cause),
        },
        PackageErrorView::Other(cause) => ErrorView::PackageFetch {
            package: package_text(package),
            cause: cause_text(cause),
        },
    }
}

/// The text of a cause that may be missing.
fn cause_of(cause: Option<String>) -> (text: String)
    ensures
        text@ == cause_text(text_view(cause)),
{
    match cause {
        Some(cause) => cause,
        None => String::new(),
    }
}

impl PackageError {
    /// The failure of a build that this failed lookup of `package` is.
    pub fn into_error(self, package: &PackageSpec) -> (e: Error)
        ensures
            e@ == lookup_failure(self@, package@),
    {
        match self {
            PackageError::NotFound(searched) => Error::NotFound {
                missing: EntityKind::Package,
                path: searched.to_text(),
            },
            PackageError::VersionNotFound(searched, version) => {
                let named = PackageSpec {
                    namespace: searched.namespace,
                    name: searched.name,
                    version,
                };
                Error::NotFound { missing: EntityKind::PackageVersion, path: named.to_text() }
            },
            PackageError::NetworkFailed(cause) => Error::PackageFetch {
                package: package.to_text(),
                cause: cause_of(cause),
            },
            PackageError::MalformedArchive(cause) => Error::PackageFetch {
                package: package.to_text(),
                cause: cause_of(cause),
            },
            PackageError::Other(cause) => Error::PackageFetch {
                package: package.to_text(),
                cause: cause_of(cause),
            },
        }
    }
}

} // verus!
