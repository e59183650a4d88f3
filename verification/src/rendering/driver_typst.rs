//! What the compiler needs from its surroundings while it renders one page:
//! the page's source, the files that the page reads, and the packages that it
//! uses, which are looked up in the project or fetched from the registry and
//! kept in a cache.

use vstd::prelude::*;
use vstd::string::StringExecFns;
use crate::error::{EntityKind, Error, ErrorView};
use crate::package::{
    package_subdir, package_url, text_view, version_text, PackageError, PackageErrorView,
    PackageSpec, PackageSpecView,
};
use crate::utils::{join, joined_path, Loaded};
use crate::value::{Value, ValueView};

verus! {

/// What `zune_inflate` makes of `data` read as a gzip stream: the bytes that
/// were packed, or the decoder's words on why there are none.
pub uninterp spec fn gunzipped(data: Seq<u8>) -> Result<Seq<u8>, Seq<char>>;

/// Unpacks a gzip stream with `zune_inflate::DeflateDecoder::decode_gzip`, under
/// the decoder's own limits. Nothing is proved of the result: it is taken to be
/// `gunzipped` of the data, a function of it alone. An error is handed on as the
/// text that the decoder shows for it.
#[verifier::external_body]
fn gunzip(data: &Vec<u8>) -> (raw: Result<Vec<u8>, String>)
    ensures
        match raw {
            Ok(raw) => gunzipped(data@) == Ok::<Seq<u8>, Seq<char>>(raw@),
            Err(cause) => gunzipped(data@) == Err::<Seq<u8>, Seq<char>>(cause@),
        },
{
    zune_inflate::DeflateDecoder::new(data).decode_gzip().map_err(|error| format!("{error}"))
}

/// Whether an HTTP status code lies in the 2xx range.
pub open spec fn is_success_status(status: u16) -> bool {
    200 <= status < 300
}

/// Tells whether an HTTP status code reports success.
pub fn http_successful(status: u16) -> (ok: bool)
    ensures
        ok == is_success_status(status),
{
    // 2XX
    status / 100 == 2
}

/// Calls `f`, and calls it once more where the first call failed. What comes
/// back is the success of the first call, else whatever the second call gave.
pub fn retry<T, E, F: Fn() -> Result<T, E>>(f: F) -> (outcome: Result<T, E>)
    requires
        call_requires(f, ()),
    ensures
        call_ensures(f, (), outcome),
        outcome is Err ==> exists|first: E| call_ensures(f, (), Err::<T, E>(first)),
{
    match f() {
        Ok(ok) => Ok(ok),
        Err(first) => {
            assert(call_ensures(f, (), Err::<T, E>(first)));
            f()
        },
    }
}

/// The status line of a response.
#[derive(Debug, PartialEq, Eq)]
pub struct Status {
    /// The status code.
    pub code: u16,
    /// The status as it is shown in messages.
    pub text: String,
}

/// Where the lookup of a package stands: what it waits to be told.
#[derive(Debug, PartialEq, Eq)]
pub enum Stage {
    /// Whether the project holds a package of the name.
    ProjectPackage,
    /// Whether the project holds the package in the version.
    ProjectVersion,
    /// Whether the cache holds the package.
    Cache,
    /// How the first request to the registry ended.
    FirstFetch,
    /// How the second request to the registry ended.
    SecondFetch,
    /// What the registry sent.
    Body,
    /// How the unpacking of the archive ended.
    Unpack,
    /// That what a failed unpacking left behind is gone; the text is why the
    /// unpacking failed.
    Cleanup(String),
    /// Nothing: the lookup is over.
    Done,
}

/// How a package came to lie where it lies.
#[derive(Debug, Clone, Copy, PartialEq, Eq, Structural)]
pub enum Provenance {
    /// The project holds the package itself.
    Vendored,
    /// The package was fetched from the registry and unpacked into the cache,
    /// now or at an earlier time.
    Downloaded,
}

/// Where a package lies, and how it came to lie there.
#[derive(Debug, PartialEq, Eq)]
pub struct CacheEntry {
    /// The directory that holds the package.
    pub path: String,
    /// How the package came to lie there.
    pub provenance: Provenance,
}

/// Where a package lies, as plain values.
pub struct CacheEntryView {
    pub path: Seq<char>,
    pub provenance: Provenance,
}

impl View for CacheEntry {
    type V = CacheEntryView;

    open spec fn view(&self) -> CacheEntryView {
        CacheEntryView { path: self.path@, provenance: self.provenance }
    }
}

/// The place of a package of the project.
pub open spec fn vendored(path: Seq<char>) -> CacheEntryView {
    CacheEntryView { path, provenance: Provenance::Vendored }
}

/// The place of a package in the cache.
pub open spec fn downloaded(path: Seq<char>) -> CacheEntryView {
    CacheEntryView { path, provenance: Provenance::Downloaded }
}

/// What a lookup asks its surroundings to do next.
#[derive(Debug, PartialEq, Eq)]
pub enum Request {
    /// To tell whether the path exists.
    Probe(String),
    /// To send a GET request to the URL.
    Get(String),
    /// To read what the last response carries.
    ReadBody,
    /// To unpack the tar archive into the directory.
    Unpack { archive: Vec<u8>, into: String },
    /// To remove the directory with all that it holds.
    RemoveDir(String),
    /// Nothing more: the package lies in the directory, or cannot be had.
    Done(Result<CacheEntry, PackageError>),
}

/// What the surroundings tell a lookup in answer to its last request.
#[derive(Debug, PartialEq, Eq)]
pub enum Reply {
    /// Whether the path exists.
    Exists(bool),
    /// The status of the response, or why none came.
    Response(Result<Status, String>),
    /// What the response carried, or why it could not be read.
    Body(Result<Vec<u8>, String>),
    /// That the archive was unpacked, or why it was not.
    Unpacked(Result<(), String>),
    /// That the directory was removed, or could not be.
    Removed,
}

/// A stage, as plain values.
pub enum StageView {
    ProjectPackage,
    ProjectVersion,
    Cache,
    FirstFetch,
    SecondFetch,
    Body,
    Unpack,
    Cleanup(Seq<char>),
    Done,
}

/// A request, as plain values.
pub enum RequestView {
    Probe(Seq<char>),
    Get(Seq<char>),
    ReadBody,
    Unpack { archive: Seq<u8>, into: Seq<char> },
    RemoveDir(Seq<char>),
    Done(Result<CacheEntryView, PackageErrorView>),
}

/// A reply, as plain values.
pub enum ReplyView {
    Exists(bool),
    Response(Result<(u16, Seq<char>), Seq<char>>),
    Body(Result<Seq<u8>, Seq<char>>),
    Unpacked(Result<(), Seq<char>>),
    Removed,
}

impl View for Stage {
    type V = StageView;

    open spec fn view(&self) -> StageView {
        match *self {
            Stage::ProjectPackage => StageView::ProjectPackage,
            Stage::ProjectVersion => StageView::ProjectVersion,
            Stage::Cache => StageView::Cache,
            Stage::FirstFetch => StageView::FirstFetch,
            Stage::SecondFetch => StageView::SecondFetch,
            Stage::Body => StageView::Body,
            Stage::Unpack => StageView::Unpack,
            Stage::Cleanup(cause) => StageView::Cleanup(cause@),
            Stage::Done => StageView::Done,
        }
    }
}

impl View for Request {
    type V = RequestView;

    open spec fn view(&self) -> RequestView {
        match *self {
            Request::Probe(path) => RequestView::Probe(path@),
            Request::Get(url) => RequestView::Get(url@),
            Request::ReadBody => RequestView::ReadBody,
            Request::Unpack { archive, into } => RequestView::Unpack {
                archive: archive@,
                into: into@,
            },
            Request::RemoveDir(path) => RequestView::RemoveDir(path@),
            Request::Done(outcome) => RequestView::Done(
                match outcome {
                    Ok(entry) => Ok(entry@),
                    Err(e) => Err(e@),
                },
            ),
        }
    }
}

impl View for Reply {
    type V = ReplyView;

    open spec fn view(&self) -> ReplyView {
        match *self {
            Reply::Exists(held) => ReplyView::Exists(held),
            Reply::Response(response) => ReplyView::Response(
                match response {
                    Ok(status) => Ok((status.code, status.text@)),
                    Err(cause) => Err(cause@),
                },
            ),
            Reply::Body(body) => ReplyView::Body(
                match body {
                    Ok(bytes) => Ok(bytes@),
                    Err(cause) => Err(cause@),
                },
            ),
            Reply::Unpacked(outcome) => ReplyView::Unpacked(
                match outcome {
                    Ok(()) => Ok(()),
                    Err(cause) => Err(cause@),
                },
            ),
            Reply::Removed => ReplyView::Removed,
        }
    }
}

/// Where packages are kept, as plain values.
pub struct Places {
    /// The directory that the project's own packages lie in.
    pub project_packages: Seq<char>,
    /// The directory that fetched packages are kept in.
    pub cache: Seq<char>,
}

/// The directory of the project's packages of the name of `package`.
pub open spec fn project_package_dir(places: Places, package: PackageSpecView) -> Seq<char> {
    joined_path(places.project_packages, package.name)
}

/// The directory of the project's package `package`, in its version.
pub open spec fn project_version_dir(places: Places, package: PackageSpecView) -> Seq<char> {
    joined_path(project_package_dir(places, package), version_text(package.version))
}

/// The directory that the cache keeps `package` in.
pub open spec fn cache_path(places: Places, package: PackageSpecView) -> Seq<char> {
    joined_path(places.cache, package_subdir(package))
}

/// Whether `package` is one of the project's own: those are looked up in the
/// project and never fetched.
pub open spec fn is_project_package(package: PackageSpecView) -> bool {
    package.namespace == "loveletters"@
}

/// Why a request to the registry counts as failed, if it does: no response
/// came, or one with a status that is not a success.
pub open spec fn fetch_failure(response: Result<(u16, Seq<char>), Seq<char>>) -> Option<
    Seq<char>,
> {
    match response {
        Err(cause) => Some(cause),
        Ok((code, text)) => if is_success_status(code) {
            None
        } else {
            Some("response returned unsuccessful status code "@ + text)
        },
    }
}

/// How the lookup of `package` begins: a package of the project is looked for
/// in the project, any other in the cache.
pub open spec fn first_step(places: Places, package: PackageSpecView) -> (StageView, RequestView) {
    if is_project_package(package) {
        (StageView::ProjectPackage, RequestView::Probe(project_package_dir(places, package)))
    } else {
        (StageView::Cache, RequestView::Probe(cache_path(places, package)))
    }
}

/// The end of a lookup with `outcome`.
pub open spec fn finish(outcome: Result<CacheEntryView, PackageErrorView>) -> (
    StageView,
    RequestView,
) {
    (StageView::Done, RequestView::Done(outcome))
}

/// How the lookup of `package` goes on from `stage` once it is told `reply`.
///
/// A package of the project is there if the project holds its name and, under
/// it, its version; nothing is fetched for it. Any other package is taken from
/// the cache where the cache holds it. Where it does not, the registry is asked
/// for it, and asked once more if the first request fails; what it sends is
/// unpacked into the cache. If that unpacking fails, what it left behind is
/// removed before the failure is reported. A reply that does not answer the
/// last request ends the lookup.
pub open spec fn next_step(
    places: Places,
    package: PackageSpecView,
    stage: StageView,
    reply: ReplyView,
) -> (StageView, RequestView) {
    match (stage, reply) {
        (StageView::ProjectPackage, ReplyView::Exists(held)) => if held {
            (StageView::ProjectVersion, RequestView::Probe(project_version_dir(places, package)))
        } else {
            finish(Err(PackageErrorView::NotFound(package)))
        },
        (StageView::ProjectVersion, ReplyView::Exists(held)) => if held {
            finish(Ok(vendored(project_version_dir(places, package))))
        } else {
            finish(Err(PackageErrorView::VersionNotFound(package, package.version)))
        },
        (StageView::Cache, ReplyView::Exists(held)) => if held {
            finish(Ok(downloaded(cache_path(places, package))))
        } else {
            (StageView::FirstFetch, RequestView::Get(package_url(package)))
        },
        (StageView::FirstFetch, ReplyView::Response(response)) => match fetch_failure(response) {
            Some(cause) => (StageView::SecondFetch, RequestView::Get(package_url(package))),
            None => (StageView::Body, RequestView::ReadBody),
        },
        (StageView::SecondFetch, ReplyView::Response(response)) => match fetch_failure(
            response,
        ) {
            Some(cause) => finish(Err(PackageErrorView::NetworkFailed(Some(cause)))),
            None => (StageView::Body, RequestView::ReadBody),
        },
        (StageView::Body, ReplyView::Body(body)) => match body {
            Err(cause) => finish(Err(PackageErrorView::NetworkFailed(Some(cause)))),
            Ok(data) => match gunzipped(data) {
                Err(cause) => finish(Err(PackageErrorView::MalformedArchive(Some(cause)))),
                Ok(archive) => (
                    StageView::Unpack,
                    RequestView::Unpack { archive, into: cache_path(places, package) },
                ),
            },
        },
        (StageView::Unpack, ReplyView::Unpacked(outcome)) => match outcome {
            Ok(()) => finish(Ok(downloaded(cache_path(places, package)))),
            Err(cause) => (
                StageView::Cleanup(cause),
                RequestView::RemoveDir(cache_path(places, package)),
            ),
        },
        (StageView::Cleanup(cause), _) => finish(
            Err(PackageErrorView::MalformedArchive(Some(cause))),
        ),
        _ => finish(Err(PackageErrorView::Other(None))),
    }
}

/// What a lookup of `package` asks for, request by request, when it is told
/// `replies` one after the other: its first request, and for each reply the
/// request that follows it. Replies that come after the end are not heard.
pub open spec fn requests(places: Places, package: PackageSpecView, replies: Seq<ReplyView>) -> Seq<
    RequestView,
> {
    requests_from(places, package, first_step(places, package), replies)
}

/// What a lookup of `package` asks for from the step `step` on.
pub open spec fn requests_from(
    places: Places,
    package: PackageSpecView,
    step: (StageView, RequestView),
    replies: Seq<ReplyView>,
) -> Seq<RequestView>
    decreases replies.len(),
{
    if replies.len() == 0 || step.0 is Done {
        seq![step.1]
    } else {
        seq![step.1] + requests_from(
            places,
            package,
            next_step(places, package, step.0, replies[0]),
            replies.skip(1),
        )
    }
}

/// Whether `request` goes out to the registry.
pub open spec fn asks_registry(request: RequestView) -> bool {
    request is Get || request is ReadBody
}

/// A package that the cache holds is had without a word to the registry: the
/// lookup asks whether the cache holds it, and, told that it does, ends with
/// the directory in the cache, whatever it is told after that. That directory
/// is the one that a fetch unpacks into, so a package that was fetched once is
/// found there the next time.
pub proof fn lemma_cache_hit_asks_nothing(
    places: Places,
    package: PackageSpecView,
    replies: Seq<ReplyView>,
)
    requires
        !is_project_package(package),
        replies.len() > 0,
        replies[0] == ReplyView::Exists(true),
    ensures
        requests(places, package, replies) == seq![
            RequestView::Probe(cache_path(places, package)),
            RequestView::Done(Ok(downloaded(cache_path(places, package)))),
        ],
        forall|k: int|
            0 <= k < requests(places, package, replies).len() ==> !asks_registry(
                #[trigger] requests(places, package, replies)[k],
            ),
        forall|data: Seq<u8>|
            gunzipped(data) is Ok ==> (#[trigger] next_step(
                places,
                package,
                StageView::Body,
                ReplyView::Body(Ok(data)),
            )).1 == (RequestView::Unpack {
                archive: gunzipped(data)->Ok_0,
                into: cache_path(places, package),
            }),
{
    let first = first_step(places, package);
    let second = next_step(places, package, first.0, replies[0]);
    reveal_with_fuel(requests_from, 3);
    assert(requests_from(places, package, second, replies.skip(1)) == seq![second.1]);
    assert(requests(places, package, replies) =~= seq![first.1, second.1]);
}

/// A package of the project is never fetched: whatever the lookup is told, it
/// asks nothing of the registry.
pub proof fn lemma_project_package_asks_nothing(
    places: Places,
    package: PackageSpecView,
    replies: Seq<ReplyView>,
)
    requires
        is_project_package(package),
    ensures
        forall|k: int|
            0 <= k < requests(places, package, replies).len() ==> !asks_registry(
                #[trigger] requests(places, package, replies)[k],
            ),
{
    let first = first_step(places, package);
    reveal_with_fuel(requests_from, 4);
    if replies.len() > 0 {
        let second = next_step(places, package, first.0, replies[0]);
        let rest = replies.skip(1);
        if rest.len() > 0 && !(second.0 is Done) {
            let third = next_step(places, package, second.0, rest[0]);
            assert(third.0 is Done);
            assert(requests_from(places, package, third, rest.skip(1)) == seq![third.1]);
            assert(requests(places, package, replies) =~= seq![first.1, second.1, third.1]);
        } else {
            assert(requests(places, package, replies) =~= seq![first.1, second.1]);
        }
    } else {
        assert(requests(places, package, replies) =~= seq![first.1]);
    }
}

/// One failed request is forgiven, two are not. After a first request that
/// failed the lookup asks the registry once more; if that request succeeds the
/// lookup goes on to read what was sent, as it does after a first request that
/// succeeded, and ends well once the archive is unpacked. If the second request
/// fails too the lookup ends, with the failure of the second request as a
/// failure of the network.
pub proof fn lemma_one_retry(
    places: Places,
    package: PackageSpecView,
    first: Result<(u16, Seq<char>), Seq<char>>,
    second: Result<(u16, Seq<char>), Seq<char>>,
    data: Seq<u8>,
)
    requires
        fetch_failure(first) is Some,
    ensures
        next_step(places, package, StageView::FirstFetch, ReplyView::Response(first)) == (
            StageView::SecondFetch,
            RequestView::Get(package_url(package)),
        ),
        fetch_failure(second) is None ==> next_step(
            places,
            package,
            StageView::SecondFetch,
            ReplyView::Response(second),
        ) == (StageView::Body, RequestView::ReadBody),
        fetch_failure(second) is None ==> next_step(
            places,
            package,
            StageView::SecondFetch,
            ReplyView::Response(second),
        ) == next_step(places, package, StageView::FirstFetch, ReplyView::Response(second)),
        fetch_failure(second) is None && gunzipped(data) is Ok && !is_project_package(package)
            ==> requests(
            places,
            package,
            seq![
                ReplyView::Exists(false),
                ReplyView::Response(first),
                ReplyView::Response(second),
                ReplyView::Body(Ok(data)),
                ReplyView::Unpacked(Ok(())),
            ],
        ).last() == RequestView::Done(Ok(downloaded(cache_path(places, package)))),
        fetch_failure(second) is Some ==> next_step(
            places,
            package,
            StageView::SecondFetch,
            ReplyView::Response(second),
        ) == finish(Err(PackageErrorView::NetworkFailed(fetch_failure(second)))),
{
    if fetch_failure(second) is None && gunzipped(data) is Ok && !is_project_package(package) {
        let replies = seq![
            ReplyView::Exists(false),
            ReplyView::Response(first),
            ReplyView::Response(second),
            ReplyView::Body(Ok(data)),
            ReplyView::Unpacked(Ok(())),
        ];
        let s0 = first_step(places, package);
        let s1 = next_step(places, package, s0.0, replies[0]);
        let s2 = next_step(places, package, s1.0, replies[1]);
        let s3 = next_step(places, package, s2.0, replies[2]);
        let s4 = next_step(places, package, s3.0, replies[3]);
        let s5 = next_step(places, package, s4.0, replies[4]);
        let r1 = replies.skip(1);
        let r2 = r1.skip(1);
        let r3 = r2.skip(1);
        let r4 = r3.skip(1);
        let r5 = r4.skip(1);
        assert(r1[0] == replies[1]);
        assert(r2[0] == replies[2]);
        assert(r3[0] == replies[3]);
        assert(r4[0] == replies[4]);
        assert(r5.len() == 0);
        assert(requests_from(places, package, s5, r5) == seq![s5.1]);
        assert(requests_from(places, package, s4, r4) == seq![s4.1] + seq![s5.1]);
        assert(requests_from(places, package, s3, r3) == seq![s3.1] + (seq![s4.1] + seq![s5.1]));
        assert(requests_from(places, package, s2, r2) == seq![s2.1] + (seq![s3.1] + (seq![s4.1]
            + seq![s5.1])));
        assert(requests_from(places, package, s1, r1) == seq![s1.1] + (seq![s2.1] + (seq![s3.1]
            + (seq![s4.1] + seq![s5.1]))));
        assert(requests(places, package, replies) == seq![s0.1] + (seq![s1.1] + (seq![s2.1] + (
        seq![s3.1] + (seq![s4.1] + seq![s5.1])))));
    }
}

/// The number of GET requests among `asked`.
pub open spec fn gets(asked: Seq<RequestView>) -> nat
    decreases asked.len(),
{
    if asked.len() == 0 {
        0
    } else if asked.last() is Get {
        1 + gets(asked.drop_last())
    } else {
        gets(asked.drop_last())
    }
}

/// The number of GET requests that a lookup may still send once it has come
/// to `stage`, the request that it waits on counted in.
pub open spec fn gets_left(stage: StageView) -> nat {
    match stage {
        StageView::Cache => 2,
        StageView::FirstFetch => 2,
        StageView::SecondFetch => 1,
        _ => 0,
    }
}

/// Whether the request of `step` is the one that its stage waits on, as far as
/// GET requests go: a lookup waits for a response where it has just sent a
/// GET request, and nowhere else.
pub open spec fn waits_on_its_request(step: (StageView, RequestView)) -> bool {
    step.1 is Get <==> (step.0 is FirstFetch || step.0 is SecondFetch)
}

/// A request put in front of others counts as one more GET request if it is one.
proof fn lemma_gets_prepend(first: RequestView, rest: Seq<RequestView>)
    ensures
        gets(seq![first] + rest) == gets(rest) + (if first is Get {
            1nat
        } else {
            0nat
        }),
    decreases rest.len(),
{
    let all = seq![first] + rest;
    if rest.len() == 0 {
        assert(all.drop_last() =~= rest);
        assert(all.last() == first);
    } else {
        assert(all.drop_last() =~= seq![first] + rest.drop_last());
        assert(all.last() == rest.last());
        lemma_gets_prepend(first, rest.drop_last());
    }
}

/// From a stage on, a lookup sends no more GET requests than the stage leaves it.
proof fn lemma_gets_from(
    places: Places,
    package: PackageSpecView,
    step: (StageView, RequestView),
    replies: Seq<ReplyView>,
)
    requires
        waits_on_its_request(step),
    ensures
        gets(requests_from(places, package, step, replies)) <= gets_left(step.0),
    decreases replies.len(),
{
    if replies.len() == 0 || step.0 is Done {
        lemma_gets_prepend(step.1, Seq::<RequestView>::empty());
        assert(seq![step.1] + Seq::<RequestView>::empty() =~= seq![step.1]);
    } else {
        let next = next_step(places, package, step.0, replies[0]);
        lemma_gets_from(places, package, next, replies.skip(1));
        lemma_gets_prepend(step.1, requests_from(places, package, next, replies.skip(1)));
    }
}

/// The registry is asked for a package twice at most: once, and once more if
/// the first request failed. This holds of every lookup, whatever it is told.
pub proof fn lemma_at_most_two_requests(
    places: Places,
    package: PackageSpecView,
    replies: Seq<ReplyView>,
)
    ensures
        gets(requests(places, package, replies)) <= 2,
{
    lemma_gets_from(places, package, first_step(places, package), replies);
}

/// A failed unpacking leaves nothing behind. Told that the unpacking failed,
/// the lookup asks for the directory in the cache to be removed, and only then
/// ends, with the failure as a malformed archive. So the next lookup of the
/// package does not find in the cache what the failed unpacking began.
pub proof fn lemma_failed_unpacking_is_removed(
    places: Places,
    package: PackageSpecView,
    cause: Seq<char>,
    reply: ReplyView,
)
    ensures
        next_step(places, package, StageView::Unpack, ReplyView::Unpacked(Err(cause))) == (
            StageView::Cleanup(cause),
            RequestView::RemoveDir(cache_path(places, package)),
        ),
        next_step(places, package, StageView::Cleanup(cause), reply) == finish(
            Err(PackageErrorView::MalformedArchive(Some(cause))),
        ),
        !is_project_package(package) ==> first_step(places, package).1 == RequestView::Probe(
            cache_path(places, package),
        ),
{
}

/// Where `typst::syntax::VirtualPath::resolve` finds the virtual path `vpath`
/// below the directory `root`, on the platform that the library is built for;
/// nowhere if the path leaves the directory.
pub uninterp spec fn resolved_path(vpath: Seq<char>, root: Seq<char>) -> Option<Seq<char>>;

/// Makes a `typst::syntax::VirtualPath` of `vpath` and resolves it below `root`
/// with `VirtualPath::resolve`. Nothing is proved of the result: it is taken to
/// be `resolved_path` of the two texts, a function of them alone.
#[verifier::external_body]
fn resolve(vpath: &str, root: &str) -> (found: Option<String>)
    ensures
        match found {
            Some(path) => resolved_path(vpath@, root@) == Some(path@),
            None => resolved_path(vpath@, root@) is None,
        },
{
    typst::syntax::VirtualPath::new(vpath).resolve(std::path::Path::new(root)).map(
        |path| path.to_string_lossy().into_owned(),
    )
}

/// Reads bytes as text with `std::str::from_utf8`. Nothing is proved of the
/// result: as std documents it, there is a text where the bytes are valid
/// UTF-8, and it is the text that they encode.
#[verifier::external_body]
fn text_of(bytes: &Vec<u8>) -> (text: Option<String>)
    ensures
        match text {
            Some(text) => vstd::utf8::valid_utf8(bytes@) && text@ == vstd::utf8::decode_utf8(
                bytes@,
            ),
            None => !vstd::utf8::valid_utf8(bytes@),
        },
{
    std::str::from_utf8(bytes).ok().map(|text| text.to_owned())
}

/// The mark that some editors put at the start of a file.
pub open spec fn byte_order_mark() -> char {
    '\u{feff}'
}

/// The number of byte order marks that `text` begins with.
pub open spec fn leading_marks(text: Seq<char>) -> nat
    decreases text.len(),
{
    if text.len() > 0 && text[0] == byte_order_mark() {
        1 + leading_marks(text.skip(1))
    } else {
        0
    }
}

/// The text `text` without the byte order marks that it begins with.
pub open spec fn without_marks(text: Seq<char>) -> Seq<char> {
    text.skip(leading_marks(text) as int)
}

/// The first `k` characters of `text` are byte order marks and the next one,
/// if there is one, is not: `k` is the number of marks that `text` begins with.
proof fn lemma_leading_marks(text: Seq<char>, k: nat)
    requires
        k <= text.len(),
        forall|m: int| 0 <= m < k ==> text[m] == byte_order_mark(),
        k < text.len() ==> text[k as int] != byte_order_mark(),
    ensures
        leading_marks(text) == k,
    decreases k,
{
    if k > 0 {
        let rest = text.skip(1);
        assert forall|m: int| 0 <= m < k - 1 implies rest[m] == byte_order_mark() by {
            assert(rest[m] == text[m + 1]);
        }
        if k < text.len() {
            assert(rest[k - 1] == text[k as int]);
        }
        lemma_leading_marks(rest, (k - 1) as nat);
    }
}

/// The text `text` without the byte order marks that it begins with.
fn strip_marks(text: &str) -> (rest: String)
    ensures
        rest@ == without_marks(text@),
{
    let n = text.unicode_len();
    let mut k: usize = 0;
    while k < n && text.get_char(k) == '\u{feff}'
        invariant
            n == text@.len(),
            k <= n,
            forall|m: int| 0 <= m < k ==> text@[m] == byte_order_mark(),
        decreases n - k,
    {
        k += 1;
    }
    proof {
        lemma_leading_marks(text@, k as nat);
        assert(text@.subrange(k as int, n as int) =~= text@.skip(k as int));
    }
    text.substring_char(k, n).to_owned()
}

/// Names a file that a page can read: a path within the project, or within a
/// package.
#[derive(Debug, PartialEq, Eq)]
pub struct FileKey {
    /// The package that holds the file, if one does.
    pub package: Option<PackageSpec>,
    /// Where the file lies within the project or the package.
    pub vpath: String,
}

/// The name of a file, as plain values.
pub struct FileKeyView {
    pub package: Option<PackageSpecView>,
    pub vpath: Seq<char>,
}

impl View for FileKey {
    type V = FileKeyView;

    open spec fn view(&self) -> FileKeyView {
        FileKeyView {
            package: match self.package {
                Some(package) => Some(package@),
                None => None,
            },
            vpath: self.vpath@,
        }
    }
}

impl FileKey {
    /// Whether two names are the same.
    pub fn same(&self, other: &FileKey) -> (eq: bool)
        ensures
            eq == (self@ == other@),
    {
        let same_package = match (&self.package, &other.package) {
            (Some(mine), Some(theirs)) => mine.namespace == theirs.namespace && mine.name
                == theirs.name && mine.version == theirs.version,
            (None, None) => true,
            _ => false,
        };
        same_package && self.vpath == other.vpath
    }
}

/// Why a file could not be had.
#[derive(Debug, PartialEq, Eq)]
pub enum FileError {
    /// The path lies outside of what may be read.
    AccessDenied,
    /// The file is no text.
    InvalidUtf8,
    /// The package that holds the file could not be had.
    Package(PackageError),
}

/// A file as it was read, and as text once it has been asked for as text.
#[derive(Debug, PartialEq, Eq)]
pub struct FileEntry {
    bytes: Vec<u8>,
    source: Option<String>,
}

impl Clone for FileEntry {
    fn clone(&self) -> (copy: Self)
        ensures
            copy.content() == self.content(),
            copy.text() == self.text(),
    {
        let mut bytes: Vec<u8> = Vec::new();
        let mut k: usize = 0;
        while k < self.bytes.len()
            invariant
                k <= self.bytes.len(),
                bytes@ == self.bytes@.take(k as int),
            decreases self.bytes.len() - k,
        {
            bytes.push(self.bytes[k]);
            proof {
                assert(self.bytes@.take(k + 1) =~= self.bytes@.take(k as int).push(
                    self.bytes@[k as int],
                ));
            }
            k += 1;
        }
        proof {
            assert(self.bytes@.take(self.bytes.len() as int) =~= self.bytes@);
        }
        let source = match &self.source {
            Some(text) => Some(text.clone()),
            None => None,
        };
        FileEntry { bytes, source }
    }
}

impl FileEntry {
    /// The bytes of the file.
    pub closed spec fn content(&self) -> Seq<u8> {
        self.bytes@
    }

    /// The file as text, once it has been asked for as text.
    pub closed spec fn text(&self) -> Option<Seq<char>> {
        text_view(self.source)
    }

    /// A file of the given bytes, and of the given text if the text is known.
    pub fn new(bytes: Vec<u8>, source: Option<String>) -> (entry: Self)
        ensures
            entry.content() == bytes@,
            entry.text() == text_view(source),
    {
        Self { bytes, source }
    }

    /// The bytes of the file.
    pub fn bytes(&self) -> (bytes: &Vec<u8>)
        ensures
            bytes@ == self.content(),
    {
        &self.bytes
    }

    /// The file as text: the text that was made of it before where there is
    /// one, else the text that its bytes encode, without the byte order marks
    /// at its start, which is kept for the next time.
    pub fn source(&mut self) -> (text: Result<String, FileError>)
        ensures
            final(self).content() == old(self).content(),
            match old(self).text() {
                Some(known) => text matches Ok(text) && text@ == known && final(self).text()
                    == old(self).text(),
                None => if vstd::utf8::valid_utf8(old(self).content()) {
                    &&& text matches Ok(text)
                    &&& text@ == without_marks(vstd::utf8::decode_utf8(old(self).content()))
                    &&& final(self).text() == Some(text@)
                } else {
                    &&& text matches Err(e)
                    &&& e == FileError::InvalidUtf8
                    &&& final(self).text() is None
                },
            },
    {
        if let Some(known) = &self.source {
            return Ok(known.clone());
        }
        let contents = match text_of(&self.bytes) {
            Some(contents) => contents,
            None => {
                return Err(FileError::InvalidUtf8);
            },
        };
        let contents = strip_marks(contents.as_str());
        self.source = Some(contents.clone());
        Ok(contents)
    }
}

/// What is to be done to have a file.
#[derive(Debug, PartialEq, Eq)]
pub enum FilePlan {
    /// Nothing: the file was read before, and this is it.
    Cached(FileEntry),
    /// To have the package first; the file is in it.
    InPackage(PackageSpec),
    /// To read the file at the path.
    Read(String),
    /// Nothing: the file lies outside of what may be read.
    Denied,
}

/// Position of the first file of `files` that is named `key`.
pub open spec fn held_at(files: Seq<(FileKey, FileEntry)>, key: FileKeyView) -> Option<int>
    decreases files.len(),
{
    if files.len() == 0 {
        None
    } else if files[0].0@ == key {
        Some(0)
    } else {
        match held_at(files.skip(1), key) {
            Some(k) => Some(k + 1),
            None => None,
        }
    }
}

/// `held_at` finds a position that holds the name and nothing before it does,
/// or tells that no file is kept under the name.
proof fn lemma_held_at(files: Seq<(FileKey, FileEntry)>, key: FileKeyView)
    ensures
        match held_at(files, key) {
            Some(k) => {
                &&& 0 <= k < files.len()
                &&& files[k].0@ == key
                &&& forall|m: int| 0 <= m < k ==> (#[trigger] files[m]).0@ != key
            },
            None => forall|m: int| 0 <= m < files.len() ==> (#[trigger] files[m]).0@ != key,
        },
    decreases files.len(),
{
    if files.len() > 0 && files[0].0@ != key {
        let rest = files.skip(1);
        lemma_held_at(rest, key);
        match held_at(rest, key) {
            Some(k) => {
                assert forall|m: int| 0 <= m < k + 1 implies (#[trigger] files[m]).0@ != key by {
                    if m > 0 {
                        assert(rest[m - 1] == files[m]);
                    }
                }
            },
            None => {
                assert forall|m: int| 0 <= m < files.len() implies (#[trigger] files[m]).0@
                    != key by {
                    if m > 0 {
                        assert(rest[m - 1] == files[m]);
                    }
                }
            },
        }
    }
}

/// The surroundings of one page while the compiler renders it.
pub struct TypstEngine {
    /// Root path to which files will be resolved.
    root: String,
    /// The content of the page's source.
    source: String,
    /// What the page reads of the project and of itself.
    bindings: Value,
    /// The files that were read so far.
    files: Vec<(FileKey, FileEntry)>,
    /// Cache directory (e.g. where packages are downloaded to).
    cache_directory: String,
    /// Project package directory.
    ///
    /// Packages from the `loveletters` namespace are loaded from this directory.
    project_packages_directory: String,
}

/// Whether `read` may be called on every file.
pub open spec fn read_ready<R: Fn(&str) -> Loaded<String>>(read: R) -> bool {
    forall|file: &str| call_requires(read, (file,))
}

/// What is made of the reading of a page's source file `file`: a file that is
/// not there is a missing source, any other failure one of the file system.
/// Both name the file.
pub open spec fn source_of(file: Seq<char>, loaded: Loaded<String>) -> Result<
    Seq<char>,
    ErrorView,
> {
    match loaded {
        Loaded::Parsed(text) => Ok(text@),
        Loaded::NotFound(cause) => Err(
            ErrorView::NotFound { missing: EntityKind::TypstRoot, path: file },
        ),
        Loaded::Unreadable(cause) => Err(ErrorView::FileIO { path: Some(file), raw: cause@ }),
        Loaded::Malformed(cause) => Err(ErrorView::FileIO { path: Some(file), raw: cause@ }),
    }
}

/// The directory that fetched packages are kept in: the one that the
/// environment names where it names one, else the directory for temporary files.
pub open spec fn cache_directory_of(named: Option<String>, temp_dir: Seq<char>) -> Seq<char> {
    match named {
        Some(dir) => dir@,
        None => temp_dir,
    }
}

impl TypstEngine {
    /// Root path to which files will be resolved.
    pub closed spec fn root(&self) -> Seq<char> {
        self.root@
    }

    /// The content of the page's source.
    pub closed spec fn main_source(&self) -> Seq<char> {
        self.source@
    }

    /// What the page reads of the project and of itself.
    pub closed spec fn bindings(&self) -> ValueView {
        self.bindings@
    }

    /// The files that were read so far.
    pub closed spec fn files(&self) -> Seq<(FileKey, FileEntry)> {
        self.files@
    }

    /// Where packages are kept.
    pub closed spec fn places(&self) -> Places {
        Places { project_packages: self.project_packages_directory@, cache: self.cache_directory@ }
    }

    /// The surroundings of the page in `root_dir` whose source is `root_file`
    /// in it. The source is read by one call of `read`. Packages of the
    /// project lie in `project_packages_directory`; fetched packages are kept
    /// in `cache_override` where the environment names such a directory, else
    /// in `temp_dir`. No file has been read yet.
    pub fn new<R: Fn(&str) -> Loaded<String>>(
        root_dir: String,
        root_file: String,
        project_packages_directory: String,
        bindings: Value,
        cache_override: Option<String>,
        temp_dir: String,
        read: R,
    ) -> (made: Result<Self, Error>)
        requires
            read_ready(read),
        ensures
            exists|file: &str, loaded: Loaded<String>|
                {
                    &&& file@ == joined_path(root_dir@, root_file@)
                    &&& call_ensures(read, (file,), loaded)
                    &&& match source_of(file@, loaded) {
                        Ok(text) => {
                            &&& made matches Ok(engine)
                            &&& engine.root() == root_dir@
                            &&& engine.main_source() == text
                            &&& engine.bindings() == bindings@
                            &&& engine.files().len() == 0
                            &&& engine.places() == (Places {
                                project_packages: project_packages_directory@,
                                cache: cache_directory_of(cache_override, temp_dir@),
                            })
                        },
                        Err(e) => made matches Err(failure) && failure@ == e,
                    }
                },
    {
        let root_file = join(root_dir.as_str(), root_file.as_str());
        let at: &str = root_file.as_str();
        let loaded = read(at);
        let ghost seen = loaded;
        let root_src = match loaded {
            Loaded::Parsed(text) => text,
            Loaded::NotFound(cause) => {
                let made = Err(Error::NotFound { missing: EntityKind::TypstRoot, path: root_file });
                assert(call_ensures(read, (at,), seen));
                return made;
            },
            Loaded::Unreadable(cause) => {
                let made = Err(Error::FileIO { path: Some(root_file), raw: cause });
                assert(call_ensures(read, (at,), seen));
                return made;
            },
            Loaded::Malformed(cause) => {
                let made = Err(Error::FileIO { path: Some(root_file), raw: cause });
                assert(call_ensures(read, (at,), seen));
                return made;
            },
        };
        let cache_directory = match cache_override {
            Some(dir) => dir,
            None => temp_dir,
        };
        let made = Ok(
            Self {
                root: root_dir,
                source: root_src,
                bindings,
                files: Vec::new(),
                cache_directory,
                project_packages_directory,
            },
        );
        assert(call_ensures(read, (at,), seen));
        made
    }

    /// The content of the page's source.
    pub fn source(&self) -> (text: &str)
        ensures
            text@ == self.main_source(),
    {
        self.source.as_str()
    }

    /// What the page reads of the project and of itself.
    pub fn library_bindings(&self) -> (bindings: &Value)
        ensures
            bindings@ == self.bindings(),
    {
        &self.bindings
    }

    /// Position of the file named `id` among the files that were read.
    fn find(&self, id: &FileKey) -> (found: Option<usize>)
        ensures
            match found {
                Some(k) => held_at(self.files(), id@) == Some(k as int),
                None => held_at(self.files(), id@) is None,
            },
    {
        let mut k: usize = 0;
        while k < self.files.len()
            invariant
                k <= self.files.len(),
                forall|m: int| 0 <= m < k ==> (#[trigger] self.files@[m]).0@ != id@,
            decreases self.files.len() - k,
        {
            if self.files[k].0.same(id) {
                proof {
                    lemma_held_at(self.files(), id@);
                }
                return Some(k);
            }
            k += 1;
        }
        proof {
            lemma_held_at(self.files(), id@);
        }
        None
    }

    /// What is to be done to have the file named `id`. A file that was read
    /// before is handed out as it was kept. A file of a package waits for the
    /// package. A file of the project is read from below the root, unless its
    /// path leads out of the root.
    pub fn file(&self, id: &FileKey) -> (plan: FilePlan)
        ensures
            match held_at(self.files(), id@) {
                Some(k) => {
                    &&& plan matches FilePlan::Cached(entry)
                    &&& entry.content() == self.files()[k].1.content()
                    &&& entry.text() == self.files()[k].1.text()
                },
                None => match id.package {
                    Some(package) => plan matches FilePlan::InPackage(wanted) && wanted == package,
                    None => match resolved_path(id.vpath@, self.root()) {
                        Some(path) => plan matches FilePlan::Read(at) && at@ == path,
                        None => plan == FilePlan::Denied,
                    },
                },
            },
    {
        proof {
            lemma_held_at(self.files(), id@);
        }
        if let Some(k) = self.find(id) {
            return FilePlan::Cached(self.files[k].1.clone());
        }
        match &id.package {
            Some(package) => FilePlan::InPackage(package.clone()),
            None => match resolve(id.vpath.as_str(), self.root.as_str()) {
                Some(path) => FilePlan::Read(path),
                None => FilePlan::Denied,
            },
        }
    }

    /// Where the file named `id` lies once its package has been had in the
    /// directory `package_dir`; nowhere if its path leads out of the package.
    pub fn file_in_package(&self, id: &FileKey, package_dir: &str) -> (plan: FilePlan)
        ensures
            match resolved_path(id.vpath@, package_dir@) {
                Some(path) => plan matches FilePlan::Read(at) && at@ == path,
                None => plan == FilePlan::Denied,
            },
    {
        match resolve(id.vpath.as_str(), package_dir) {
            Some(path) => FilePlan::Read(path),
            None => FilePlan::Denied,
        }
    }

    /// Keeps the file named `id`, which was read as `content`, unless a file
    /// of that name is kept already, and hands out what is kept under the
    /// name. From now on the file is had without being read again.
    pub fn keep(&mut self, id: FileKey, content: Vec<u8>) -> (entry: FileEntry)
        ensures
            final(self).root() == old(self).root(),
            final(self).main_source() == old(self).main_source(),
            final(self).bindings() == old(self).bindings(),
            final(self).places() == old(self).places(),
            match held_at(old(self).files(), id@) {
                Some(k) => {
                    &&& final(self).files() == old(self).files()
                    &&& entry.content() == old(self).files()[k].1.content()
                    &&& entry.text() == old(self).files()[k].1.text()
                },
                None => {
                    &&& final(self).files().len() == old(self).files().len() + 1
                    &&& final(self).files().last().0 == id
                    &&& final(self).files().drop_last() == old(self).files()
                    &&& final(self).files().last().1.content() == content@
                    &&& final(self).files().last().1.text() is None
                    &&& entry.content() == content@
                    &&& entry.text() is None
                },
            },
            held_at(final(self).files(), id@) is Some,
    {
        proof {
            lemma_held_at(self.files(), id@);
        }
        if let Some(k) = self.find(&id) {
            return self.files[k].1.clone();
        }
        let entry = FileEntry::new(content, None);
        let copy = entry.clone();
        self.files.push((id, entry));
        proof {
            lemma_held_at(self.files(), id@);
            assert(self.files().drop_last() =~= old(self).files());
        }
        copy
    }

    /// How the lookup of a package of the project begins: with the question
    /// whether the project holds a package of that name.
    pub fn lookup_project_package(&self, package: &PackageSpec) -> (step: (Stage, Request))
        ensures
            step.0@ == StageView::ProjectPackage,
            step.1@ == RequestView::Probe(project_package_dir(self.places(), package@)),
    {
        let package_dir = join(self.project_packages_directory.as_str(), package.name.as_str());
        (Stage::ProjectPackage, Request::Probe(package_dir))
    }

    /// How the lookup of `package` begins.
    pub fn lookup_or_download_package(&self, package: &PackageSpec) -> (step: (Stage, Request))
        ensures
            (step.0@, step.1@) == first_step(self.places(), package@),
    {
        if package.namespace == "loveletters".to_owned() {
            return self.lookup_project_package(package);
        }
        let package_subdir = package.subdir();
        let path = join(self.cache_directory.as_str(), package_subdir.as_str());
        (Stage::Cache, Request::Probe(path))
    }

    /// The directory of the project's package `package`, in its version.
    fn version_dir(&self, package: &PackageSpec) -> (dir: String)
        ensures
            dir@ == project_version_dir(self.places(), package@),
    {
        let package_dir = join(self.project_packages_directory.as_str(), package.name.as_str());
        join(package_dir.as_str(), package.version.to_text().as_str())
    }

    /// The directory that the cache keeps `package` in.
    fn cache_dir(&self, package: &PackageSpec) -> (dir: String)
        ensures
            dir@ == cache_path(self.places(), package@),
    {
        join(self.cache_directory.as_str(), package.subdir().as_str())
    }

    /// The place of `package` in the cache.
    fn cached(&self, package: &PackageSpec) -> (entry: CacheEntry)
        ensures
            entry@ == downloaded(cache_path(self.places(), package@)),
    {
        CacheEntry { path: self.cache_dir(package), provenance: Provenance::Downloaded }
    }

    /// Why a request to the registry counts as failed, if it does.
    fn failure_of(response: Result<Status, String>) -> (failure: Option<String>)
        ensures
            text_view(failure) == fetch_failure(Reply::Response(response)@->Response_0),
    {
        match response {
            Err(cause) => Some(cause),
            Ok(status) => if http_successful(status.code) {
                None
            } else {
                let mut cause = "response returned unsuccessful status code ".to_owned();
                cause.append(status.text.as_str());
                Some(cause)
            },
        }
    }

    /// How the lookup of `package` goes on from `stage` once it is told `reply`.
    pub fn resume(&self, package: &PackageSpec, stage: Stage, reply: Reply) -> (step: (
        Stage,
        Request,
    ))
        ensures
            (step.0@, step.1@) == next_step(self.places(), package@, stage@, reply@),
    {
        match stage {
            Stage::ProjectPackage => match reply {
                Reply::Exists(held) => if held {
                    (Stage::ProjectVersion, Request::Probe(self.version_dir(package)))
                } else {
                    (Stage::Done, Request::Done(Err(PackageError::NotFound(package.clone()))))
                },
                _ => (Stage::Done, Request::Done(Err(PackageError::Other(None)))),
            },
            Stage::ProjectVersion => match reply {
                Reply::Exists(held) => if held {
                    (
                        Stage::Done,
                        Request::Done(
                            Ok(
                                CacheEntry {
                                    path: self.version_dir(package),
                                    provenance: Provenance::Vendored,
                                },
                            ),
                        ),
                    )
                } else {
                    (
                        Stage::Done,
                        Request::Done(
                            Err(PackageError::VersionNotFound(package.clone(), package.version)),
                        ),
                    )
                },
                _ => (Stage::Done, Request::Done(Err(PackageError::Other(None)))),
            },
            Stage::Cache => match reply {
                Reply::Exists(held) => if held {
                    (Stage::Done, Request::Done(Ok(self.cached(package))))
                } else {
                    (Stage::FirstFetch, Request::Get(package.url()))
                },
                _ => (Stage::Done, Request::Done(Err(PackageError::Other(None)))),
            },
            Stage::FirstFetch => match reply {
                Reply::Response(response) => match Self::failure_of(response) {
                    Some(cause) => (Stage::SecondFetch, Request::Get(package.url())),
                    None => (Stage::Body, Request::ReadBody),
                },
                _ => (Stage::Done, Request::Done(Err(PackageError::Other(None)))),
            },
            Stage::SecondFetch => match reply {
                Reply::Response(response) => match Self::failure_of(response) {
                    Some(cause) => (
                        Stage::Done,
                        Request::Done(Err(PackageError::NetworkFailed(Some(cause)))),
                    ),
                    None => (Stage::Body, Request::ReadBody),
                },
                _ => (Stage::Done, Request::Done(Err(PackageError::Other(None)))),
            },
            Stage::Body => match reply {
                Reply::Body(body) => match body {
                    Err(cause) => (
                        Stage::Done,
                        Request::Done(Err(PackageError::NetworkFailed(Some(cause)))),
                    ),
                    Ok(compressed_archive) => match gunzip(&compressed_archive) {
                        Err(cause) => (
                            Stage::Done,
                            Request::Done(Err(PackageError::MalformedArchive(Some(cause)))),
                        ),
                        Ok(raw_archive) => (
                            Stage::Unpack,
                            Request::Unpack { archive: raw_archive, into: self.cache_dir(package) },
                        ),
                    },
                },
                _ => (Stage::Done, Request::Done(Err(PackageError::Other(None)))),
            },
            Stage::Unpack => match reply {
                Reply::Unpacked(outcome) => match outcome {
                    Ok(()) => (Stage::Done, Request::Done(Ok(self.cached(package)))),
                    Err(cause) => {
                        let path = self.cache_dir(package);
                        (Stage::Cleanup(cause), Request::RemoveDir(path))
                    },
                },
                _ => (Stage::Done, Request::Done(Err(PackageError::Other(None)))),
            },
            Stage::Cleanup(cause) => (
                Stage::Done,
                Request::Done(Err(PackageError::MalformedArchive(Some(cause)))),
            ),
            Stage::Done => (Stage::Done, Request::Done(Err(PackageError::Other(None)))),
        }
    }
}

} // verus!
