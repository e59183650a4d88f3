//! The content tree: sections holding an index page, leaf pages and sub-sections,
//! and the two ways to carry a tree over into another one of the same shape.

use vstd::prelude::*;
use crate::error::Error;
use crate::slug::Slug;
use crate::slug_map::{
    distinct_slugs, lemma_named_at, lemma_position_of, lemma_position_of_same_slugs,
    lemma_put_new, position_of, put, SlugMap,
};
use crate::value::{Dict, IntoValue, Value, ValueView};

verus! {

/// A node of the content tree: its own index page, its leaf pages and the
/// sections below it, both filed under their slugs.
pub struct Section<I, L> {
    slug: Slug,
    index: I,
    pages: Vec<(Slug, L)>,
    sub_sections: Vec<(Slug, Section<I, L>)>,
}

/// Whether the index transformer `f` may be called on `entry` at `path`.
pub open spec fn index_callable<I, J, F: Fn(&[Slug], I) -> Result<J, Error>>(
    f: F,
    path: Seq<Slug>,
    entry: I,
) -> bool {
    forall|p: &[Slug]| p@ == path ==> call_requires(f, (p, entry))
}

/// Whether the leaf transformer `f` may be called on `entry`, filed under `slug`, at `path`.
pub open spec fn leaf_callable<L, M, F: Fn(&[Slug], &Slug, L) -> Result<M, Error>>(
    f: F,
    path: Seq<Slug>,
    slug: Slug,
    entry: L,
) -> bool {
    forall|p: &[Slug]| p@ == path ==> call_requires(f, (p, &slug, entry))
}

/// Whether `out` is a result that the index transformer `f` can give for `entry` at `path`.
pub open spec fn index_outcome<I, J, F: Fn(&[Slug], I) -> Result<J, Error>>(
    f: F,
    path: Seq<Slug>,
    entry: I,
    out: Result<J, Error>,
) -> bool {
    exists|p: &[Slug]| p@ == path && call_ensures(f, (p, entry), out)
}

/// Whether `out` is a result that the leaf transformer `f` can give for `entry`,
/// filed under `slug`, at `path`.
pub open spec fn leaf_outcome<L, M, F: Fn(&[Slug], &Slug, L) -> Result<M, Error>>(
    f: F,
    path: Seq<Slug>,
    slug: Slug,
    entry: L,
    out: Result<M, Error>,
) -> bool {
    exists|p: &[Slug]| p@ == path && call_ensures(f, (p, &slug, entry), out)
}

/// What the index transformer `f` asks for, as a predicate on path and entry.
pub open spec fn index_ready<I, J, F: Fn(&[Slug], I) -> Result<J, Error>>(f: F) -> spec_fn(
    Seq<Slug>,
    I,
) -> bool {
    |path: Seq<Slug>, entry: I| index_callable(f, path, entry)
}

/// What the leaf transformer `f` asks for, as a predicate on path, slug and entry.
pub open spec fn leaf_ready<L, M, F: Fn(&[Slug], &Slug, L) -> Result<M, Error>>(f: F) -> spec_fn(
    Seq<Slug>,
    Slug,
    L,
) -> bool {
    |path: Seq<Slug>, slug: Slug, entry: L| leaf_callable(f, path, slug, entry)
}

/// The results that the index transformer `f` can give, as a relation.
pub open spec fn index_step<I, J, F: Fn(&[Slug], I) -> Result<J, Error>>(f: F) -> spec_fn(
    Seq<Slug>,
    I,
    Result<J, Error>,
) -> bool {
    |path: Seq<Slug>, entry: I, out: Result<J, Error>| index_outcome(f, path, entry, out)
}

/// The results that the leaf transformer `f` can give, as a relation.
pub open spec fn leaf_step<L, M, F: Fn(&[Slug], &Slug, L) -> Result<M, Error>>(f: F) -> spec_fn(
    Seq<Slug>,
    Slug,
    L,
    Result<M, Error>,
) -> bool {
    |path: Seq<Slug>, slug: Slug, entry: L, out: Result<M, Error>|
        leaf_outcome(f, path, slug, entry, out)
}

/// The tree `dst` is what a walk of `src`, which lies at `path`, gives where every
/// step succeeds: both have the same slugs in the same places, the index of each
/// section of `dst` is a success of `si` on the index of `src` there and on the
/// path to that section, and each leaf of `dst` is a success of `sl` on the leaf
/// of `src` there, its slug and the path to the section that holds it. The path
/// to a section below another is the other's path and then the slug under which
/// it is filed.
pub open spec fn walk_ok<I, L, J, M>(
    src: Section<I, L>,
    dst: Section<J, M>,
    path: Seq<Slug>,
    si: spec_fn(Seq<Slug>, I, Result<J, Error>) -> bool,
    sl: spec_fn(Seq<Slug>, Slug, L, Result<M, Error>) -> bool,
) -> bool
    decreases src,
{
    &&& dst.spec_slug() == src.spec_slug()
    &&& si(path, src.spec_index(), Ok(dst.spec_index()))
    &&& dst.leaves().len() == src.leaves().len()
    &&& forall|k: int|
        0 <= k < src.leaves().len() ==> {
            &&& (#[trigger] dst.leaves()[k]).0 == src.leaves()[k].0
            &&& sl(path, src.leaves()[k].0, src.leaves()[k].1, Ok(dst.leaves()[k].1))
        }
    &&& dst.children().len() == src.children().len()
    &&& forall|k: int|
        0 <= k < src.children().len() ==> {
            &&& (#[trigger] dst.children()[k]).0 == src.children()[k].0
            &&& walk_ok(
                src.children()[k].1,
                dst.children()[k].1,
                path.push(src.children()[k].0),
                si,
                sl,
            )
        }
}

/// Every step of a walk of `src`, which lies at `path`, can succeed.
pub open spec fn walk_passes<I, L, J, M>(
    src: Section<I, L>,
    path: Seq<Slug>,
    si: spec_fn(Seq<Slug>, I, Result<J, Error>) -> bool,
    sl: spec_fn(Seq<Slug>, Slug, L, Result<M, Error>) -> bool,
) -> bool {
    exists|dst: Section<J, M>| walk_ok(src, dst, path, si, sl)
}

/// The index of `src` can be transformed.
pub open spec fn index_passes<I, L, J>(
    src: Section<I, L>,
    path: Seq<Slug>,
    si: spec_fn(Seq<Slug>, I, Result<J, Error>) -> bool,
) -> bool {
    exists|made: J| si(path, src.spec_index(), Ok(made))
}

/// The `k`-th leaf of `src` can be transformed.
pub open spec fn leaf_passes<I, L, M>(
    src: Section<I, L>,
    k: int,
    path: Seq<Slug>,
    sl: spec_fn(Seq<Slug>, Slug, L, Result<M, Error>) -> bool,
) -> bool {
    exists|made: M| sl(path, src.leaves()[k].0, src.leaves()[k].1, Ok(made))
}

/// The `k`-th section below `src` can be walked with success.
pub open spec fn child_passes<I, L, J, M>(
    src: Section<I, L>,
    k: int,
    path: Seq<Slug>,
    si: spec_fn(Seq<Slug>, I, Result<J, Error>) -> bool,
    sl: spec_fn(Seq<Slug>, Slug, L, Result<M, Error>) -> bool,
) -> bool {
    walk_passes(src.children()[k].1, path.push(src.children()[k].0), si, sl)
}

/// The error `e` is the first failure of a walk of `src`, which lies at `path`.
/// A walk takes a section's index first, then its leaves in their order, then the
/// sections below it in their order, each of them in the same way; `e` comes from
/// one of these steps, and every step before it can succeed.
pub open spec fn walk_err<I, L, J, M>(
    src: Section<I, L>,
    e: Error,
    path: Seq<Slug>,
    si: spec_fn(Seq<Slug>, I, Result<J, Error>) -> bool,
    sl: spec_fn(Seq<Slug>, Slug, L, Result<M, Error>) -> bool,
) -> bool
    decreases src,
{
    ||| si(path, src.spec_index(), Err(e))
    ||| {
        &&& index_passes(src, path, si)
        &&& exists|k: int|
            {
                &&& 0 <= k < src.leaves().len()
                &&& #[trigger] sl(path, src.leaves()[k].0, src.leaves()[k].1, Err(e))
                &&& forall|m: int| 0 <= m < k ==> #[trigger] leaf_passes(src, m, path, sl)
            }
    }
    ||| {
        &&& index_passes(src, path, si)
        &&& forall|m: int| 0 <= m < src.leaves().len() ==> #[trigger] leaf_passes(src, m, path, sl)
        &&& exists|k: int|
            #![trigger src.children()[k]]
            {
                &&& 0 <= k < src.children().len()
                &&& walk_err(
                    src.children()[k].1,
                    e,
                    path.push(src.children()[k].0),
                    si,
                    sl,
                )
                &&& forall|m: int| 0 <= m < k ==> #[trigger] child_passes(src, m, path, si, sl)
            }
    }
}

/// Every step of a walk of `src`, which lies at `path`, meets what its
/// transformer asks for: `qi` for the indexes, `ql` for the leaves.
pub open spec fn walk_callable<I, L>(
    src: Section<I, L>,
    path: Seq<Slug>,
    qi: spec_fn(Seq<Slug>, I) -> bool,
    ql: spec_fn(Seq<Slug>, Slug, L) -> bool,
) -> bool
    decreases src,
{
    &&& qi(path, src.spec_index())
    &&& forall|k: int|
        0 <= k < src.leaves().len() ==> ql(
            path,
            (#[trigger] src.leaves()[k]).0,
            src.leaves()[k].1,
        )
    &&& forall|k: int|
        0 <= k < src.children().len() ==> walk_callable(
            (#[trigger] src.children()[k]).1,
            path.push(src.children()[k].0),
            qi,
            ql,
        )
}

/// What the index transformer `f` of a plain map asks for; the path plays no part.
pub open spec fn map_index_ready<I, J, F: Fn(I) -> Result<J, Error>>(f: F) -> spec_fn(
    Seq<Slug>,
    I,
) -> bool {
    |path: Seq<Slug>, entry: I| call_requires(f, (entry,))
}

/// What the leaf transformer `f` of a plain map asks for; path and slug play no part.
pub open spec fn map_leaf_ready<L, M, F: Fn(L) -> Result<M, Error>>(f: F) -> spec_fn(
    Seq<Slug>,
    Slug,
    L,
) -> bool {
    |path: Seq<Slug>, slug: Slug, entry: L| call_requires(f, (entry,))
}

/// The results that the index transformer `f` of a plain map can give, as a relation.
pub open spec fn map_index_step<I, J, F: Fn(I) -> Result<J, Error>>(f: F) -> spec_fn(
    Seq<Slug>,
    I,
    Result<J, Error>,
) -> bool {
    |path: Seq<Slug>, entry: I, out: Result<J, Error>| call_ensures(f, (entry,), out)
}

/// The results that the leaf transformer `f` of a plain map can give, as a relation.
pub open spec fn map_leaf_step<L, M, F: Fn(L) -> Result<M, Error>>(f: F) -> spec_fn(
    Seq<Slug>,
    Slug,
    L,
    Result<M, Error>,
) -> bool {
    |path: Seq<Slug>, slug: Slug, entry: L, out: Result<M, Error>| call_ensures(f, (entry,), out)
}

/// Two trees have the same shape: the same slugs at the same places, with the
/// same nesting, whatever their pages hold.
pub open spec fn same_shape<I, L, J, M>(a: Section<I, L>, b: Section<J, M>) -> bool
    decreases a,
{
    &&& b.spec_slug() == a.spec_slug()
    &&& b.leaves().len() == a.leaves().len()
    &&& forall|k: int| 0 <= k < a.leaves().len() ==> (#[trigger] b.leaves()[k]).0 == a.leaves()[k].0
    &&& b.children().len() == a.children().len()
    &&& forall|k: int|
        0 <= k < a.children().len() ==> {
            &&& (#[trigger] b.children()[k]).0 == a.children()[k].0
            &&& same_shape(a.children()[k].1, b.children()[k].1)
        }
}

/// Some step of a walk of `src`, which lies at `path`, cannot succeed: the
/// transformer of an index or of a leaf has no success to give there.
pub open spec fn walk_blocked<I, L, J, M>(
    src: Section<I, L>,
    path: Seq<Slug>,
    si: spec_fn(Seq<Slug>, I, Result<J, Error>) -> bool,
    sl: spec_fn(Seq<Slug>, Slug, L, Result<M, Error>) -> bool,
) -> bool
    decreases src,
{
    ||| !index_passes(src, path, si)
    ||| exists|k: int| 0 <= k < src.leaves().len() && !#[trigger] leaf_passes(src, k, path, sl)
    ||| exists|k: int|
        #![trigger src.children()[k]]
        0 <= k < src.children().len() && walk_blocked(
            src.children()[k].1,
            path.push(src.children()[k].0),
            si,
            sl,
        )
}

/// A walk that succeeded keeps the shape of the tree.
pub proof fn lemma_walk_keeps_shape<I, L, J, M>(
    src: Section<I, L>,
    dst: Section<J, M>,
    path: Seq<Slug>,
    si: spec_fn(Seq<Slug>, I, Result<J, Error>) -> bool,
    sl: spec_fn(Seq<Slug>, Slug, L, Result<M, Error>) -> bool,
)
    requires
        walk_ok(src, dst, path, si, sl),
    ensures
        same_shape(src, dst),
    decreases src,
{
    assert forall|k: int| 0 <= k < src.children().len() implies same_shape(
        src.children()[k].1,
        (#[trigger] dst.children()[k]).1,
    ) by {
        lemma_walk_keeps_shape(
            src.children()[k].1,
            dst.children()[k].1,
            path.push(src.children()[k].0),
            si,
            sl,
        );
    }
}

/// A tree of the same shape as a valid tree is valid.
pub proof fn lemma_same_shape_wf<I, L, J, M>(src: Section<I, L>, dst: Section<J, M>)
    requires
        same_shape(src, dst),
        src.wf(),
    ensures
        dst.wf(),
    decreases src,
{
    assert forall|i: int, j: int| 0 <= i < j < dst.leaves().len() implies (
    #[trigger] dst.leaves()[i]).0@ != (#[trigger] dst.leaves()[j]).0@ by {
        assert(src.leaves()[i].0@ != src.leaves()[j].0@);
    }
    assert forall|i: int, j: int| 0 <= i < j < dst.children().len() implies (
    #[trigger] dst.children()[i]).0@ != (#[trigger] dst.children()[j]).0@ by {
        assert(src.children()[i].0@ != src.children()[j].0@);
    }
    assert forall|k: int| 0 <= k < dst.children().len() implies (
    #[trigger] dst.children()[k]).1.wf() by {
        assert(src.children()[k].1.wf());
        lemma_same_shape_wf(src.children()[k].1, dst.children()[k].1);
    }
}

/// Where some step of a walk cannot succeed, no tree comes out of the walk.
pub proof fn lemma_blocked_walk_fails<I, L, J, M>(
    src: Section<I, L>,
    dst: Section<J, M>,
    path: Seq<Slug>,
    si: spec_fn(Seq<Slug>, I, Result<J, Error>) -> bool,
    sl: spec_fn(Seq<Slug>, Slug, L, Result<M, Error>) -> bool,
)
    requires
        walk_blocked(src, path, si, sl),
    ensures
        !walk_ok(src, dst, path, si, sl),
    decreases src,
{
    if walk_ok(src, dst, path, si, sl) {
        assert(si(path, src.spec_index(), Ok(dst.spec_index())));
        assert(index_passes(src, path, si));
        if exists|k: int| 0 <= k < src.leaves().len() && !#[trigger] leaf_passes(src, k, path, sl) {
            let k = choose|k: int|
                0 <= k < src.leaves().len() && !#[trigger] leaf_passes(src, k, path, sl);
            assert(sl(path, src.leaves()[k].0, src.leaves()[k].1, Ok(dst.leaves()[k].1)));
        } else {
            let k = choose|k: int|
                #![trigger src.children()[k]]
                0 <= k < src.children().len() && walk_blocked(
                    src.children()[k].1,
                    path.push(src.children()[k].0),
                    si,
                    sl,
                );
            lemma_blocked_walk_fails(
                src.children()[k].1,
                dst.children()[k].1,
                path.push(src.children()[k].0),
                si,
                sl,
            );
            assert(dst.children()[k].0 == src.children()[k].0);
        }
    }
}

/// Where no step can fail, a walk does not fail: it ends in a tree, which has
/// the shape of the tree that was walked.
pub proof fn lemma_unfailing_walk_passes<I, L, J, M>(
    src: Section<I, L>,
    e: Error,
    path: Seq<Slug>,
    si: spec_fn(Seq<Slug>, I, Result<J, Error>) -> bool,
    sl: spec_fn(Seq<Slug>, Slug, L, Result<M, Error>) -> bool,
)
    requires
        forall|p: Seq<Slug>, entry: I, failure: Error| !#[trigger] si(p, entry, Err(failure)),
        forall|p: Seq<Slug>, slug: Slug, entry: L, failure: Error|
            !#[trigger] sl(p, slug, entry, Err(failure)),
    ensures
        !walk_err(src, e, path, si, sl),
    decreases src,
{
    if walk_err(src, e, path, si, sl) {
        assert(!si(path, src.spec_index(), Err(e)));
        let failing_leaf = exists|k: int|
            {
                &&& 0 <= k < src.leaves().len()
                &&& #[trigger] sl(path, src.leaves()[k].0, src.leaves()[k].1, Err(e))
                &&& forall|m: int| 0 <= m < k ==> #[trigger] leaf_passes(src, m, path, sl)
            };
        if !failing_leaf {
            let k = choose|k: int|
                #![trigger src.children()[k]]
                {
                    &&& 0 <= k < src.children().len()
                    &&& walk_err(src.children()[k].1, e, path.push(src.children()[k].0), si, sl)
                    &&& forall|m: int|
                        0 <= m < k ==> #[trigger] child_passes(src, m, path, si, sl)
                };
            lemma_unfailing_walk_passes(
                src.children()[k].1,
                e,
                path.push(src.children()[k].0),
                si,
                sl,
            );
        }
    }
}

/// A walk that succeeded under two relations succeeded under any two that hold
/// wherever the first two do.
pub proof fn lemma_walk_ok_weaken<I, L, J, M>(
    src: Section<I, L>,
    dst: Section<J, M>,
    path: Seq<Slug>,
    si: spec_fn(Seq<Slug>, I, Result<J, Error>) -> bool,
    sl: spec_fn(Seq<Slug>, Slug, L, Result<M, Error>) -> bool,
    ti: spec_fn(Seq<Slug>, I, Result<J, Error>) -> bool,
    tl: spec_fn(Seq<Slug>, Slug, L, Result<M, Error>) -> bool,
)
    requires
        walk_ok(src, dst, path, si, sl),
        forall|p: Seq<Slug>, entry: I, out: Result<J, Error>| #[trigger]
            si(p, entry, out) ==> ti(p, entry, out),
        forall|p: Seq<Slug>, slug: Slug, entry: L, out: Result<M, Error>| #[trigger]
            sl(p, slug, entry, out) ==> tl(p, slug, entry, out),
    ensures
        walk_ok(src, dst, path, ti, tl),
    decreases src,
{
    assert forall|k: int| 0 <= k < src.children().len() implies walk_ok(
        src.children()[k].1,
        (#[trigger] dst.children()[k]).1,
        path.push(src.children()[k].0),
        ti,
        tl,
    ) by {
        lemma_walk_ok_weaken(
            src.children()[k].1,
            dst.children()[k].1,
            path.push(src.children()[k].0),
            si,
            sl,
            ti,
            tl,
        );
    }
}

/// A walk that failed with `e` under two relations failed with `e` under any two
/// that hold wherever the first two do.
pub proof fn lemma_walk_err_weaken<I, L, J, M>(
    src: Section<I, L>,
    e: Error,
    path: Seq<Slug>,
    si: spec_fn(Seq<Slug>, I, Result<J, Error>) -> bool,
    sl: spec_fn(Seq<Slug>, Slug, L, Result<M, Error>) -> bool,
    ti: spec_fn(Seq<Slug>, I, Result<J, Error>) -> bool,
    tl: spec_fn(Seq<Slug>, Slug, L, Result<M, Error>) -> bool,
)
    requires
        walk_err(src, e, path, si, sl),
        forall|p: Seq<Slug>, entry: I, out: Result<J, Error>| #[trigger]
            si(p, entry, out) ==> ti(p, entry, out),
        forall|p: Seq<Slug>, slug: Slug, entry: L, out: Result<M, Error>| #[trigger]
            sl(p, slug, entry, out) ==> tl(p, slug, entry, out),
    ensures
        walk_err(src, e, path, ti, tl),
    decreases src,
{
    if !si(path, src.spec_index(), Err(e)) {
        assert(index_passes(src, path, si));
        let made = choose|made: J| si(path, src.spec_index(), Ok(made));
        assert(ti(path, src.spec_index(), Ok(made)));
        assert(index_passes(src, path, ti));
        assert forall|m: int|
            0 <= m < src.leaves().len() && leaf_passes(
                src,
                m,
                path,
                sl,
            ) implies #[trigger] leaf_passes(src, m, path, tl) by {
            let made = choose|made: M| sl(path, src.leaves()[m].0, src.leaves()[m].1, Ok(made));
            assert(tl(path, src.leaves()[m].0, src.leaves()[m].1, Ok(made)));
        }
        if exists|k: int|
            {
                &&& 0 <= k < src.leaves().len()
                &&& #[trigger] sl(path, src.leaves()[k].0, src.leaves()[k].1, Err(e))
                &&& forall|m: int| 0 <= m < k ==> #[trigger] leaf_passes(src, m, path, sl)
            } {
            let k = choose|k: int|
                {
                    &&& 0 <= k < src.leaves().len()
                    &&& #[trigger] sl(path, src.leaves()[k].0, src.leaves()[k].1, Err(e))
                    &&& forall|m: int| 0 <= m < k ==> #[trigger] leaf_passes(src, m, path, sl)
                };
            assert(tl(path, src.leaves()[k].0, src.leaves()[k].1, Err(e)));
            assert forall|m: int| 0 <= m < k implies #[trigger] leaf_passes(src, m, path, tl) by {
                assert(leaf_passes(src, m, path, sl));
            }
        } else {
            let k = choose|k: int|
                #![trigger src.children()[k]]
                {
                    &&& 0 <= k < src.children().len()
                    &&& walk_err(src.children()[k].1, e, path.push(src.children()[k].0), si, sl)
                    &&& forall|m: int|
                        0 <= m < k ==> #[trigger] child_passes(src, m, path, si, sl)
                };
            lemma_walk_err_weaken(
                src.children()[k].1,
                e,
                path.push(src.children()[k].0),
                si,
                sl,
                ti,
                tl,
            );
            assert forall|m: int| 0 <= m < src.leaves().len() implies #[trigger] leaf_passes(
                src,
                m,
                path,
                tl,
            ) by {
                assert(leaf_passes(src, m, path, sl));
            }
            assert forall|m: int| 0 <= m < k implies #[trigger] child_passes(
                src,
                m,
                path,
                ti,
                tl,
            ) by {
                assert(child_passes(src, m, path, si, sl));
                let made = choose|made: Section<J, M>|
                    walk_ok(src.children()[m].1, made, path.push(src.children()[m].0), si, sl);
                lemma_walk_ok_weaken(
                    src.children()[m].1,
                    made,
                    path.push(src.children()[m].0),
                    si,
                    sl,
                    ti,
                    tl,
                );
            }
        }
    }
}

/// A tree whose every step meets two predicates meets any two that hold
/// wherever the first two do.
pub proof fn lemma_walk_callable_weaken<I, L>(
    src: Section<I, L>,
    path: Seq<Slug>,
    qi: spec_fn(Seq<Slug>, I) -> bool,
    ql: spec_fn(Seq<Slug>, Slug, L) -> bool,
    ri: spec_fn(Seq<Slug>, I) -> bool,
    rl: spec_fn(Seq<Slug>, Slug, L) -> bool,
)
    requires
        walk_callable(src, path, qi, ql),
        forall|p: Seq<Slug>, entry: I| #[trigger] qi(p, entry) ==> ri(p, entry),
        forall|p: Seq<Slug>, slug: Slug, entry: L| #[trigger]
            ql(p, slug, entry) ==> rl(p, slug, entry),
    ensures
        walk_callable(src, path, ri, rl),
    decreases src,
{
    assert forall|k: int| 0 <= k < src.children().len() implies walk_callable(
        (#[trigger] src.children()[k]).1,
        path.push(src.children()[k].0),
        ri,
        rl,
    ) by {
        lemma_walk_callable_weaken(
            src.children()[k].1,
            path.push(src.children()[k].0),
            qi,
            ql,
            ri,
            rl,
        );
    }
}

/// Transformers that ask for nothing can walk any tree.
pub proof fn lemma_walk_callable_total<I, L>(
    src: Section<I, L>,
    path: Seq<Slug>,
    qi: spec_fn(Seq<Slug>, I) -> bool,
    ql: spec_fn(Seq<Slug>, Slug, L) -> bool,
)
    requires
        forall|p: Seq<Slug>, entry: I| #[trigger] qi(p, entry),
        forall|p: Seq<Slug>, slug: Slug, entry: L| #[trigger] ql(p, slug, entry),
    ensures
        walk_callable(src, path, qi, ql),
    decreases src,
{
    assert forall|k: int| 0 <= k < src.children().len() implies walk_callable(
        (#[trigger] src.children()[k]).1,
        path.push(src.children()[k].0),
        qi,
        ql,
    ) by {
        lemma_walk_callable_total(src.children()[k].1, path.push(src.children()[k].0), qi, ql);
    }
}

/// The texts of the slugs of a path, in order.
pub open spec fn path_texts(path: Seq<Slug>) -> Seq<Seq<char>> {
    path.map_values(|slug: Slug| slug@)
}

/// The section that is reached from `top` by going down along `route`, one
/// section for each text of `route`: the one filed under that text.
pub open spec fn section_at<I, L>(top: Section<I, L>, route: Seq<Seq<char>>) -> Option<
    Section<I, L>,
>
    decreases route.len(),
{
    if route.len() == 0 {
        Some(top)
    } else {
        match position_of(top.children(), route[0]) {
            Some(k) => section_at(top.children()[k].1, route.skip(1)),
            None => None,
        }
    }
}

/// The path that a walk hands to the transformers is the way down from where
/// the walk began. If a walk that began at `base` carried `src` over into `dst`,
/// then along every route that leads to a section of `src` there is a section
/// of `dst`, and the two are related as by a walk that began at a path whose
/// texts are those of `base` followed by the route. So the index of the section
/// went through the index transformer with that path, and each of its leaves
/// through the leaf transformer with that path and the leaf's slug. For a walk
/// from the top of a tree, `base` is empty and the path is the route itself.
pub proof fn lemma_walk_paths<I, L, J, M>(
    src: Section<I, L>,
    dst: Section<J, M>,
    base: Seq<Slug>,
    route: Seq<Seq<char>>,
    si: spec_fn(Seq<Slug>, I, Result<J, Error>) -> bool,
    sl: spec_fn(Seq<Slug>, Slug, L, Result<M, Error>) -> bool,
)
    requires
        walk_ok(src, dst, base, si, sl),
        section_at(src, route) is Some,
    ensures
        section_at(dst, route) is Some,
        exists|path: Seq<Slug>|
            {
                &&& #[trigger] path_texts(path) == path_texts(base) + route
                &&& walk_ok(
                    section_at(src, route).unwrap(),
                    section_at(dst, route).unwrap(),
                    path,
                    si,
                    sl,
                )
            },
    decreases route.len(),
{
    if route.len() == 0 {
        assert(path_texts(base) =~= path_texts(base) + route);
    } else {
        lemma_position_of(src.children(), route[0]);
        lemma_position_of_same_slugs(src.children(), dst.children(), route[0]);
        let k = position_of(src.children(), route[0]).unwrap();
        let slug = src.children()[k].0;
        assert(dst.children()[k].0 == slug);
        let below = base.push(slug);
        lemma_walk_paths(src.children()[k].1, dst.children()[k].1, below, route.skip(1), si, sl);
        let path = choose|path: Seq<Slug>|
            {
                &&& #[trigger] path_texts(path) == path_texts(below) + route.skip(1)
                &&& walk_ok(
                    section_at(src.children()[k].1, route.skip(1)).unwrap(),
                    section_at(dst.children()[k].1, route.skip(1)).unwrap(),
                    path,
                    si,
                    sl,
                )
            };
        assert(path_texts(below) + route.skip(1) =~= path_texts(base) + route);
    }
}

/// The values of the first `n` pages of `leaves`, each under its slug; where two
/// pages share a slug, the later one has taken the place of the earlier.
pub open spec fn leaves_dict<L: IntoValue>(leaves: Seq<(Slug, L)>, n: nat) -> Seq<
    (Seq<char>, ValueView),
>
    decreases n,
{
    if n == 0 || n > leaves.len() {
        Seq::empty()
    } else {
        put(leaves_dict(leaves, (n - 1) as nat), leaves[n - 1].0@, leaves[n - 1].1.value())
    }
}

/// The values of the first `n` sections below `section`, each under its slug.
pub open spec fn children_dict<I: IntoValue, L: IntoValue>(section: Section<I, L>, n: nat) -> Seq<
    (Seq<char>, ValueView),
>
    decreases section, n,
{
    if n == 0 || n > section.children().len() {
        Seq::empty()
    } else {
        put(
            children_dict(section, (n - 1) as nat),
            section.children()[n - 1].0@,
            ValueView::Dict(section_dict(section.children()[n - 1].1)),
        )
    }
}

/// A tree as named values: the value of a section's index page under `index`,
/// those of its leaf pages under `pages`, each under its slug, and the sections
/// below it under `subsections`, each under its slug and in this same form.
pub open spec fn section_dict<I: IntoValue, L: IntoValue>(section: Section<I, L>) -> Seq<
    (Seq<char>, ValueView),
>
    decreases section, section.children().len() + 1,
{
    seq![
        ("index"@, section.spec_index().value()),
        ("pages"@, ValueView::Dict(leaves_dict(section.leaves(), section.leaves().len()))),
        (
            "subsections"@,
            ValueView::Dict(children_dict(section, section.children().len())),
        ),
    ]
}

/// Where no two leaf pages share a slug, their values are listed one for one,
/// in the order of the pages.
pub proof fn lemma_leaves_dict_lists_all<L: IntoValue>(leaves: Seq<(Slug, L)>, n: nat)
    requires
        distinct_slugs(leaves),
        n <= leaves.len(),
    ensures
        leaves_dict(leaves, n).len() == n,
        forall|k: int|
            0 <= k < n ==> #[trigger] leaves_dict(leaves, n)[k] == (
                leaves[k].0@,
                leaves[k].1.value(),
            ),
    decreases n,
{
    if n > 0 {
        let before = leaves_dict(leaves, (n - 1) as nat);
        lemma_leaves_dict_lists_all(leaves, (n - 1) as nat);
        assert forall|m: int| 0 <= m < before.len() implies (#[trigger] before[m]).0 != leaves[n
            - 1].0@ by {
            assert(leaves[m].0@ != leaves[n - 1].0@);
        }
        lemma_put_new(before, leaves[n - 1].0@, leaves[n - 1].1.value());
    }
}

/// Where no two sections below a section share a slug, they are listed one
/// for one, in their order.
pub proof fn lemma_children_dict_lists_all<I: IntoValue, L: IntoValue>(
    section: Section<I, L>,
    n: nat,
)
    requires
        distinct_slugs(section.children()),
        n <= section.children().len(),
    ensures
        children_dict(section, n).len() == n,
        forall|k: int|
            0 <= k < n ==> #[trigger] children_dict(section, n)[k] == (
                section.children()[k].0@,
                ValueView::Dict(section_dict(section.children()[k].1)),
            ),
    decreases n,
{
    if n > 0 {
        let before = children_dict(section, (n - 1) as nat);
        lemma_children_dict_lists_all(section, (n - 1) as nat);
        assert forall|m: int| 0 <= m < before.len() implies (#[trigger] before[m]).0
            != section.children()[n - 1].0@ by {
            assert(section.children()[m].0@ != section.children()[n - 1].0@);
        }
        lemma_put_new(
            before,
            section.children()[n - 1].0@,
            ValueView::Dict(section_dict(section.children()[n - 1].1)),
        );
    }
}

/// The path of a section filed under `slug` below the section at `path`.
fn child_path(path: &Vec<Slug>, slug: &Slug) -> (longer: Vec<Slug>)
    ensures
        longer@ == path@.push(*slug),
{
    let mut longer: Vec<Slug> = Vec::new();
    let mut k: usize = 0;
    while k < path.len()
        invariant
            k <= path.len(),
            longer@ == path@.take(k as int),
        decreases path.len() - k,
    {
        longer.push(path[k].clone());
        proof {
            assert(path@.take(k + 1) =~= path@.take(k as int).push(path@[k as int]));
        }
        k += 1;
    }
    proof {
        assert(path@.take(path.len() as int) =~= path@);
    }
    longer.push(slug.clone());
    longer
}

impl<I, L> Section<I, L> {
    /// The slug under which the section is filed.
    pub closed spec fn spec_slug(self) -> Slug {
        self.slug
    }

    /// The section's own index page.
    pub closed spec fn spec_index(self) -> I {
        self.index
    }

    /// The leaf pages of the section with their slugs, in order.
    pub closed spec fn leaves(self) -> Seq<(Slug, L)> {
        self.pages@
    }

    /// The sections right below the section with their slugs, in order.
    pub closed spec fn children(self) -> Seq<(Slug, Section<I, L>)> {
        self.sub_sections@
    }

    /// Validity of a tree: in no section two leaves share a slug, nor two sections below it.
    pub open spec fn wf(self) -> bool
        decreases self,
    {
        &&& distinct_slugs(self.leaves())
        &&& distinct_slugs(self.children())
        &&& forall|k: int|
            0 <= k < self.children().len() ==> (#[trigger] self.children()[k]).1.wf()
    }

    /// A section of the given parts.
    pub fn new(
        slug: Slug,
        index: I,
        pages: SlugMap<L>,
        sub_sections: SlugMap<Section<I, L>>,
    ) -> (section: Self)
        ensures
            section.spec_slug() == slug,
            section.spec_index() == index,
            section.leaves() == pages@,
            section.children() == sub_sections@,
            pages.wf() && sub_sections.wf() && (forall|k: int|
                0 <= k < sub_sections@.len() ==> (#[trigger] sub_sections@[k]).1.wf())
                ==> section.wf(),
    {
        Section {
            slug,
            index,
            pages: pages.into_entries(),
            sub_sections: sub_sections.into_entries(),
        }
    }

    /// The slug under which the section is filed.
    pub fn slug(&self) -> (slug: &Slug)
        ensures
            *slug == self.spec_slug(),
    {
        &self.slug
    }

    /// The section's own index page.
    pub fn index(&self) -> (index: &I)
        ensures
            *index == self.spec_index(),
    {
        &self.index
    }

    /// The leaf pages of the section with their slugs, in order.
    pub fn pages(&self) -> (pages: &Vec<(Slug, L)>)
        ensures
            pages@ == self.leaves(),
    {
        &self.pages
    }

    /// The sections right below the section with their slugs, in order.
    pub fn sub_sections(&self) -> (sub_sections: &Vec<(Slug, Section<I, L>)>)
        ensures
            sub_sections@ == self.children(),
    {
        &self.sub_sections
    }

    /// Walks the section, which lies at `path`: its index first, then its leaf
    /// pages in their order, then the sections below it in their order, each of
    /// them in this same way at the path that is one slug longer.
    fn try_walk_helper<J, M, FIndex, FLeaf>(
        self,
        path: Vec<Slug>,
        f_index: &FIndex,
        f_leaf: &FLeaf,
    ) -> (walked: Result<Section<J, M>, Error>) where
        FIndex: Fn(&[Slug], I) -> Result<J, Error>,
        FLeaf: Fn(&[Slug], &Slug, L) -> Result<M, Error>,

        requires
            walk_callable(self, path@, index_ready(*f_index), leaf_ready(*f_leaf)),
        ensures
            match walked {
                Ok(dst) => walk_ok(self, dst, path@, index_step(*f_index), leaf_step(*f_leaf)),
                Err(e) => walk_err(self, e, path@, index_step(*f_index), leaf_step(*f_leaf)),
            },
        decreases self,
    {
        let ghost src = self;
        let ghost qi = index_ready(*f_index);
        let ghost ql = leaf_ready(*f_leaf);
        let ghost si = index_step(*f_index);
        let ghost sl = leaf_step(*f_leaf);
        let Section { slug, index, pages, sub_sections } = self;
        let here: &[Slug] = path.as_slice();

        let new_index = match f_index(here, index) {
            Ok(made) => made,
            Err(e) => {
                assert(si(path@, src.spec_index(), Err(e)));
                return Err(e);
            },
        };
        assert(si(path@, src.spec_index(), Ok(new_index)));

        let mut new_pages: Vec<(Slug, M)> = Vec::new();
        for entry in it: pages
            invariant
                src == self,
                it.seq() == src.leaves(),
                here@ == path@,
                walk_callable(src, path@, qi, ql),
                qi == index_ready(*f_index),
                ql == leaf_ready(*f_leaf),
                si == index_step(*f_index),
                sl == leaf_step(*f_leaf),
                si(path@, src.spec_index(), Ok(new_index)),
                new_pages@.len() == it.index(),
                forall|m: int|
                    0 <= m < it.index() ==> {
                        &&& (#[trigger] new_pages@[m]).0 == src.leaves()[m].0
                        &&& sl(path@, src.leaves()[m].0, src.leaves()[m].1, Ok(new_pages@[m].1))
                    },
        {
            let ghost k = it.index() as int;
            let (leaf_slug, page) = entry;
            assert(src.leaves()[k] == (leaf_slug, page));
            assert(ql(path@, src.leaves()[k].0, src.leaves()[k].1));
            match f_leaf(here, &leaf_slug, page) {
                Ok(made) => {
                    assert(sl(path@, src.leaves()[k].0, src.leaves()[k].1, Ok(made)));
                    new_pages.push((leaf_slug, made));
                },
                Err(e) => {
                    proof {
                        assert(index_passes(src, path@, si));
                        assert(sl(path@, src.leaves()[k].0, src.leaves()[k].1, Err(e)));
                        assert forall|m: int| 0 <= m < k implies #[trigger] leaf_passes(
                            src,
                            m,
                            path@,
                            sl,
                        ) by {
                            assert(sl(
                                path@,
                                src.leaves()[m].0,
                                src.leaves()[m].1,
                                Ok(new_pages@[m].1),
                            ));
                        }
                        assert(walk_err(src, e, path@, si, sl));
                    }
                    return Err(e);
                },
            }
        }

        let mut new_sub_sections: Vec<(Slug, Section<J, M>)> = Vec::new();
        for entry in it: sub_sections
            invariant
                it.seq() == src.children(),
                walk_callable(src, path@, qi, ql),
                src == self,
                qi == index_ready(*f_index),
                ql == leaf_ready(*f_leaf),
                si == index_step(*f_index),
                sl == leaf_step(*f_leaf),
                si(path@, src.spec_index(), Ok(new_index)),
                new_pages@.len() == src.leaves().len(),
                forall|m: int|
                    0 <= m < src.leaves().len() ==> {
                        &&& (#[trigger] new_pages@[m]).0 == src.leaves()[m].0
                        &&& sl(path@, src.leaves()[m].0, src.leaves()[m].1, Ok(new_pages@[m].1))
                    },
                new_sub_sections@.len() == it.index(),
                forall|m: int|
                    0 <= m < it.index() ==> {
                        &&& (#[trigger] new_sub_sections@[m]).0 == src.children()[m].0
                        &&& walk_ok(
                            src.children()[m].1,
                            new_sub_sections@[m].1,
                            path@.push(src.children()[m].0),
                            si,
                            sl,
                        )
                    },
        {
            let ghost k = it.index() as int;
            let (child_slug, child) = entry;
            assert(src.children()[k] == (child_slug, child));
            let below = child_path(&path, &child_slug);
            proof {
                broadcast use vstd::std_specs::vec::group_vec_axioms;

                assert(walk_callable(child, below@, qi, ql));
                assert(decreases_to!(src => src.sub_sections));
                assert(decreases_to!(src.sub_sections => src.sub_sections@[k]));
                assert(decreases_to!(src.sub_sections@[k] => src.sub_sections@[k].1));
            }
            match child.try_walk_helper(below, f_index, f_leaf) {
                Ok(made) => {
                    new_sub_sections.push((child_slug, made));
                },
                Err(e) => {
                    proof {
                        assert forall|m: int|
                            0 <= m < src.leaves().len() implies #[trigger] leaf_passes(
                            src,
                            m,
                            path@,
                            sl,
                        ) by {
                            assert(sl(
                                path@,
                                src.leaves()[m].0,
                                src.leaves()[m].1,
                                Ok(new_pages@[m].1),
                            ));
                        }
                        assert forall|m: int| 0 <= m < k implies #[trigger] child_passes(
                            src,
                            m,
                            path@,
                            si,
                            sl,
                        ) by {
                            assert(walk_ok(
                                src.children()[m].1,
                                new_sub_sections@[m].1,
                                path@.push(src.children()[m].0),
                                si,
                                sl,
                            ));
                        }
                        assert(index_passes(src, path@, si));
                        assert(walk_err(
                            src.children()[k].1,
                            e,
                            path@.push(src.children()[k].0),
                            si,
                            sl,
                        ));
                        assert(walk_err(src, e, path@, si, sl));
                    }
                    return Err(e);
                },
            }
        }

        let dst = Section {
            slug,
            index: new_index,
            pages: new_pages,
            sub_sections: new_sub_sections,
        };
        assert(walk_ok(src, dst, path@, si, sl));
        Ok(dst)
    }

    /// Walk this [`Section`].
    ///
    /// Walking a [`Section`] is similar to mapping it, except that the functions
    /// transforming the contained pages get access to additional context.
    /// Here the context is given by
    /// - the fully qualified section path (i.e. the sequence of [`Slug`]s) of a
    ///   [`Section`] for that [`Section`]'s index page, as well as
    /// - the fully qualified section path alongside the respective page [`Slug`]
    ///   for all leaf pages contained in a [`Section`].
    ///
    /// The path of the section that the walk starts from is empty. The first
    /// failure ends the walk and is handed back; no tree comes out then.
    ///
    /// Every page of the tree has to be one that its function may be called
    /// on; functions that may be called on anything meet this on every tree,
    /// by `lemma_walk_callable_total`.
    pub fn try_walk<J, M, FIndex, FLeaf>(self, f_index: FIndex, f_leaf: FLeaf) -> (walked: Result<
        Section<J, M>,
        Error,
    >) where
        FIndex: Fn(&[Slug], I) -> Result<J, Error>,
        FLeaf: Fn(&[Slug], &Slug, L) -> Result<M, Error>,

        requires
            walk_callable(self, Seq::<Slug>::empty(), index_ready(f_index), leaf_ready(f_leaf)),
        ensures
            match walked {
                Ok(dst) => {
                    &&& walk_ok(
                        self,
                        dst,
                        Seq::<Slug>::empty(),
                        index_step(f_index),
                        leaf_step(f_leaf),
                    )
                    &&& same_shape(self, dst)
                    &&& self.wf() ==> dst.wf()
                },
                Err(e) => walk_err(
                    self,
                    e,
                    Seq::<Slug>::empty(),
                    index_step(f_index),
                    leaf_step(f_leaf),
                ),
            },
            walk_blocked(self, Seq::<Slug>::empty(), index_step(f_index), leaf_step(f_leaf))
                ==> walked is Err,
    {
        let walked = self.try_walk_helper(Vec::new(), &f_index, &f_leaf);
        proof {
            let si = index_step(f_index);
            let sl = leaf_step(f_leaf);
            if walked is Ok {
                let dst = walked->Ok_0;
                lemma_walk_keeps_shape(self, dst, Seq::<Slug>::empty(), si, sl);
                if self.wf() {
                    lemma_same_shape_wf(self, dst);
                }
                if walk_blocked(self, Seq::<Slug>::empty(), si, sl) {
                    lemma_blocked_walk_fails(self, dst, Seq::<Slug>::empty(), si, sl);
                }
            }
        }
        walked
    }

    /// Map this section.
    ///
    /// Every index page goes through `f_index` and every leaf page through
    /// `f_leaf`, in the order of a walk. The first failure ends the map and is
    /// handed back; no tree comes out then.
    ///
    /// Every page of the tree has to be one that its function may be called
    /// on; functions that may be called on anything meet this on every tree,
    /// by `lemma_walk_callable_total`.
    ///
    /// If you need access to a [`Section`]'s fully qualified path, see
    /// [`Section::try_walk`] instead.
    pub fn try_map<J, M, FIndex, FLeaf>(self, f_index: FIndex, f_leaf: FLeaf) -> (mapped: Result<
        Section<J, M>,
        Error,
    >) where FIndex: Fn(I) -> Result<J, Error>, FLeaf: Fn(L) -> Result<M, Error>
        requires
            walk_callable(
                self,
                Seq::<Slug>::empty(),
                map_index_ready(f_index),
                map_leaf_ready(f_leaf),
            ),
        ensures
            match mapped {
                Ok(dst) => {
                    &&& walk_ok(
                        self,
                        dst,
                        Seq::<Slug>::empty(),
                        map_index_step(f_index),
                        map_leaf_step(f_leaf),
                    )
                    &&& same_shape(self, dst)
                    &&& self.wf() ==> dst.wf()
                },
                Err(e) => walk_err(
                    self,
                    e,
                    Seq::<Slug>::empty(),
                    map_index_step(f_index),
                    map_leaf_step(f_leaf),
                ),
            },
            walk_blocked(
                self,
                Seq::<Slug>::empty(),
                map_index_step(f_index),
                map_leaf_step(f_leaf),
            ) ==> mapped is Err,
    {
        let on_index = &f_index;
        let on_leaf = &f_leaf;
        let at_index = |path: &[Slug], entry: I| -> (out: Result<J, Error>)
            requires
                call_requires(on_index, (entry,)),
            ensures
                call_ensures(on_index, (entry,), out),
            { on_index(entry) };
        let at_leaf = |path: &[Slug], slug: &Slug, entry: L| -> (out: Result<M, Error>)
            requires
                call_requires(on_leaf, (entry,)),
            ensures
                call_ensures(on_leaf, (entry,), out),
            { on_leaf(entry) };
        proof {
            lemma_walk_callable_weaken(
                self,
                Seq::<Slug>::empty(),
                map_index_ready(f_index),
                map_leaf_ready(f_leaf),
                index_ready(at_index),
                leaf_ready(at_leaf),
            );
        }
        let mapped = self.try_walk_helper(Vec::new(), &at_index, &at_leaf);
        proof {
            let si = index_step(at_index);
            let sl = leaf_step(at_leaf);
            let ti = map_index_step(f_index);
            let tl = map_leaf_step(f_leaf);
            let ghost outcome = mapped;
            match outcome {
                Ok(dst) => {
                    lemma_walk_ok_weaken(self, dst, Seq::<Slug>::empty(), si, sl, ti, tl);
                    lemma_walk_keeps_shape(self, dst, Seq::<Slug>::empty(), ti, tl);
                    if self.wf() {
                        lemma_same_shape_wf(self, dst);
                    }
                    if walk_blocked(self, Seq::<Slug>::empty(), ti, tl) {
                        lemma_blocked_walk_fails(self, dst, Seq::<Slug>::empty(), ti, tl);
                    }
                },
                Err(e) => {
                    lemma_walk_err_weaken(self, e, Seq::<Slug>::empty(), si, sl, ti, tl);
                },
            }
        }
        mapped
    }
}

impl<I: IntoValue, L: IntoValue> Section<I, L> {
    /// The tree as named values, for the pages to read: a read of the tree that
    /// leaves it as it is.
    pub fn to_typst(&self) -> (made: Dict)
        ensures
            made@ == section_dict(*self),
        decreases self,
    {
        let mut pages_typst = Dict::new();
        let mut k: usize = 0;
        while k < self.pages.len()
            invariant
                k <= self.pages.len(),
                pages_typst@ == leaves_dict(self.leaves(), k as nat),
            decreases self.pages.len() - k,
        {
            let (slug, page) = &self.pages[k];
            pages_typst.insert(slug.as_str().to_owned(), page.into_value());
            k += 1;
        }

        let mut sub_sections_typst = Dict::new();
        let mut k: usize = 0;
        while k < self.sub_sections.len()
            invariant
                k <= self.sub_sections.len(),
                sub_sections_typst@ == children_dict(*self, k as nat),
            decreases self.sub_sections.len() - k,
        {
            let (slug, sec) = &self.sub_sections[k];
            proof {
                broadcast use vstd::std_specs::vec::group_vec_axioms;

                assert(decreases_to!(*self => self.sub_sections));
                assert(decreases_to!(self.sub_sections => self.sub_sections@[k as int]));
                assert(decreases_to!(self.sub_sections@[k as int]
                    => self.sub_sections@[k as int].1));
            }
            sub_sections_typst.insert(slug.as_str().to_owned(), Value::Dict(sec.to_typst()));
            k += 1;
        }

        let mut d = Dict::new();
        proof {
            reveal_strlit("index");
            reveal_strlit("pages");
            reveal_strlit("subsections");
            assert("index"@[0] != "pages"@[0]);
            assert("index"@.len() != "subsections"@.len());
            assert("pages"@.len() != "subsections"@.len());
            lemma_named_at(d@, "index"@);
        }
        d.insert("index".to_owned(), self.index.into_value());
        proof {
            lemma_named_at(d@, "pages"@);
        }
        d.insert("pages".to_owned(), Value::Dict(pages_typst));
        proof {
            lemma_named_at(d@, "subsections"@);
        }
        d.insert("subsections".to_owned(), Value::Dict(sub_sections_typst));
        assert(d@ =~= section_dict(*self));
        d
    }
}

impl<I: IntoValue, L: IntoValue> IntoValue for Section<I, L> {
    open spec fn value(&self) -> ValueView {
        ValueView::Dict(section_dict(*self))
    }

    fn into_value(&self) -> (made: Value) {
        Value::Dict(self.to_typst())
    }
}

} // verus!
