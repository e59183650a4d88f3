//! An insertion-ordered map keyed by slug.

use vstd::prelude::*;
use crate::slug::Slug;

verus! {

/// Whether no two entries of `entries` carry the same slug text.
pub open spec fn distinct_slugs<V>(entries: Seq<(Slug, V)>) -> bool {
    forall|i: int, j: int|
        0 <= i < j < entries.len() ==> (#[trigger] entries[i]).0@ != (#[trigger] entries[j]).0@
}

/// Position of the first entry of `entries` filed under `key`, if there is one.
pub open spec fn position_of<V>(entries: Seq<(Slug, V)>, key: Seq<char>) -> Option<int>
    decreases entries.len(),
{
    if entries.len() == 0 {
        None
    } else if entries[0].0@ == key {
        Some(0)
    } else {
        match position_of(entries.skip(1), key) {
            Some(k) => Some(k + 1),
            None => None,
        }
    }
}

/// `position_of` finds a position that holds the key and nothing before it does,
/// or tells that no entry holds the key.
pub proof fn lemma_position_of<V>(entries: Seq<(Slug, V)>, key: Seq<char>)
    ensures
        match position_of(entries, key) {
            Some(k) => {
                &&& 0 <= k < entries.len()
                &&& entries[k].0@ == key
                &&& forall|m: int| 0 <= m < k ==> (#[trigger] entries[m]).0@ != key
            },
            None => forall|m: int| 0 <= m < entries.len() ==> (#[trigger] entries[m]).0@ != key,
        },
    decreases entries.len(),
{
    if entries.len() > 0 && entries[0].0@ != key {
        let rest = entries.skip(1);
        lemma_position_of(rest, key);
        match position_of(rest, key) {
            Some(k) => {
                assert forall|m: int| 0 <= m < k + 1 implies (#[trigger] entries[m]).0@ != key by {
                    if m > 0 {
                        assert(rest[m - 1] == entries[m]);
                    }
                }
            },
            None => {
                assert forall|m: int| 0 <= m < entries.len() implies (#[trigger] entries[m]).0@
                    != key by {
                    if m > 0 {
                        assert(rest[m - 1] == entries[m]);
                    }
                }
            },
        }
    }
}

/// Position of the first pair of `entries` whose name is `name`.
pub open spec fn named_at<V>(entries: Seq<(Seq<char>, V)>, name: Seq<char>) -> Option<int>
    decreases entries.len(),
{
    if entries.len() == 0 {
        None
    } else if entries[0].0 == name {
        Some(0)
    } else {
        match named_at(entries.skip(1), name) {
            Some(k) => Some(k + 1),
            None => None,
        }
    }
}

/// The list `entries` with `value` under `name`: in the place of the value that
/// was under that name where there was one, else at the end.
pub open spec fn put<V>(entries: Seq<(Seq<char>, V)>, name: Seq<char>, value: V) -> Seq<
    (Seq<char>, V),
> {
    match named_at(entries, name) {
        Some(k) => entries.update(k, (name, value)),
        None => entries.push((name, value)),
    }
}

/// `named_at` finds a position that holds the name and nothing before it does,
/// or tells that no pair holds the name.
pub proof fn lemma_named_at<V>(entries: Seq<(Seq<char>, V)>, name: Seq<char>)
    ensures
        match named_at(entries, name) {
            Some(k) => {
                &&& 0 <= k < entries.len()
                &&& entries[k].0 == name
                &&& forall|m: int| 0 <= m < k ==> (#[trigger] entries[m]).0 != name
            },
            None => forall|m: int| 0 <= m < entries.len() ==> (#[trigger] entries[m]).0 != name,
        },
    decreases entries.len(),
{
    if entries.len() > 0 && entries[0].0 != name {
        let rest = entries.skip(1);
        lemma_named_at(rest, name);
        match named_at(rest, name) {
            Some(k) => {
                assert forall|m: int| 0 <= m < k + 1 implies (#[trigger] entries[m]).0 != name by {
                    if m > 0 {
                        assert(rest[m - 1] == entries[m]);
                    }
                }
            },
            None => {
                assert forall|m: int| 0 <= m < entries.len() implies (#[trigger] entries[m]).0
                    != name by {
                    if m > 0 {
                        assert(rest[m - 1] == entries[m]);
                    }
                }
            },
        }
    }
}

/// Under a name that a list does not hold yet, `put` adds at the end.
pub proof fn lemma_put_new<V>(entries: Seq<(Seq<char>, V)>, name: Seq<char>, value: V)
    requires
        forall|m: int| 0 <= m < entries.len() ==> (#[trigger] entries[m]).0 != name,
    ensures
        put(entries, name, value) == entries.push((name, value)),
{
    lemma_named_at(entries, name);
}

/// Where two lists hold the same slugs in the same order, a key is found at the
/// same position in both.
pub proof fn lemma_position_of_same_slugs<V, W>(
    a: Seq<(Slug, V)>,
    b: Seq<(Slug, W)>,
    key: Seq<char>,
)
    requires
        a.len() == b.len(),
        forall|k: int| 0 <= k < a.len() ==> (#[trigger] a[k]).0@ == b[k].0@,
    ensures
        position_of(a, key) == position_of(b, key),
    decreases a.len(),
{
    if a.len() > 0 {
        assert(a[0].0@ == b[0].0@);
        if a[0].0@ != key {
            let a_rest = a.skip(1);
            let b_rest = b.skip(1);
            assert forall|k: int| 0 <= k < a_rest.len() implies (#[trigger] a_rest[k]).0@
                == b_rest[k].0@ by {
                assert(a[k + 1].0@ == b[k + 1].0@);
            }
            lemma_position_of_same_slugs(a_rest, b_rest, key);
        }
    }
}

/// Values filed under slugs, kept in the order in which their slugs first came.
pub struct SlugMap<V> {
    entries: Vec<(Slug, V)>,
}

impl<V> View for SlugMap<V> {
    type V = Seq<(Slug, V)>;

    closed spec fn view(&self) -> Seq<(Slug, V)> {
        self.entries@
    }
}

impl<V> SlugMap<V> {
    /// Validity of a map: no slug is held twice.
    pub open spec fn wf(&self) -> bool {
        distinct_slugs(self@)
    }

    /// A map without entries.
    pub fn new() -> (map: Self)
        ensures
            map@ == Seq::<(Slug, V)>::empty(),
            map.wf(),
    {
        SlugMap { entries: Vec::new() }
    }

    /// The entries, in order.
    pub fn into_entries(self) -> (entries: Vec<(Slug, V)>)
        ensures
            entries@ == self@,
    {
        self.entries
    }

    /// The number of entries.
    pub fn len(&self) -> (n: usize)
        ensures
            n == self@.len(),
    {
        self.entries.len()
    }

    /// Whether the map has no entry.
    pub fn is_empty(&self) -> (empty: bool)
        ensures
            empty == (self@.len() == 0),
    {
        self.entries.len() == 0
    }

    /// Position of the entry filed under `key`.
    fn find(&self, key: &Slug) -> (found: Option<usize>)
        ensures
            found matches Some(k) ==> position_of(self@, key@) == Some(k as int),
            found is None ==> position_of(self@, key@) is None,
    {
        let mut k: usize = 0;
        while k < self.entries.len()
            invariant
                k <= self.entries.len(),
                forall|m: int| 0 <= m < k ==> (#[trigger] self.entries@[m]).0@ != key@,
            decreases self.entries.len() - k,
        {
            if self.entries[k].0.same(key) {
                proof {
                    lemma_position_of(self@, key@);
                }
                return Some(k);
            }
            k += 1;
        }
        proof {
            lemma_position_of(self@, key@);
        }
        None
    }

    /// Whether an entry is filed under `key`.
    pub fn contains_key(&self, key: &Slug) -> (held: bool)
        ensures
            held == position_of(self@, key@).is_some(),
    {
        self.find(key).is_some()
    }

    /// The value filed under `key`.
    pub fn get(&self, key: &Slug) -> (value: Option<&V>)
        ensures
            match position_of(self@, key@) {
                Some(k) => value == Some(&self@[k].1),
                None => value is None,
            },
    {
        match self.find(key) {
            Some(k) => {
                proof {
                    lemma_position_of(self@, key@);
                }
                Some(&self.entries[k].1)
            },
            None => None,
        }
    }

    /// Files `value` under `key`. Where the key is already held its value is replaced,
    /// in place, and handed back; otherwise the entry is put last.
    pub fn insert(&mut self, key: Slug, value: V) -> (old_value: Option<V>)
        ensures
            old(self).wf() ==> final(self).wf(),
            match position_of(old(self)@, key@) {
                Some(k) => {
                    &&& old_value == Some(old(self)@[k].1)
                    &&& final(self)@ == old(self)@.update(k, (old(self)@[k].0, value))
                },
                None => {
                    &&& old_value is None
                    &&& final(self)@ == old(self)@.push((key, value))
                },
            },
    {
        proof {
            lemma_position_of(self@, key@);
        }
        match self.find(&key) {
            Some(k) => {
                let (slug, previous) = self.entries.remove(k);
                self.entries.insert(k, (slug, value));
                proof {
                    assert(self.entries@ =~= old(self)@.update(k as int, (slug, value)));
                    if old(self).wf() {
                        assert forall|i: int, j: int|
                            0 <= i < j < self.entries@.len() implies (
                        #[trigger] self.entries@[i]).0@ != (#[trigger] self.entries@[j]).0@ by {
                            assert(old(self)@[i].0@ != old(self)@[j].0@);
                        }
                    }
                }
                Some(previous)
            },
            None => {
                self.entries.push((key, value));
                proof {
                    if old(self).wf() {
                        assert forall|i: int, j: int|
                            0 <= i < j < self.entries@.len() implies (
                        #[trigger] self.entries@[i]).0@ != (#[trigger] self.entries@[j]).0@ by {
                            if j < old(self)@.len() {
                                assert(old(self)@[i].0@ != old(self)@[j].0@);
                            }
                        }
                    }
                }
                None
            },
        }
    }
}

} // verus!
