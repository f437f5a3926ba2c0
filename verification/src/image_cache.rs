//! A bounded cache of processed Fenbi images, keyed by image URL.
//!
//! Entries are kept in insertion order; when a new URL would push the cache
//! past its limit, the oldest entry is evicted. Storing an already-cached URL
//! replaces its data in place without refreshing its age.

use vstd::prelude::*;
use crate::text::str_equal;

verus! {

/// The number of images the cache holds at most.
pub const FENBI_IMAGE_CACHE_LIMIT: usize = 80;

/// Whether `key` is the key of some entry of `entries`.
pub open spec fn has_key(entries: Seq<(Seq<char>, Seq<char>)>, key: Seq<char>) -> bool {
    exists|i: int| 0 <= i < entries.len() && #[trigger] entries[i].0 == key
}

/// No two entries share a key.
pub open spec fn keys_distinct(entries: Seq<(Seq<char>, Seq<char>)>) -> bool {
    forall|i: int, j: int|
        0 <= i < entries.len() && 0 <= j < entries.len() && i != j ==> #[trigger] entries[i].0
            != #[trigger] entries[j].0
}

/// The position of `key` among the entries (meaningful when `has_key`).
pub open spec fn key_index(entries: Seq<(Seq<char>, Seq<char>)>, key: Seq<char>) -> int {
    choose|i: int| 0 <= i < entries.len() && entries[i].0 == key
}

/// The data stored under `key`, if any.
pub open spec fn lookup(entries: Seq<(Seq<char>, Seq<char>)>, key: Seq<char>) -> Option<
    Seq<char>,
> {
    if has_key(entries, key) {
        Some(entries[key_index(entries, key)].1)
    } else {
        None
    }
}

/// The entries after storing `data` under `key`.
pub open spec fn entries_after_put(
    entries: Seq<(Seq<char>, Seq<char>)>,
    key: Seq<char>,
    data: Seq<char>,
) -> Seq<(Seq<char>, Seq<char>)> {
    if has_key(entries, key) {
        entries.update(key_index(entries, key), (key, data))
    } else {
        let grown = entries.push((key, data));
        if grown.len() > FENBI_IMAGE_CACHE_LIMIT {
            grown.drop_first()
        } else {
            grown
        }
    }
}

/// A read after a write gives back what was written: once `data` is stored
/// under `key`, looking `key` up yields `data`, whatever the cache held before.
pub proof fn lemma_put_then_lookup(
    entries: Seq<(Seq<char>, Seq<char>)>,
    key: Seq<char>,
    data: Seq<char>,
)
    requires
        keys_distinct(entries),
        entries.len() <= FENBI_IMAGE_CACHE_LIMIT,
    ensures
        lookup(entries_after_put(entries, key, data), key) == Some(data),
        keys_distinct(entries_after_put(entries, key, data)),
        entries_after_put(entries, key, data).len() <= FENBI_IMAGE_CACHE_LIMIT,
{
    let after = entries_after_put(entries, key, data);
    if has_key(entries, key) {
        let k = key_index(entries, key);
        assert(after[k].0 == key);
        assert(has_key(after, key));
        let k2 = key_index(after, key);
        assert(after[k2].0 == key);
    } else {
        let last = after.len() - 1;
        let grown = entries.push((key, data));
        assert(grown[grown.len() - 1] == (key, data));
        assert(after[last] == (key, data));
        assert(after[last].0 == key);
        assert(has_key(after, key));
        let k2 = key_index(after, key);
        assert(after[k2].0 == key);
    }
}

/// Storing under one URL leaves every other cached URL's data as it was,
/// except for the oldest entry when a new URL makes the cache overflow.
pub proof fn lemma_put_keeps_others(
    entries: Seq<(Seq<char>, Seq<char>)>,
    key: Seq<char>,
    data: Seq<char>,
    other: Seq<char>,
)
    requires
        keys_distinct(entries),
        entries.len() <= FENBI_IMAGE_CACHE_LIMIT,
        other != key,
        !(!has_key(entries, key) && entries.len() == FENBI_IMAGE_CACHE_LIMIT && entries[0].0
            == other),
    ensures
        lookup(entries_after_put(entries, key, data), other) == lookup(entries, other),
{
    let after = entries_after_put(entries, key, data);
    lemma_put_then_lookup(entries, key, data);
    if has_key(entries, other) {
        let k = key_index(entries, other);
        if has_key(entries, key) {
            assert(after[k] == entries[k]);
        } else if entries.len() == FENBI_IMAGE_CACHE_LIMIT {
            assert(k != 0);
            assert(after[k - 1] == entries[k]);
        } else {
            assert(after[k] == entries[k]);
        }
        assert(has_key(after, other));
        let k2 = key_index(after, other);
        assert(after[k2].0 == other);
    } else {
        if has_key(after, other) {
            let k2 = key_index(after, other);
            if has_key(entries, key) {
                assert(entries[k2].0 == other);
            } else if entries.len() == FENBI_IMAGE_CACHE_LIMIT {
                assert(entries[k2 + 1].0 == other);
            } else {
                assert(k2 < entries.len());
                assert(entries[k2].0 == other);
            }
        }
    }
}

/// The cache: the URLs in insertion order, and the data of each at the same
/// position.
pub struct FenbiImageCache {
    order: Vec<String>,
    items: Vec<String>,
}

impl View for FenbiImageCache {
    type V = Seq<(Seq<char>, Seq<char>)>;

    /// The cached (url, data) pairs, oldest first.
    closed spec fn view(&self) -> Seq<(Seq<char>, Seq<char>)> {
        Seq::new(self.order.len() as nat, |i: int| (self.order[i]@, self.items[i]@))
    }
}

impl FenbiImageCache {
    /// The cache's invariant: one data entry per URL, distinct URLs, and no
    /// more than the limit. The last two are stated in the `ensures` of every
    /// function that makes or changes a cache.
    pub closed spec fn wf(&self) -> bool {
        &&& self.order.len() == self.items.len()
        &&& keys_distinct(self@)
        &&& self@.len() <= FENBI_IMAGE_CACHE_LIMIT
    }

    /// An empty cache.
    pub fn new() -> (cache: Self)
        ensures
            cache.wf(),
            cache@ == Seq::<(Seq<char>, Seq<char>)>::empty(),
            keys_distinct(cache@),
            cache@.len() <= FENBI_IMAGE_CACHE_LIMIT,
    {
        let cache = FenbiImageCache { order: Vec::new(), items: Vec::new() };
        assert(cache@ =~= Seq::<(Seq<char>, Seq<char>)>::empty());
        cache
    }

    fn position(&self, url: &str) -> (res: Option<usize>)
        requires
            self.wf(),
        ensures
            res is None <==> !has_key(self@, url@),
            res matches Some(i) ==> i < self@.len() && self@[i as int].0 == url@ && i
                == key_index(self@, url@),
    {
        let mut i: usize = 0;
        while i < self.order.len()
            invariant
                self.wf(),
                i <= self.order.len(),
                forall|j: int| 0 <= j < i ==> self@[j].0 != url@,
            decreases self.order.len() - i,
        {
            if str_equal(self.order[i].as_str(), url) {
                assert(self@[i as int].0 == url@);
                let ghost k = key_index(self@, url@);
                assert(has_key(self@, url@));
                assert(self@[k].0 == url@);
                assert(k == i as int);
                return Some(i);
            }
            i = i + 1;
        }
        None
    }

    /// The data cached for `url`, if any (`cache_get_fenbi_image`).
    pub fn get(&self, url: &str) -> (res: Option<String>)
        requires
            self.wf(),
        ensures
            res is Some <==> has_key(self@, url@),
            res matches Some(data) ==> lookup(self@, url@) == Some(data@),
    {
        match self.position(url) {
            Some(i) => Some(self.items[i].clone()),
            None => None,
        }
    }

    /// Stores `data` under `url` (`cache_put_fenbi_image`).
    pub fn put(&mut self, url: String, data: String)
        requires
            old(self).wf(),
        ensures
            final(self).wf(),
            final(self)@ == entries_after_put(old(self)@, url@, data@),
            keys_distinct(final(self)@),
            final(self)@.len() <= FENBI_IMAGE_CACHE_LIMIT,
    {
        let ghost before = self@;
        match self.position(url.as_str()) {
            Some(i) => {
                self.items.set(i, data);
                assert(self@ =~= before.update(i as int, (url@, data@)));
                assert(keys_distinct(self@));
            },
            None => {
                self.order.push(url);
                self.items.push(data);
                assert(self@ =~= before.push((url@, data@)));
                if self.order.len() > FENBI_IMAGE_CACHE_LIMIT {
                    self.order.remove(0);
                    self.items.remove(0);
                    assert(self@ =~= before.push((url@, data@)).drop_first());
                }
                assert(keys_distinct(self@));
            },
        }
    }

    /// Forgets every cached image (`clear_fenbi_image_cache`).
    pub fn clear(&mut self)
        ensures
            final(self).wf(),
            final(self)@ == Seq::<(Seq<char>, Seq<char>)>::empty(),
            keys_distinct(final(self)@),
            final(self)@.len() <= FENBI_IMAGE_CACHE_LIMIT,
    {
        self.order.clear();
        self.items.clear();
        assert(self@ =~= Seq::<(Seq<char>, Seq<char>)>::empty());
    }

    /// The number of cached images.
    pub fn len(&self) -> (n: usize)
        requires
            self.wf(),
        ensures
            n == self@.len(),
    {
        self.order.len()
    }
}

} // verus!
