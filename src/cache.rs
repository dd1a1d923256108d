//! The bounded preview cache: decoded, resized rasters keyed by image
//! identity and target size, evicted oldest-inserted first.
use vstd::prelude::*;
use crate::raster::Raster;

verus! {

/// Number of entries the cache holds at most.
pub const MAX_CACHE_SIZE: usize = 10;

/// A cache key: the image and the size it was resized to. The same image
/// at two sizes gives two entries.
#[derive(Clone, Debug)]
pub struct PreviewKey {
    pub file_id: String,
    pub max_size: u32,
}

impl PreviewKey {
    pub open spec fn view(&self) -> (Seq<char>, u32) {
        (self.file_id@, self.max_size)
    }

    pub fn same_key(&self, other: &PreviewKey) -> (r: bool)
        ensures
            r == (self.view() == other.view()),
    {
        self.max_size == other.max_size && self.file_id == other.file_id
    }
}

pub open spec fn keys_of(e: Seq<(PreviewKey, Raster)>) -> Seq<(Seq<char>, u32)> {
    e.map_values(|p: (PreviewKey, Raster)| p.0.view())
}

pub open spec fn distinct_keys(e: Seq<(PreviewKey, Raster)>) -> bool {
    forall|i: int, j: int| 0 <= i < j < e.len() ==> e[i].0.view() != e[j].0.view()
}

pub open spec fn has_key(e: Seq<(PreviewKey, Raster)>, k: (Seq<char>, u32)) -> bool {
    exists|i: int| 0 <= i < e.len() && e[i].0.view() == k
}

/// The entries after inserting `img` under `k`: an entry already under `k`
/// is dropped, then the oldest entry is evicted if the cache is full, and
/// the new entry goes last.
pub open spec fn after_insert(e: Seq<(PreviewKey, Raster)>, k: PreviewKey, img: Raster) -> Seq<
    (PreviewKey, Raster),
> {
    let e1 = if has_key(e, k.view()) {
        e.remove(choose|i: int| 0 <= i < e.len() && e[i].0.view() == k.view())
    } else {
        e
    };
    let e2 = if e1.len() >= MAX_CACHE_SIZE {
        e1.drop_first()
    } else {
        e1
    };
    e2.push((k, img))
}

/// The entries after inserting each of `items` in order.
pub open spec fn after_inserts(e: Seq<(PreviewKey, Raster)>, items: Seq<(PreviewKey, Raster)>) -> Seq<
    (PreviewKey, Raster),
>
    decreases items.len(),
{
    if items.len() == 0 {
        e
    } else {
        let prev = after_inserts(e, items.drop_last());
        after_insert(prev, items.last().0, items.last().1)
    }
}

pub struct ImageCache {
    pub entries: Vec<(PreviewKey, Raster)>,
}

impl ImageCache {
    /// At most `MAX_CACHE_SIZE` entries, no key twice.
    pub open spec fn wf(&self) -> bool {
        self.entries@.len() <= MAX_CACHE_SIZE && distinct_keys(self.entries@)
    }

    pub fn new() -> (c: ImageCache)
        ensures
            c.wf(),
            c.entries@.len() == 0,
    {
        ImageCache { entries: Vec::new() }
    }

    fn position(&self, key: &PreviewKey) -> (r: Option<usize>)
        requires
            self.wf(),
        ensures
            r is None <==> !has_key(self.entries@, key.view()),
            r matches Some(i) ==> i < self.entries@.len() && self.entries@[i as int].0.view()
                == key.view(),
    {
        let mut i: usize = 0;
        while i < self.entries.len()
            invariant
                i <= self.entries@.len(),
                forall|j: int| 0 <= j < i ==> self.entries@[j].0.view() != key.view(),
            decreases self.entries@.len() - i,
        {
            if self.entries[i].0.same_key(key) {
                return Some(i);
            }
            i = i + 1;
        }
        None
    }

    /// The raster cached under `key`, if any.
    pub fn get(&self, key: &PreviewKey) -> (r: Option<&Raster>)
        requires
            self.wf(),
        ensures
            r is None <==> !has_key(self.entries@, key.view()),
            r matches Some(v) ==> exists|i: int|
                0 <= i < self.entries@.len() && self.entries@[i].0.view() == key.view() && *v
                    == self.entries@[i].1,
    {
        match self.position(key) {
            Some(i) => Some(&self.entries[i].1),
            None => None,
        }
    }

    /// Caches `img` under `key`, evicting the oldest entry when full.
    pub fn insert(&mut self, key: PreviewKey, img: Raster)
        requires
            old(self).wf(),
        ensures
            final(self).wf(),
            final(self).entries@ == after_insert(old(self).entries@, key, img),
    {
        let ghost e = self.entries@;
        let ghost kv = key.view();
        match self.position(&key) {
            Some(i) => {
                proof {
                    let c = choose|j: int| 0 <= j < e.len() && e[j].0.view() == kv;
                    assert(c == i);
                }
                self.entries.remove(i);
            },
            None => {},
        }
        let ghost e1 = self.entries@;
        assert(distinct_keys(e1)) by {
            assert forall|a: int, b: int| 0 <= a < b < e1.len() implies e1[a].0.view()
                != e1[b].0.view() by {
                if has_key(e, kv) {
                    let c = choose|j: int| 0 <= j < e.len() && e[j].0.view() == kv;
                    assert(e1 == e.remove(c));
                    let a0 = if a < c { a } else { a + 1 };
                    let b0 = if b < c { b } else { b + 1 };
                    assert(e1[a] == e[a0] && e1[b] == e[b0]);
                }
            }
        }
        assert(!has_key(e1, kv)) by {
            if has_key(e, kv) {
                let c = choose|j: int| 0 <= j < e.len() && e[j].0.view() == kv;
                assert forall|j: int| 0 <= j < e1.len() implies e1[j].0.view() != kv by {
                    let j0 = if j < c { j } else { j + 1 };
                    assert(e1[j] == e[j0]);
                }
            }
        }
        if self.entries.len() >= MAX_CACHE_SIZE {
            self.entries.remove(0);
        }
        let ghost e2 = self.entries@;
        assert(e2.len() < MAX_CACHE_SIZE);
        assert forall|j: int| 0 <= j < e2.len() implies e2[j].0.view() != kv by {
            if e1.len() >= MAX_CACHE_SIZE {
                assert(e2[j] == e1[j + 1]);
            }
        }
        assert(distinct_keys(e2)) by {
            assert forall|a: int, b: int| 0 <= a < b < e2.len() implies e2[a].0.view()
                != e2[b].0.view() by {
                if e1.len() >= MAX_CACHE_SIZE {
                    assert(e2[a] == e1[a + 1] && e2[b] == e1[b + 1]);
                }
            }
        }
        assert(e2 =~= (if e1.len() >= MAX_CACHE_SIZE {
            e1.drop_first()
        } else {
            e1
        }));
        self.entries.push((key, img));
    }
}

/// Inserting distinct keys one after another into an empty cache leaves
/// exactly the last `MAX_CACHE_SIZE` of them, oldest first; every earlier
/// key has been evicted.
pub proof fn lemma_fifo_keeps_latest(items: Seq<(PreviewKey, Raster)>)
    requires
        distinct_keys(items),
    ensures
        after_inserts(seq![], items) == items.skip(
            if items.len() > MAX_CACHE_SIZE {
                items.len() - MAX_CACHE_SIZE
            } else {
                0
            },
        ),
    decreases items.len(),
{
    if items.len() > 0 {
        let n = items.len() as int;
        let init = items.drop_last();
        assert(distinct_keys(init)) by {
            assert forall|i: int, j: int| 0 <= i < j < init.len() implies init[i].0.view()
                != init[j].0.view() by {
                assert(init[i] == items[i] && init[j] == items[j]);
            }
        }
        lemma_fifo_keeps_latest(init);
        let prev = after_inserts(seq![], init);
        let start = if n - 1 > 10 { n - 1 - 10 } else { 0 };
        assert(prev == init.skip(start));
        let k = items.last().0;
        assert(!has_key(prev, k.view())) by {
            assert forall|j: int| 0 <= j < prev.len() implies prev[j].0.view() != k.view() by {
                assert(prev[j] == items[start + j]);
            }
        }
        let e2 = if prev.len() >= MAX_CACHE_SIZE {
            prev.drop_first()
        } else {
            prev
        };
        assert(after_inserts(seq![], items) == e2.push(items.last()));
        let start2 = if n > 10 { n - 10 } else { 0 };
        assert(e2.push(items.last()) =~= items.skip(start2));
    }
}

} // verus!
