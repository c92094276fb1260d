use vstd::prelude::*;

verus! {

/// Handle to one source buffer held by a [`BobaCache`]: the owning cache's
/// number in the high 32 bits, the buffer's index within it in the low 32.
#[derive(Debug, Clone, Copy, PartialEq, Eq, PartialOrd, Ord, Hash, Structural)]
pub struct CacheId(pub u64);

impl CacheId {
    /// The number of the cache this id belongs to.
    pub open spec fn spec_cache_id(self) -> u64 {
        self.0 / 0x1_0000_0000
    }

    /// The index of the buffer within its cache.
    pub open spec fn spec_uindex(self) -> int {
        (self.0 % 0x1_0000_0000) as int
    }

    pub fn build(id: u32, index: usize) -> (r: CacheId)
        requires
            index <= u32::MAX,
        ensures
            r.spec_cache_id() == id,
            r.spec_uindex() == index,
    {
        let packed: u64 = ((id as u64) << 32u64) | (index as u64);
        proof {
            let i = id as u64;
            let x = index as u64;
            assert(((i << 32u64) | x) / 0x1_0000_0000 == i && ((i << 32u64) | x)
                % 0x1_0000_0000 == x) by (bit_vector)
                requires
                    i <= 0xFFFF_FFFF && x <= 0xFFFF_FFFF,
            ;
        }
        CacheId(packed)
    }

    pub fn cache_id(&self) -> (r: u32)
        ensures
            r == self.spec_cache_id(),
    {
        proof {
            let v = self.0;
            assert((v >> 32u64) == v / 0x1_0000_0000 && v / 0x1_0000_0000 <= 0xFFFF_FFFF)
                by (bit_vector);
        }
        (self.0 >> 32u64) as u32
    }

    pub fn uindex(&self) -> (r: usize)
        ensures
            r == self.spec_uindex(),
    {
        proof {
            let v = self.0;
            assert((v & 0xFFFF_FFFF) == v % 0x1_0000_0000 && v % 0x1_0000_0000 <= 0xFFFF_FFFF)
                by (bit_vector);
        }
        (self.0 & 0xFFFF_FFFF) as usize
    }
}

/// A range of bytes within one source buffer of a [`BobaCache`]; every AST
/// node and every error carries one.
#[derive(Debug, Clone, Copy, PartialEq, Eq, Structural)]
pub struct CacheSpan {
    pub id: CacheId,
    pub start: usize,
    pub end: usize,
}

impl CacheSpan {
    pub open spec fn spec_id(self) -> CacheId {
        self.id
    }

    pub open spec fn spec_start(self) -> usize {
        self.start
    }

    pub open spec fn spec_end(self) -> usize {
        self.end
    }

    pub fn new(id: CacheId, range: core::ops::Range<usize>) -> (r: CacheSpan)
        ensures
            r.spec_id() == id,
            r.spec_start() == range.start,
            r.spec_end() == range.end,
    {
        CacheSpan { id, start: range.start, end: range.end }
    }

    pub fn id(&self) -> (r: CacheId)
        ensures
            r == self.spec_id(),
    {
        self.id
    }

    pub fn range(&self) -> (r: core::ops::Range<usize>)
        ensures
            r.start == self.spec_start(),
            r.end == self.spec_end(),
    {
        self.start..self.end
    }

    pub fn start(&self) -> (r: usize)
        ensures
            r == self.spec_start(),
    {
        self.start
    }

    pub fn end(&self) -> (r: usize)
        ensures
            r == self.spec_end(),
    {
        self.end
    }
}

/// One stored source buffer: a display label, the raw text, and the id under
/// which the owning cache serves it.
#[derive(Debug)]
pub struct CacheData {
    label: String,
    text: String,
    id: CacheId,
}

impl CacheData {
    pub closed spec fn spec_id(&self) -> CacheId {
        self.id
    }

    pub closed spec fn spec_label(&self) -> Seq<char> {
        self.label@
    }

    pub closed spec fn spec_text(&self) -> Seq<char> {
        self.text@
    }

    pub fn id(&self) -> (r: CacheId)
        ensures
            r == self.spec_id(),
    {
        self.id
    }

    pub fn label(&self) -> (r: &str)
        ensures
            r@ == self.spec_label(),
    {
        self.label.as_str()
    }

    pub fn text(&self) -> (r: &str)
        ensures
            r@ == self.spec_text(),
    {
        self.text.as_str()
    }

    /// A span pointing into this buffer.
    pub fn span(&self, range: core::ops::Range<usize>) -> (r: CacheSpan)
        ensures
            r.spec_id() == self.spec_id(),
            r.spec_start() == range.start,
            r.spec_end() == range.end,
    {
        CacheSpan { id: self.id, start: range.start, end: range.end }
    }
}

/// Stores source buffers and serves them back by [`CacheId`]. An id made by
/// another cache (a different cache number) is never answered.
#[derive(Debug)]
pub struct BobaCache {
    store: Vec<CacheData>,
    cache_id: u32,
}

impl BobaCache {
    pub closed spec fn wf(&self) -> bool {
        &&& self.store@.len() <= u32::MAX + 1
        &&& forall|i: int|
            0 <= i < self.store@.len() ==> {
                &&& (#[trigger] self.store@[i]).spec_id().spec_cache_id() == self.cache_id
                &&& self.store@[i].spec_id().spec_uindex() == i
            }
    }

    pub closed spec fn spec_len(&self) -> int {
        self.store@.len() as int
    }

    /// The cache number this cache stamps into its ids.
    pub closed spec fn spec_cache_num(&self) -> u32 {
        self.cache_id
    }

    pub closed spec fn spec_entry(&self, i: int) -> &CacheData {
        &self.store@[i]
    }

    /// An empty cache under the given cache number; a host that keeps several
    /// caches alive gives each its own number so their ids cannot be mixed up.
    pub fn with_id(cache_id: u32) -> (r: BobaCache)
        ensures
            r.wf(),
            r.spec_len() == 0,
            r.spec_cache_num() == cache_id,
    {
        BobaCache { store: Vec::new(), cache_id }
    }

    /// An empty cache under cache number 0. A host that keeps several caches
    /// alive at once must give each its own number through
    /// [`Self::with_id`], or their ids answer across caches.
    pub fn new() -> (r: BobaCache)
        ensures
            r.wf(),
            r.spec_len() == 0,
            r.spec_cache_num() == 0,
    {
        BobaCache::with_id(0)
    }

    /// Serves the buffer the id points at, or nothing when the id belongs to
    /// another cache or to no stored buffer.
    pub fn load(&self, id: CacheId) -> (r: Option<&CacheData>)
        requires
            self.wf(),
        ensures
            match r {
                Some(data) => {
                    &&& id.spec_cache_id() == self.spec_cache_num()
                    &&& 0 <= id.spec_uindex() < self.spec_len()
                    &&& data == self.spec_entry(id.spec_uindex())
                },
                None => id.spec_cache_id() != self.spec_cache_num() || id.spec_uindex()
                    >= self.spec_len(),
            },
    {
        if id.cache_id() != self.cache_id {
            return None;
        }
        let index = id.uindex();
        if index < self.store.len() {
            Some(&self.store[index])
        } else {
            None
        }
    }

    /// Stores a buffer and returns the id under which [`Self::load`] will
    /// serve it back.
    pub fn store(&mut self, label: String, text: String) -> (r: CacheId)
        requires
            old(self).wf(),
            old(self).spec_len() <= u32::MAX,
        ensures
            final(self).wf(),
            final(self).spec_cache_num() == old(self).spec_cache_num(),
            final(self).spec_len() == old(self).spec_len() + 1,
            forall|i: int|
                0 <= i < old(self).spec_len() ==> final(self).spec_entry(i) == old(self).spec_entry(
                    i,
                ),
            r.spec_cache_id() == final(self).spec_cache_num(),
            r.spec_uindex() == old(self).spec_len(),
            final(self).spec_entry(r.spec_uindex()).spec_label() == label@,
            final(self).spec_entry(r.spec_uindex()).spec_text() == text@,
    {
        let id = CacheId::build(self.cache_id, self.store.len());
        self.store.push(CacheData { label, text, id });
        id
    }
}

} // verus!
