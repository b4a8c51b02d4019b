//! The least-recently-used cache of decoded thumbnails.
//!
//! Entries are kept by the `lru` crate. Its contents are modelled as a
//! sequence of (key, image) pairs, most recently used first, together with
//! the capacity the cache was made with; the operations below are stated
//! over that model.

use vstd::prelude::*;
use image::DynamicImage;
use lru::LruCache;
use rapidhash::fast::RapidHasher;
use std::hash::BuildHasherDefault;
use std::num::NonZeroUsize;
use std::path::PathBuf;
use std::sync::Arc;
use crate::image_ops::Rotation;

verus! {

/// The key of a cached thumbnail, as the cache holds it: the path's bytes,
/// the rotation's number, the thumbnail size and the overlay signature.
pub type ThumbnailKey = (Vec<u8>, u8, u32, u64);

/// A thumbnail key as a plain value.
pub type KeyView = (Seq<u8>, u8, u32, u64);

/// The plain value of a key.
pub open spec fn key_view(k: ThumbnailKey) -> KeyView {
    (k.0@, k.1, k.2, k.3)
}

// ---------------------------------------------------------------------------
// The model of a least-recently-used cache
// ---------------------------------------------------------------------------

/// Where `k` stands among the entries, if it does.
pub open spec fn key_position<K, V>(s: Seq<(K, V)>, k: K) -> Option<int> {
    if exists|i: int| 0 <= i < s.len() && s[i].0 == k {
        Some(choose|i: int| 0 <= i < s.len() && s[i].0 == k)
    } else {
        None
    }
}

/// Whether some entry has the key `k`.
pub open spec fn has_key<K, V>(s: Seq<(K, V)>, k: K) -> bool {
    key_position(s, k) is Some
}

/// No key occurs twice, there is room for at least one entry and no more
/// entries than the capacity.
pub open spec fn lru_well_formed<K, V>(s: Seq<(K, V)>, capacity: nat) -> bool {
    &&& forall|i: int, j: int| 0 <= i < j < s.len() ==> s[i].0 != s[j].0
    &&& 0 < capacity
    &&& s.len() <= capacity
}

/// What a lookup of `k` returns: the value stored under it, if any.
pub open spec fn lru_get_value<K, V>(s: Seq<(K, V)>, k: K) -> Option<V> {
    match key_position(s, k) {
        Some(i) => Some(s[i].1),
        None => None,
    }
}

/// The entries after a lookup of `k`: a found entry becomes the most
/// recently used; otherwise nothing changes.
pub open spec fn lru_after_get<K, V>(s: Seq<(K, V)>, k: K) -> Seq<(K, V)> {
    match key_position(s, k) {
        Some(i) => seq![s[i]] + s.remove(i),
        None => s,
    }
}

/// The entries after storing `v` under `k`: the entry becomes the most
/// recently used, replacing the old value of `k` if there was one, and
/// otherwise evicting the least recently used entry when the cache is full.
pub open spec fn lru_after_put<K, V>(s: Seq<(K, V)>, capacity: nat, k: K, v: V) -> Seq<(K, V)> {
    match key_position(s, k) {
        Some(i) => seq![(k, v)] + s.remove(i),
        None => if s.len() < capacity {
            seq![(k, v)] + s
        } else {
            seq![(k, v)] + s.drop_last()
        },
    }
}

/// In well-formed entries, `k` stands at `i` exactly when entry `i` has key `k`.
proof fn lemma_position_unique<K, V>(s: Seq<(K, V)>, capacity: nat, k: K, i: int)
    requires
        lru_well_formed(s, capacity),
        0 <= i < s.len(),
        s[i].0 == k,
    ensures
        key_position(s, k) == Some(i),
{
}

/// A lookup keeps the entries well formed.
pub proof fn lemma_get_keeps_well_formed<K, V>(s: Seq<(K, V)>, capacity: nat, k: K)
    requires
        lru_well_formed(s, capacity),
    ensures
        lru_well_formed(lru_after_get(s, k), capacity),
{
    if let Some(i) = key_position(s, k) {
        let g = lru_after_get(s, k);
        assert forall|a: int, b: int| 0 <= a < b < g.len() implies g[a].0 != g[b].0 by {
            let bb = if b - 1 < i { b - 1 } else { b };
            assert(g[b] == s[bb]);
            if a > 0 {
                let aa = if a - 1 < i { a - 1 } else { a };
                assert(g[a] == s[aa]);
            }
        }
    }
}

/// A store keeps the entries well formed.
pub proof fn lemma_put_keeps_well_formed<K, V>(s: Seq<(K, V)>, capacity: nat, k: K, v: V)
    requires
        lru_well_formed(s, capacity),
    ensures
        lru_well_formed(lru_after_put(s, capacity, k, v), capacity),
{
    let p = lru_after_put(s, capacity, k, v);
    match key_position(s, k) {
        Some(i) => {
            assert forall|a: int, b: int| 0 <= a < b < p.len() implies p[a].0 != p[b].0 by {
                let bb = if b - 1 < i { b - 1 } else { b };
                assert(p[b] == s[bb]);
                if a > 0 {
                    let aa = if a - 1 < i { a - 1 } else { a };
                    assert(p[a] == s[aa]);
                }
            }
        },
        None => {
            assert forall|a: int, b: int| 0 <= a < b < p.len() implies p[a].0 != p[b].0 by {
                assert(p[b] == s[b - 1]);
                if a > 0 {
                    assert(p[a] == s[a - 1]);
                }
            }
        },
    }
}

/// A lookup right after storing `v` under `k` finds `v`.
pub proof fn law_lookup_after_store_finds_it<K, V>(s: Seq<(K, V)>, capacity: nat, k: K, v: V)
    requires
        lru_well_formed(s, capacity),
    ensures
        lru_get_value(lru_after_put(s, capacity, k, v), k) == Some(v),
{
    lemma_put_keeps_well_formed(s, capacity, k, v);
    lemma_position_unique(lru_after_put(s, capacity, k, v), capacity, k, 0);
}

/// Storing under a key keeps every other entry while the cache has room.
pub proof fn law_store_with_room_keeps_other_entries<K, V>(
    s: Seq<(K, V)>,
    capacity: nat,
    k: K,
    v: V,
    other: K,
)
    requires
        lru_well_formed(s, capacity),
        s.len() < capacity,
        other != k,
    ensures
        lru_get_value(lru_after_put(s, capacity, k, v), other) == lru_get_value(s, other),
{
    lemma_put_keeps_well_formed(s, capacity, k, v);
    let p = lru_after_put(s, capacity, k, v);
    match key_position(s, other) {
        Some(j) => {
            let jj = match key_position(s, k) {
                Some(i) => if j < i { j + 1 } else { j },
                None => j + 1,
            };
            if let Some(i) = key_position(s, k) {
                assert(j != i);
            }
            assert(p[jj] == s[j]);
            lemma_position_unique(p, capacity, other, jj);
        },
        None => {
            if exists|b: int| 0 <= b < p.len() && p[b].0 == other {
                let b = choose|b: int| 0 <= b < p.len() && p[b].0 == other;
                match key_position(s, k) {
                    Some(i) => {
                        let bb = if b - 1 < i { b - 1 } else { b };
                        assert(p[b] == s[bb]);
                    },
                    None => {
                        assert(p[b] == s[b - 1]);
                    },
                }
            }
        },
    }
}

/// A lookup changes no value stored in the cache.
pub proof fn law_lookup_keeps_values<K, V>(s: Seq<(K, V)>, capacity: nat, k: K, other: K)
    requires
        lru_well_formed(s, capacity),
    ensures
        lru_get_value(lru_after_get(s, k), other) == lru_get_value(s, other),
{
    lemma_get_keeps_well_formed(s, capacity, k);
    let g = lru_after_get(s, k);
    if let Some(i) = key_position(s, k) {
        match key_position(s, other) {
            Some(j) => {
                let jj = if j == i { 0 } else if j < i { j + 1 } else { j };
                assert(g[jj] == s[j]);
                lemma_position_unique(g, capacity, other, jj);
            },
            None => {
                if exists|b: int| 0 <= b < g.len() && g[b].0 == other {
                    let b = choose|b: int| 0 <= b < g.len() && g[b].0 == other;
                    if b > 0 {
                        let bb = if b - 1 < i { b - 1 } else { b };
                        assert(g[b] == s[bb]);
                    }
                }
            },
        }
    }
}

// ---------------------------------------------------------------------------
// The lru crate's cache, behind trusted items
// ---------------------------------------------------------------------------

/// The `lru` crate's cache of thumbnails, hashed with rapidhash. The
/// hasher's type has defaulted const parameters and cannot be declared to
/// Verus, so the cache is held opaquely and known through the names below.
#[verifier::external_body]
pub struct LruEntries {
    cache: LruCache<ThumbnailKey, Arc<DynamicImage>, BuildHasherDefault<RapidHasher<'static>>>,
}

/// The entries of `c`, most recently used first.
pub uninterp spec fn lru_contents(c: LruEntries) -> Seq<(KeyView, Arc<DynamicImage>)>;

/// The capacity `c` was made with.
pub uninterp spec fn lru_capacity(c: LruEntries) -> nat;

impl LruEntries {
    /// `LruCache::with_hasher`: an empty cache holding at most `capacity`
    /// entries.
    ///
    /// Trusted: the new cache is empty and has that capacity.
    #[verifier::external_body]
    fn with_capacity(capacity: usize) -> (c: LruEntries)
        requires
            capacity > 0,
        ensures
            lru_contents(c) == Seq::<(KeyView, Arc<DynamicImage>)>::empty(),
            lru_capacity(c) == capacity,
    {
        LruEntries {
            cache: LruCache::with_hasher(NonZeroUsize::new(capacity).unwrap(), Default::default()),
        }
    }

    /// `LruCache::get`, the found image's `Arc` cloned.
    ///
    /// Trusted: as the crate's source shows, a found entry is returned and
    /// moved to the front of the recency list; a missing key changes
    /// nothing. Cloning an `Arc` gives the same image.
    #[verifier::external_body]
    fn get(&mut self, k: &ThumbnailKey) -> (r: Option<Arc<DynamicImage>>)
        ensures
            r == lru_get_value(lru_contents(*old(self)), key_view(*k)),
            lru_contents(*final(self)) == lru_after_get(lru_contents(*old(self)), key_view(*k)),
            lru_capacity(*final(self)) == lru_capacity(*old(self)),
    {
        self.cache.get(k).cloned()
    }

    /// `LruCache::put`.
    ///
    /// Trusted: as the crate's source shows, the entry goes to the front of
    /// the recency list, replacing the value of an equal key; a new key in
    /// a full cache evicts the entry at the back.
    #[verifier::external_body]
    fn put(&mut self, k: ThumbnailKey, v: Arc<DynamicImage>)
        ensures
            lru_contents(*final(self)) == lru_after_put(
                lru_contents(*old(self)),
                lru_capacity(*old(self)),
                key_view(k),
                v,
            ),
            lru_capacity(*final(self)) == lru_capacity(*old(self)),
    {
        self.cache.put(k, v);
    }

    /// `LruCache::contains`.
    ///
    /// Trusted: whether an entry has the key; the recency list is untouched.
    #[verifier::external_body]
    fn contains(&self, k: &ThumbnailKey) -> (r: bool)
        ensures
            r == has_key(lru_contents(*self), key_view(*k)),
    {
        self.cache.contains(k)
    }
}

/// The bytes of `p` as the platform encodes them (`OsStr::as_encoded_bytes`).
/// They depend on the path alone.
pub uninterp spec fn path_bytes(p: PathBuf) -> Seq<u8>;

/// `OsStr::as_encoded_bytes` on the path, copied out.
///
/// Trusted: the bytes are named `path_bytes`.
#[verifier::external_body]
fn encoded_path(p: &PathBuf) -> (r: Vec<u8>)
    ensures
        r@ == path_bytes(*p),
{
    p.as_os_str().as_encoded_bytes().to_vec()
}

// ---------------------------------------------------------------------------
// The thumbnail cache
// ---------------------------------------------------------------------------

/// The number of a rotation, in the order the rotations are declared.
pub open spec fn rotation_code(rotation: Rotation) -> u8 {
    match rotation {
        Rotation::NoRotation => 0,
        Rotation::Cw90 => 1,
        Rotation::Cw180 => 2,
        Rotation::Cw270 => 3,
    }
}

/// Capacity used when zero is asked for.
pub const DEFAULT_CACHE_CAPACITY: usize = 10;

/// Longest side, in pixels, of the thumbnails the cache holds.
pub const THUMBNAIL_MAX_SIZE: u32 = 1200;

/// Least-recently-used cache of decoded thumbnails, keyed by path,
/// rotation, thumbnail size and overlay signature.
pub struct ThumbnailCache {
    pub entries: LruEntries,
    pub max_size: u32,
}

impl ThumbnailCache {
    /// The cached entries, most recently used first.
    pub open spec fn contents(&self) -> Seq<(KeyView, Arc<DynamicImage>)> {
        lru_contents(self.entries)
    }

    /// How many entries the cache holds at most.
    pub open spec fn capacity(&self) -> nat {
        lru_capacity(self.entries)
    }

    pub open spec fn wf(&self) -> bool {
        lru_well_formed(self.contents(), self.capacity())
    }

    /// The key under which the thumbnail of `path` with this rotation and
    /// overlay is kept.
    pub open spec fn key_for(&self, path: PathBuf, rotation: Rotation, overlay_signature: u64) -> KeyView {
        (path_bytes(path), rotation_code(rotation), self.max_size, overlay_signature)
    }

    /// An empty cache for `capacity` thumbnails (10 when `capacity` is 0),
    /// of at most 1200 pixels on the longest side.
    pub fn new(capacity: usize) -> (c: Self)
        ensures
            c.wf(),
            c.contents() == Seq::<(KeyView, Arc<DynamicImage>)>::empty(),
            c.capacity() == (if capacity == 0 { DEFAULT_CACHE_CAPACITY } else { capacity }),
            c.max_size == THUMBNAIL_MAX_SIZE,
    {
        let cap = if capacity == 0 { DEFAULT_CACHE_CAPACITY } else { capacity };
        ThumbnailCache { entries: LruEntries::with_capacity(cap), max_size: THUMBNAIL_MAX_SIZE }
    }

    fn key(&self, path: &PathBuf, rotation: Rotation, overlay_signature: u64) -> (k: ThumbnailKey)
        ensures
            key_view(k) == self.key_for(*path, rotation, overlay_signature),
    {
        let code: u8 = match rotation {
            Rotation::NoRotation => 0,
            Rotation::Cw90 => 1,
            Rotation::Cw180 => 2,
            Rotation::Cw270 => 3,
        };
        (encoded_path(path), code, self.max_size, overlay_signature)
    }

    /// The cached thumbnail for `path` with this rotation and overlay, if
    /// there is one; a hit becomes the most recently used entry.
    pub fn lookup(&mut self, path: &PathBuf, rotation: Rotation, overlay_signature: u64) -> (r:
        Option<Arc<DynamicImage>>)
        requires
            old(self).wf(),
        ensures
            final(self).wf(),
            final(self).max_size == old(self).max_size,
            final(self).capacity() == old(self).capacity(),
            r == lru_get_value(old(self).contents(), old(self).key_for(*path, rotation, overlay_signature)),
            final(self).contents() == lru_after_get(
                old(self).contents(),
                old(self).key_for(*path, rotation, overlay_signature),
            ),
    {
        let k = self.key(path, rotation, overlay_signature);
        let r = self.entries.get(&k);
        proof {
            lemma_get_keeps_well_formed(old(self).contents(), old(self).capacity(), key_view(k));
        }
        r
    }

    /// Keep `image` as the thumbnail for `path` with this rotation and
    /// overlay; it becomes the most recently used entry.
    pub fn store(&mut self, path: &PathBuf, rotation: Rotation, overlay_signature: u64, image: Arc<DynamicImage>)
        requires
            old(self).wf(),
        ensures
            final(self).wf(),
            final(self).max_size == old(self).max_size,
            final(self).capacity() == old(self).capacity(),
            final(self).contents() == lru_after_put(
                old(self).contents(),
                old(self).capacity(),
                old(self).key_for(*path, rotation, overlay_signature),
                image,
            ),
    {
        let k = self.key(path, rotation, overlay_signature);
        proof {
            lemma_put_keeps_well_formed(self.contents(), self.capacity(), key_view(k), image);
        }
        self.entries.put(k, image);
    }

    /// The paths, in order, whose thumbnail with this rotation and overlay
    /// is not cached: those a preload still has to decode.
    pub fn missing(&self, paths: &Vec<PathBuf>, rotation: Rotation, overlay_signature: u64) -> (r:
        Vec<PathBuf>)
        ensures
            r@ == paths@.filter(
                |p: PathBuf| !has_key(self.contents(), self.key_for(p, rotation, overlay_signature)),
            ),
    {
        let ghost pred = |p: PathBuf| !has_key(self.contents(), self.key_for(p, rotation, overlay_signature));
        let mut r: Vec<PathBuf> = Vec::new();
        let mut i: usize = 0;
        while i < paths.len()
            invariant
                i <= paths.len(),
                pred == (|p: PathBuf|
                    !has_key(self.contents(), self.key_for(p, rotation, overlay_signature))),
                r@ == paths@.take(i as int).filter(pred),
            decreases paths.len() - i,
        {
            let k = self.key(&paths[i], rotation, overlay_signature);
            let cached = self.entries.contains(&k);
            proof {
                let t = paths@.take(i + 1);
                assert(t.drop_last() =~= paths@.take(i as int));
                assert(t.last() == paths@[i as int]);
                reveal(Seq::filter);
                assert(t.filter(pred) == if pred(t.last()) {
                    t.drop_last().filter(pred).push(t.last())
                } else {
                    t.drop_last().filter(pred)
                });
                assert(pred(paths@[i as int]) == !cached);
            }
            if !cached {
                r.push(paths[i].clone());
            }
            i = i + 1;
        }
        proof {
            assert(paths@.take(paths.len() as int) =~= paths@);
        }
        r
    }
}

/// Different rotations are different keys: the thumbnail of one rotation
/// is never kept under, or found by, the key of another.
pub proof fn law_rotation_is_part_of_the_key(
    c: ThumbnailCache,
    path: PathBuf,
    r1: Rotation,
    r2: Rotation,
    overlay_signature: u64,
)
    requires
        r1 != r2,
    ensures
        rotation_code(r1) != rotation_code(r2),
        c.key_for(path, r1, overlay_signature) != c.key_for(path, r2, overlay_signature),
{
}

/// A lookup under one rotation does not see what was just stored under
/// another: with room in the cache it finds what it found before.
pub proof fn law_store_under_one_rotation_is_unseen_by_another(
    c: ThumbnailCache,
    path: PathBuf,
    r1: Rotation,
    r2: Rotation,
    overlay_signature: u64,
    image: Arc<DynamicImage>,
)
    requires
        c.wf(),
        c.contents().len() < c.capacity(),
        r1 != r2,
    ensures
        lru_get_value(
            lru_after_put(c.contents(), c.capacity(), c.key_for(path, r1, overlay_signature), image),
            c.key_for(path, r2, overlay_signature),
        ) == lru_get_value(c.contents(), c.key_for(path, r2, overlay_signature)),
{
    law_rotation_is_part_of_the_key(c, path, r1, r2, overlay_signature);
    law_store_with_room_keeps_other_entries(
        c.contents(),
        c.capacity(),
        c.key_for(path, r1, overlay_signature),
        image,
        c.key_for(path, r2, overlay_signature),
    );
}

} // verus!
