//! Image storage and lifecycle management.
//!
//! The [`ImageManager`] is the central store for all images transmitted via
//! graphics protocols. It enforces a configurable memory quota (default
//! 320 MiB) and evicts least-recently-used images when the quota would be
//! exceeded.
//!
//! Images, placement lists and pending chunked transfers are kept in vectors
//! in the order they were created, each keyed by an image id that occurs at
//! most once.

use vstd::prelude::*;
use crate::graphics::error::GraphicsError;
use crate::graphics::types::{ImageData, ImageId, ImagePlacement};

verus! {

/// Default memory quota: 320 MiB.
pub const DEFAULT_QUOTA_BYTES: usize = 335544320;

/// Maximum single image size: 64 MiB.
pub const MAX_IMAGE_BYTES: usize = 67108864;

/// Maximum number of pending chunked transfers.
pub const MAX_PENDING_CHUNKS: usize = 32;

/// Maximum accumulated size for a single chunked transfer: 64 MiB.
pub const MAX_CHUNK_ACCUMULATION: usize = 67108864;

/// A stored image with its recency stamp (a larger stamp is more recent).
pub struct StoredImage {
    pub id: u32,
    pub data: ImageData,
    pub last_access: u64,
}

struct PlacementList {
    image_id: u32,
    items: Vec<ImagePlacement>,
}

struct PendingTransfer {
    image_id: u32,
    bytes: Vec<u8>,
}

/// Manages image storage, placement tracking, and memory quota enforcement.
pub struct ImageManager {
    images: Vec<StoredImage>,
    placements: Vec<PlacementList>,
    pending_chunks: Vec<PendingTransfer>,
    total_bytes: usize,
    quota_bytes: usize,
    access_counter: u64,
    next_auto_id: u32,
}

/// How a store request ended.
pub enum StoreOutcome {
    /// The image was stored.
    Stored,
    /// The image is over the per-image size limit.
    TooLarge,
    /// The image does not fit in the quota even with every other image evicted.
    QuotaExceeded,
}

/// The abstract state of an [`ImageManager`].
#[verifier::ext_equal]
pub struct ImageManagerView {
    /// Stored images, oldest stored first.
    pub images: Seq<StoredImage>,
    /// Placement lists per image id, in the order they were created.
    pub placements: Seq<(u32, Seq<ImagePlacement>)>,
    /// Pending chunked transfers, oldest first.
    pub pending: Seq<(u32, Seq<u8>)>,
    pub total_bytes: nat,
    pub quota_bytes: nat,
    pub access_counter: u64,
    pub next_auto_id: u32,
}

// ---------------------------------------------------------------------------
// Specification helpers
// ---------------------------------------------------------------------------

/// Size in bytes of a stored image.
pub open spec fn image_size(e: StoredImage) -> nat {
    e.data.data@.len()
}

/// Sum of the sizes of the stored images.
pub open spec fn sum_sizes(s: Seq<StoredImage>) -> nat
    decreases s.len(),
{
    if s.len() == 0 {
        0
    } else {
        sum_sizes(s.drop_last()) + image_size(s.last())
    }
}

pub open spec fn has_image_id(s: Seq<StoredImage>, id: u32) -> bool {
    exists|i: int| 0 <= i < s.len() && s[i].id == id
}

pub open spec fn image_pos(s: Seq<StoredImage>, id: u32) -> int {
    choose|i: int| 0 <= i < s.len() && s[i].id == id
}

pub open spec fn unique_image_ids(s: Seq<StoredImage>) -> bool {
    forall|i: int, j: int| 0 <= i < j < s.len() ==> s[i].id != s[j].id
}

pub open spec fn distinct_stamps(s: Seq<StoredImage>) -> bool {
    forall|i: int, j: int| 0 <= i < j < s.len() ==> s[i].last_access != s[j].last_access
}

/// The sequence without the image that has the given id (if any).
pub open spec fn without_image(s: Seq<StoredImage>, id: u32) -> Seq<StoredImage> {
    if has_image_id(s, id) {
        s.remove(image_pos(s, id))
    } else {
        s
    }
}

/// Position of the least recently used image (the first one with the
/// smallest stamp).
pub open spec fn lru_pos(s: Seq<StoredImage>) -> int
    decreases s.len(),
{
    if s.len() <= 1 {
        0
    } else {
        let p = lru_pos(s.drop_last());
        if s.last().last_access < s[p].last_access {
            s.len() - 1
        } else {
            p
        }
    }
}

pub open spec fn has_key<T>(s: Seq<(u32, T)>, id: u32) -> bool {
    exists|i: int| 0 <= i < s.len() && s[i].0 == id
}

pub open spec fn key_pos<T>(s: Seq<(u32, T)>, id: u32) -> int {
    choose|i: int| 0 <= i < s.len() && s[i].0 == id
}

pub open spec fn unique_keys<T>(s: Seq<(u32, T)>) -> bool {
    forall|i: int, j: int| 0 <= i < j < s.len() ==> s[i].0 != s[j].0
}

/// The sequence without the entry that has the given key (if any).
pub open spec fn without_key<T>(s: Seq<(u32, T)>, id: u32) -> Seq<(u32, T)> {
    if has_key(s, id) {
        s.remove(key_pos(s, id))
    } else {
        s
    }
}

/// All placements, list by list.
pub open spec fn all_placements(pl: Seq<(u32, Seq<ImagePlacement>)>) -> Seq<ImagePlacement>
    decreases pl.len(),
{
    if pl.len() == 0 {
        seq![]
    } else {
        all_placements(pl.drop_last()) + pl.last().1
    }
}

pub open spec fn row_in_range(start_row: i32, end_row: i32) -> spec_fn(ImagePlacement) -> bool {
    |p: ImagePlacement| start_row <= p.row && p.row < end_row
}

pub open spec fn other_placement(placement_id: u32) -> spec_fn(ImagePlacement) -> bool {
    |p: ImagePlacement| p.placement_id != placement_id
}

/// Every placement list holds only placements of the image it is kept under.
pub open spec fn lists_match_keys(pl: Seq<(u32, Seq<ImagePlacement>)>) -> bool {
    forall|i: int, j: int|
        0 <= i < pl.len() && 0 <= j < pl[i].1.len() ==> (#[trigger] pl[i].1[j]).image_id.0
            == pl[i].0
}

/// Some placement has the given image id and placement id.
pub open spec fn has_placement(pl: Seq<(u32, Seq<ImagePlacement>)>, image_id: u32, placement_id: u32) -> bool {
    exists|i: int, j: int|
        0 <= i < pl.len() && 0 <= j < pl[i].1.len() && (#[trigger] pl[i].1[j]).image_id.0 == image_id
            && pl[i].1[j].placement_id == placement_id
}

pub open spec fn sorted_by_z(s: Seq<ImagePlacement>) -> bool {
    forall|i: int, j: int| 0 <= i < j < s.len() ==> s[i].z_index <= s[j].z_index
}

impl ImageManagerView {
    /// The invariant of the store.
    pub open spec fn wf(self) -> bool {
        &&& unique_image_ids(self.images)
        &&& distinct_stamps(self.images)
        &&& forall|i: int|
            0 <= i < self.images.len() ==> #[trigger] self.images[i].last_access
                <= self.access_counter
        &&& forall|i: int|
            0 <= i < self.images.len() ==> image_size(#[trigger] self.images[i])
                <= MAX_IMAGE_BYTES
        &&& self.total_bytes == sum_sizes(self.images)
        &&& self.total_bytes <= self.quota_bytes
        &&& self.quota_bytes <= usize::MAX
        &&& unique_keys(self.placements)
        &&& forall|i: int|
            0 <= i < self.placements.len() ==> #[trigger] self.placements[i].1.len() > 0
        &&& lists_match_keys(self.placements)
        &&& unique_keys(self.pending)
        &&& self.pending.len() <= MAX_PENDING_CHUNKS
        &&& forall|i: int|
            0 <= i < self.pending.len() ==> #[trigger] self.pending[i].1.len()
                <= MAX_CHUNK_ACCUMULATION
        &&& self.next_auto_id != 0
    }

    /// The state after removing the image `id` (if stored), keeping its placements.
    pub open spec fn drop_image_record(self, id: u32) -> ImageManagerView {
        ImageManagerView {
            images: without_image(self.images, id),
            total_bytes: if has_image_id(self.images, id) {
                (self.total_bytes - image_size(self.images[image_pos(self.images, id)])) as nat
            } else {
                self.total_bytes
            },
            ..self
        }
    }

    /// The state after evicting the least recently used image and its placements.
    pub open spec fn evict_one(self) -> ImageManagerView {
        let p = lru_pos(self.images);
        let e = self.images[p];
        ImageManagerView {
            images: self.images.remove(p),
            placements: without_key(self.placements, e.id),
            total_bytes: (self.total_bytes - image_size(e)) as nat,
            ..self
        }
    }

    /// Evicts least recently used images while an image of `size` bytes
    /// would not fit and there are images left.
    pub open spec fn evict_for(self, size: nat) -> ImageManagerView
        decreases self.images.len(),
    {
        if self.total_bytes + size > self.quota_bytes && self.images.len() > 0 {
            proof {
                lemma_lru_pos(self.images);
            }
            self.evict_one().evict_for(size)
        } else {
            self
        }
    }

    /// Storing `data` under `id`: the outcome and the resulting state.
    ///
    /// An image over the per-image limit is refused with no change. Otherwise
    /// the previous image with that id is dropped, least recently used images
    /// are evicted until the new one fits, and it is stored as the most
    /// recently used image; if it does not fit even in an empty store, the
    /// evictions stand and the quota error is returned.
    pub open spec fn store(self, id: u32, data: ImageData) -> (StoreOutcome, ImageManagerView) {
        let size = data.data@.len();
        let v2 = self.drop_image_record(id).evict_for(size);
        if size > MAX_IMAGE_BYTES {
            (StoreOutcome::TooLarge, self)
        } else if v2.total_bytes + size > v2.quota_bytes {
            (StoreOutcome::QuotaExceeded, v2)
        } else {
            (
                StoreOutcome::Stored,
                ImageManagerView {
                    images: v2.images.push(
                        StoredImage { id, data, last_access: (v2.access_counter + 1) as u64 },
                    ),
                    total_bytes: v2.total_bytes + size,
                    access_counter: (v2.access_counter + 1) as u64,
                    ..v2
                },
            )
        }
    }

    /// A chunk for `id` would start a new transfer while the pending-transfer
    /// limit is already reached.
    pub open spec fn pending_full(self, id: u32) -> bool {
        !has_key(self.pending, id) && self.pending.len() >= MAX_PENDING_CHUNKS
    }

    /// The data accumulated so far for transfer `id` in `p`.
    pub open spec fn accumulated(p: Seq<(u32, Seq<u8>)>, id: u32) -> Seq<u8> {
        if has_key(p, id) {
            p[key_pos(p, id)].1
        } else {
            seq![]
        }
    }

    /// Appending `data` to transfer `id` when there is room for it: whether
    /// it was accepted, and the resulting state. A transfer that would grow
    /// past the limit is dropped.
    pub open spec fn append(self, id: u32, data: Seq<u8>) -> (bool, ImageManagerView) {
        let p1 = self.pending;
        let acc = Self::accumulated(p1, id);
        if acc.len() + data.len() > MAX_CHUNK_ACCUMULATION {
            (false, ImageManagerView { pending: without_key(p1, id), ..self })
        } else {
            (
                true,
                ImageManagerView {
                    pending: if has_key(p1, id) {
                        p1.update(key_pos(p1, id), (id, acc + data))
                    } else {
                        p1.push((id, data))
                    },
                    ..self
                },
            )
        }
    }
}

// ---------------------------------------------------------------------------
// Lemmas
// ---------------------------------------------------------------------------

pub proof fn lemma_lru_pos(s: Seq<StoredImage>)
    requires
        s.len() > 0,
    ensures
        0 <= lru_pos(s) < s.len(),
        forall|i: int| 0 <= i < s.len() ==> s[lru_pos(s)].last_access <= #[trigger] s[i].last_access,
    decreases s.len(),
{
    if s.len() > 1 {
        let d = s.drop_last();
        lemma_lru_pos(d);
        assert forall|i: int| 0 <= i < s.len() implies s[lru_pos(s)].last_access
            <= #[trigger] s[i].last_access by {
            if i < s.len() - 1 {
                assert(s[i] == d[i]);
            }
            assert(s[lru_pos(d)] == d[lru_pos(d)]);
        }
    }
}

pub proof fn lemma_sum_sizes_remove(s: Seq<StoredImage>, i: int)
    requires
        0 <= i < s.len(),
    ensures
        sum_sizes(s.remove(i)) + image_size(s[i]) == sum_sizes(s),
    decreases s.len(),
{
    if i == s.len() - 1 {
        assert(s.remove(i) =~= s.drop_last());
    } else {
        lemma_sum_sizes_remove(s.drop_last(), i);
        assert(s.remove(i).drop_last() =~= s.drop_last().remove(i));
        assert(s.remove(i).last() == s.last());
    }
}

pub proof fn lemma_sum_sizes_push(s: Seq<StoredImage>, e: StoredImage)
    ensures
        sum_sizes(s.push(e)) == sum_sizes(s) + image_size(e),
{
    assert(s.push(e).drop_last() =~= s);
}

pub proof fn lemma_sum_sizes_update_stamp(s: Seq<StoredImage>, i: int, e: StoredImage)
    requires
        0 <= i < s.len(),
        image_size(e) == image_size(s[i]),
    ensures
        sum_sizes(s.update(i, e)) == sum_sizes(s),
    decreases s.len(),
{
    if i == s.len() - 1 {
        assert(s.update(i, e).drop_last() =~= s.drop_last());
    } else {
        lemma_sum_sizes_update_stamp(s.drop_last(), i, e);
        assert(s.update(i, e).drop_last() =~= s.drop_last().update(i, e));
    }
}

proof fn lemma_image_pos(s: Seq<StoredImage>, i: int)
    requires
        unique_image_ids(s),
        0 <= i < s.len(),
    ensures
        has_image_id(s, s[i].id),
        image_pos(s, s[i].id) == i,
{
    assert(has_image_id(s, s[i].id));
}

proof fn lemma_key_pos<T>(s: Seq<(u32, T)>, i: int)
    requires
        unique_keys(s),
        0 <= i < s.len(),
    ensures
        has_key(s, s[i].0),
        key_pos(s, s[i].0) == i,
{
    assert(has_key(s, s[i].0));
}

proof fn lemma_unique_keys_remove<T>(s: Seq<(u32, T)>, i: int)
    requires
        unique_keys(s),
        0 <= i < s.len(),
    ensures
        unique_keys(s.remove(i)),
        forall|k: u32| has_key(s.remove(i), k) <==> has_key(s, k) && k != s[i].0,
{
    let r = s.remove(i);
    assert forall|k: u32| has_key(r, k) <==> has_key(s, k) && k != s[i].0 by {
        if has_key(r, k) {
            let j = choose|j: int| 0 <= j < r.len() && r[j].0 == k;
            if j < i {
                assert(s[j].0 == k);
            } else {
                assert(s[j + 1].0 == k);
            }
        }
        if has_key(s, k) && k != s[i].0 {
            let j = choose|j: int| 0 <= j < s.len() && s[j].0 == k;
            if j < i {
                assert(r[j].0 == k);
            } else {
                assert(r[j - 1].0 == k);
            }
        }
    }
}

proof fn lemma_without_key_wf<T>(s: Seq<(u32, T)>, id: u32)
    requires
        unique_keys(s),
    ensures
        unique_keys(without_key(s, id)),
        !has_key(without_key(s, id), id),
        without_key(s, id).len() <= s.len(),
{
    if has_key(s, id) {
        let p = key_pos(s, id);
        lemma_unique_keys_remove(s, p);
    }
}

/// Removing a list keeps every remaining list non-empty and under its key.
proof fn lemma_without_key_nonempty(s: Seq<(u32, Seq<ImagePlacement>)>, id: u32)
    requires
        forall|i: int| 0 <= i < s.len() ==> #[trigger] s[i].1.len() > 0,
        lists_match_keys(s),
    ensures
        forall|i: int|
            0 <= i < without_key(s, id).len() ==> #[trigger] without_key(s, id)[i].1.len() > 0,
        lists_match_keys(without_key(s, id)),
{
    if has_key(s, id) {
        let p = key_pos(s, id);
        let r = s.remove(p);
        assert forall|i: int| 0 <= i < r.len() implies #[trigger] r[i].1.len() > 0 && r[i] == (
        if i < p {
            s[i]
        } else {
            s[i + 1]
        }) by {
            if i < p {
                assert(r[i] == s[i]);
            } else {
                assert(r[i] == s[i + 1]);
            }
        }
        assert forall|i: int, j: int| 0 <= i < r.len() && 0 <= j < r[i].1.len() implies (
        #[trigger] r[i].1[j]).image_id.0 == r[i].0 by {
            if i < p {
                assert(r[i] == s[i]);
            } else {
                assert(r[i] == s[i + 1]);
            }
        }
    }
}

/// Where no list is kept under `id`, no placement of image `id` is left.
proof fn lemma_no_placements_without_key(pl: Seq<(u32, Seq<ImagePlacement>)>, id: u32)
    requires
        lists_match_keys(pl),
        !has_key(pl, id),
    ensures
        forall|q: u32| !has_placement(pl, id, q),
{
    assert forall|q: u32| !has_placement(pl, id, q) by {
        if has_placement(pl, id, q) {
            let (a, b) = choose|a: int, b: int|
                0 <= a < pl.len() && 0 <= b < pl[a].1.len() && (#[trigger] pl[a].1[b]).image_id.0
                    == id && pl[a].1[b].placement_id == q;
            assert(pl[a].0 == id);
        }
    }
}

/// A placement of image `id` exists exactly when the list kept under `id`
/// (at `i`) holds one with that placement id.
proof fn lemma_placement_in_list(pl: Seq<(u32, Seq<ImagePlacement>)>, i: int, id: u32, q: u32)
    requires
        lists_match_keys(pl),
        unique_keys(pl),
        0 <= i < pl.len(),
        pl[i].0 == id,
    ensures
        has_placement(pl, id, q) <==> exists|b: int|
            0 <= b < pl[i].1.len() && !other_placement(q)(#[trigger] pl[i].1[b]),
{
    if has_placement(pl, id, q) {
        let (a, b) = choose|a: int, b: int|
            0 <= a < pl.len() && 0 <= b < pl[a].1.len() && (#[trigger] pl[a].1[b]).image_id.0 == id
                && pl[a].1[b].placement_id == q;
        assert(pl[a].0 == id);
        if a != i {
            if a < i {
                assert(pl[a].0 != pl[i].0);
            } else {
                assert(pl[i].0 != pl[a].0);
            }
        }
        assert(!other_placement(q)(pl[i].1[b]));
    }
    if exists|b: int| 0 <= b < pl[i].1.len() && !other_placement(q)(#[trigger] pl[i].1[b]) {
        let b = choose|b: int| 0 <= b < pl[i].1.len() && !other_placement(q)(#[trigger] pl[i].1[b]);
        assert(pl[i].1[b].image_id.0 == id);
        assert(has_placement(pl, id, q));
    }
}

/// Keeping some placements of a list keeps them all of one image.
proof fn lemma_filter_keeps_id(s: Seq<ImagePlacement>, pred: spec_fn(ImagePlacement) -> bool, id: u32)
    requires
        forall|j: int| 0 <= j < s.len() ==> (#[trigger] s[j]).image_id.0 == id,
    ensures
        forall|j: int| 0 <= j < s.filter(pred).len() ==> (#[trigger] s.filter(pred)[j]).image_id.0
            == id,
    decreases s.len(),
{
    reveal(Seq::filter);
    if s.len() > 0 {
        let d = s.drop_last();
        assert forall|j: int| 0 <= j < d.len() implies (#[trigger] d[j]).image_id.0 == id by {
            assert(d[j] == s[j]);
        }
        lemma_filter_keeps_id(d, pred, id);
        let f = s.filter(pred);
        let fd = d.filter(pred);
        assert forall|j: int| 0 <= j < f.len() implies (#[trigger] f[j]).image_id.0 == id by {
            if pred(s.last()) {
                assert(f == fd.push(s.last()));
                if j < fd.len() {
                    assert(f[j] == fd[j]);
                }
            } else {
                assert(f == fd);
            }
        }
    }
}

/// A filter keeps every element exactly when every element passes.
proof fn lemma_filter_len_all(s: Seq<ImagePlacement>, pred: spec_fn(ImagePlacement) -> bool)
    ensures
        s.filter(pred).len() == s.len() <==> forall|j: int| 0 <= j < s.len() ==> pred(#[trigger] s[j]),
        s.filter(pred).len() <= s.len(),
    decreases s.len(),
{
    reveal(Seq::filter);
    if s.len() > 0 {
        let d = s.drop_last();
        lemma_filter_len_all(d, pred);
        if forall|j: int| 0 <= j < s.len() ==> pred(#[trigger] s[j]) {
            assert forall|j: int| 0 <= j < d.len() implies pred(#[trigger] d[j]) by {
                assert(d[j] == s[j]);
                assert(pred(s[j]));
            }
            assert(pred(s[s.len() - 1]));
        } else {
            let k = choose|j: int| 0 <= j < s.len() && !pred(#[trigger] s[j]);
            if k < s.len() - 1 {
                assert(d[k] == s[k]);
            }
        }
    }
}

proof fn lemma_images_remove_wf(v: ImageManagerView, i: int)
    requires
        v.wf(),
        0 <= i < v.images.len(),
    ensures
        unique_image_ids(v.images.remove(i)),
        distinct_stamps(v.images.remove(i)),
        forall|j: int|
            0 <= j < v.images.remove(i).len() ==> #[trigger] v.images.remove(i)[j].last_access
                <= v.access_counter,
        forall|j: int|
            0 <= j < v.images.remove(i).len() ==> image_size(#[trigger] v.images.remove(i)[j])
                <= MAX_IMAGE_BYTES,
        sum_sizes(v.images.remove(i)) + image_size(v.images[i]) == sum_sizes(v.images),
        forall|k: u32|
            has_image_id(v.images.remove(i), k) <==> has_image_id(v.images, k) && k
                != v.images[i].id,
{
    let s = v.images;
    let r = s.remove(i);
    lemma_sum_sizes_remove(s, i);
    assert forall|a: int, b: int| 0 <= a < b < r.len() implies r[a].id != r[b].id
        && r[a].last_access != r[b].last_access by {
        let a2 = if a < i {
            a
        } else {
            a + 1
        };
        let b2 = if b < i {
            b
        } else {
            b + 1
        };
        assert(r[a] == s[a2]);
        assert(r[b] == s[b2]);
    }
    assert forall|j: int| 0 <= j < r.len() implies #[trigger] r[j].last_access <= v.access_counter
        && image_size(r[j]) <= MAX_IMAGE_BYTES by {
        if j < i {
            assert(r[j] == s[j]);
        } else {
            assert(r[j] == s[j + 1]);
        }
    }
    assert forall|k: u32| has_image_id(r, k) <==> has_image_id(s, k) && k != s[i].id by {
        if has_image_id(r, k) {
            let j = choose|j: int| 0 <= j < r.len() && r[j].id == k;
            if j < i {
                assert(s[j].id == k);
            } else {
                assert(s[j + 1].id == k);
            }
        }
        if has_image_id(s, k) && k != s[i].id {
            let j = choose|j: int| 0 <= j < s.len() && s[j].id == k;
            if j < i {
                assert(r[j].id == k);
            } else {
                assert(r[j - 1].id == k);
            }
        }
    }
}

proof fn lemma_drop_image_record_wf(v: ImageManagerView, id: u32)
    requires
        v.wf(),
    ensures
        v.drop_image_record(id).wf(),
        !has_image_id(v.drop_image_record(id).images, id),
        v.drop_image_record(id).quota_bytes == v.quota_bytes,
        v.drop_image_record(id).access_counter == v.access_counter,
{
    if has_image_id(v.images, id) {
        let p = image_pos(v.images, id);
        lemma_images_remove_wf(v, p);
    }
}

proof fn lemma_evict_one_wf(v: ImageManagerView)
    requires
        v.wf(),
        v.images.len() > 0,
    ensures
        v.evict_one().wf(),
        v.evict_one().images.len() == v.images.len() - 1,
        forall|k: u32|
            has_image_id(v.evict_one().images, k) <==> has_image_id(v.images, k) && k
                != v.images[lru_pos(v.images)].id,
{
    lemma_lru_pos(v.images);
    let p = lru_pos(v.images);
    lemma_images_remove_wf(v, p);
    let e = v.images[p];
    lemma_without_key_wf(v.placements, e.id);
    lemma_without_key_nonempty(v.placements, e.id);
}

proof fn lemma_evict_for_wf(v: ImageManagerView, size: nat)
    requires
        v.wf(),
    ensures
        v.evict_for(size).wf(),
        v.evict_for(size).quota_bytes == v.quota_bytes,
        v.evict_for(size).access_counter == v.access_counter,
        v.evict_for(size).next_auto_id == v.next_auto_id,
        v.evict_for(size).pending == v.pending,
        v.evict_for(size).total_bytes + size <= v.quota_bytes || v.evict_for(size).images.len()
            == 0,
        forall|k: u32| has_image_id(v.evict_for(size).images, k) ==> has_image_id(v.images, k),
    decreases v.images.len(),
{
    if v.total_bytes + size > v.quota_bytes && v.images.len() > 0 {
        lemma_evict_one_wf(v);
        lemma_evict_for_wf(v.evict_one(), size);
    }
}

/// Storing preserves the invariant.
proof fn lemma_store_wf(v: ImageManagerView, id: u32, data: ImageData)
    requires
        v.wf(),
        v.access_counter < u64::MAX,
    ensures
        v.store(id, data).1.wf(),
{
    let size = data.data@.len();
    let d = v.drop_image_record(id);
    lemma_drop_image_record_wf(v, id);
    lemma_evict_for_wf(d, size);
    let v2 = d.evict_for(size);
    if size <= MAX_IMAGE_BYTES && v2.total_bytes + size <= v2.quota_bytes {
        let e = StoredImage { id, data, last_access: (v2.access_counter + 1) as u64 };
        let w = v.store(id, data).1;
        lemma_sum_sizes_push(v2.images, e);
        let s = w.images;
        assert forall|a: int, b: int| 0 <= a < b < s.len() implies s[a].id != s[b].id
            && s[a].last_access != s[b].last_access by {
            if b == s.len() - 1 {
                assert(s[a] == v2.images[a]);
                assert(has_image_id(v2.images, s[a].id));
            }
        }
        assert forall|a: int| 0 <= a < s.len() implies #[trigger] s[a].last_access
            <= w.access_counter && image_size(s[a]) <= MAX_IMAGE_BYTES by {
            if a < s.len() - 1 {
                assert(s[a] == v2.images[a]);
            }
        }
    }
}

/// Every image kept by `evict_for` comes from the original store, and every
/// evicted image was used less recently than every kept one.
proof fn lemma_evict_for_lru(v: ImageManagerView, size: nat)
    requires
        v.wf(),
    ensures
        forall|j: int|
            0 <= j < v.evict_for(size).images.len() ==> exists|i: int|
                0 <= i < v.images.len() && v.images[i] == #[trigger] v.evict_for(size).images[j],
        forall|i: int, j: int|
            0 <= i < v.images.len() && 0 <= j < v.evict_for(size).images.len() && !has_image_id(
                v.evict_for(size).images,
                v.images[i].id,
            ) ==> #[trigger] v.images[i].last_access
                < #[trigger] v.evict_for(size).images[j].last_access,
    decreases v.images.len(),
{
    let w = v.evict_for(size);
    if v.total_bytes + size > v.quota_bytes && v.images.len() > 0 {
        let u = v.evict_one();
        lemma_evict_one_wf(v);
        lemma_lru_pos(v.images);
        lemma_evict_for_lru(u, size);
        let p = lru_pos(v.images);
        assert(w == u.evict_for(size));
        assert forall|j: int| 0 <= j < w.images.len() implies exists|i: int|
            0 <= i < v.images.len() && v.images[i] == #[trigger] w.images[j] by {
            let k = choose|k: int| 0 <= k < u.images.len() && u.images[k] == w.images[j];
            if k < p {
                assert(v.images[k] == w.images[j]);
            } else {
                assert(v.images[k + 1] == w.images[j]);
            }
        }
        assert forall|i: int, j: int|
            0 <= i < v.images.len() && 0 <= j < w.images.len() && !has_image_id(
                w.images,
                v.images[i].id,
            ) implies #[trigger] v.images[i].last_access < #[trigger] w.images[j].last_access by {
            let k = choose|k: int| 0 <= k < u.images.len() && u.images[k] == w.images[j];
            let k2 = if k < p {
                k
            } else {
                k + 1
            };
            assert(v.images[k2] == w.images[j]);
            if i == p {
                assert(k2 != p);
                assert(v.images[p].last_access <= v.images[k2].last_access);
            } else {
                let i2 = if i < p {
                    i
                } else {
                    i - 1
                };
                assert(u.images[i2] == v.images[i]);
            }
        }
    }
}

/// Law: the memory in use is exactly the sum of the stored image sizes, and
/// it never exceeds the quota; no stored image is over the per-image limit.
pub proof fn lemma_memory_accounting(v: ImageManagerView)
    requires
        v.wf(),
    ensures
        v.total_bytes == sum_sizes(v.images),
        v.total_bytes <= v.quota_bytes,
        forall|i: int| 0 <= i < v.images.len() ==> image_size(#[trigger] v.images[i]) <= MAX_IMAGE_BYTES,
{
}

/// Law: a store is refused as too large exactly when the image is over the
/// per-image limit, and succeeds exactly when the image is within both the
/// per-image limit and the quota (whatever else is stored).
pub proof fn lemma_store_succeeds_iff(v: ImageManagerView, id: u32, data: ImageData)
    requires
        v.wf(),
    ensures
        (v.store(id, data).0 is TooLarge) <==> data.data@.len() > MAX_IMAGE_BYTES,
        (v.store(id, data).0 is Stored) <==> data.data@.len() <= MAX_IMAGE_BYTES
            && data.data@.len() <= v.quota_bytes,
{
    let size = data.data@.len();
    let d = v.drop_image_record(id);
    lemma_drop_image_record_wf(v, id);
    lemma_evict_for_wf(d, size);
}

/// Law: after a successful store, the image is stored under its id with
/// exactly the given data, and it is the most recently used image.
pub proof fn lemma_store_then_present(v: ImageManagerView, id: u32, data: ImageData)
    requires
        v.wf(),
        v.access_counter < u64::MAX,
        v.store(id, data).0 is Stored,
    ensures
        has_image_id(v.store(id, data).1.images, id),
        v.store(id, data).1.images[image_pos(v.store(id, data).1.images, id)].data == data,
        forall|i: int|
            0 <= i < v.store(id, data).1.images.len() && v.store(id, data).1.images[i].id != id
                ==> #[trigger] v.store(id, data).1.images[i].last_access < v.store(
                id,
                data,
            ).1.images[image_pos(v.store(id, data).1.images, id)].last_access,
{
    lemma_store_wf(v, id, data);
    let w = v.store(id, data).1;
    let n = w.images.len() - 1;
    lemma_image_pos(w.images, n);
}

/// Law: the images a store evicts were each used less recently than every
/// image that remains stored (least-recently-used eviction).
pub proof fn lemma_store_evicts_least_recent(v: ImageManagerView, id: u32, data: ImageData)
    requires
        v.wf(),
        v.access_counter < u64::MAX,
    ensures
        forall|i: int, j: int|
            0 <= i < v.images.len() && 0 <= j < v.store(id, data).1.images.len() && v.images[i].id
                != id && !has_image_id(v.store(id, data).1.images, v.images[i].id)
                ==> #[trigger] v.images[i].last_access
                < #[trigger] v.store(id, data).1.images[j].last_access,
{
    let size = data.data@.len();
    let d = v.drop_image_record(id);
    lemma_drop_image_record_wf(v, id);
    lemma_evict_for_wf(d, size);
    lemma_evict_for_lru(d, size);
    let v2 = d.evict_for(size);
    let w = v.store(id, data).1;
    if size <= MAX_IMAGE_BYTES {
        assert forall|i: int, j: int|
            0 <= i < v.images.len() && 0 <= j < w.images.len() && v.images[i].id != id
                && !has_image_id(w.images, v.images[i].id) implies #[trigger] v.images[i].last_access
            < #[trigger] w.images[j].last_access by {
            // the image is in the store after the old record of `id` is dropped
            let i2 = if has_image_id(v.images, id) && i > image_pos(v.images, id) {
                i - 1
            } else {
                i
            };
            if has_image_id(v.images, id) {
                lemma_images_remove_wf(v, image_pos(v.images, id));
            }
            assert(d.images[i2] == v.images[i]);
            if v2.total_bytes + size > v2.quota_bytes {
                assert(w == v2);
            } else if j == w.images.len() - 1 {
                assert(v.images[i].last_access <= v.access_counter);
            } else {
                assert(w.images[j] == v2.images[j]);
                assert(!has_image_id(v2.images, v.images[i].id)) by {
                    if has_image_id(v2.images, v.images[i].id) {
                        let k = choose|k: int| 0 <= k < v2.images.len() && v2.images[k].id == v.images[i].id;
                        assert(w.images[k] == v2.images[k]);
                    }
                }
            }
        }
    }
}

/// Law: auto-assigned image ids are never 0 (0 means "no explicit id").
pub proof fn lemma_auto_id_never_zero(v: ImageManagerView)
    requires
        v.wf(),
    ensures
        v.next_auto_id != 0,
{
}

/// Law: chunks appended to a new transfer accumulate in order, so the
/// completed transfer holds their concatenation.
pub proof fn lemma_chunks_accumulate(v: ImageManagerView, id: u32, a: Seq<u8>, b: Seq<u8>)
    requires
        v.wf(),
        !has_key(v.pending, id),
        v.pending.len() < MAX_PENDING_CHUNKS,
        a.len() + b.len() <= MAX_CHUNK_ACCUMULATION,
    ensures
        !v.pending_full(id),
        !v.append(id, a).1.pending_full(id),
        v.append(id, a).0,
        v.append(id, a).1.append(id, b).0,
        has_key(v.append(id, a).1.append(id, b).1.pending, id),
        ({
            let p = v.append(id, a).1.append(id, b).1.pending;
            p[key_pos(p, id)].1 == a + b
        }),
{
    let p1 = v.pending;
    assert(!has_key(p1, id));
    assert(ImageManagerView::accumulated(p1, id) =~= seq![]);
    let v1 = v.append(id, a).1;
    assert(v1.pending == p1.push((id, a)));
    lemma_key_pos_push(p1, id, a);
    let q = v1.pending;
    let p = v1.append(id, b).1.pending;
    assert(ImageManagerView::accumulated(q, id) == a);
    assert(p == q.update(key_pos(q, id), (id, a + b)));
    assert(p[key_pos(q, id)].0 == id);
    assert(has_key(p, id));
    assert forall|x: int, y: int| 0 <= x < y < p.len() implies p[x].0 != p[y].0 by {
        assert(p[x].0 == q[x].0);
        assert(p[y].0 == q[y].0);
    }
    lemma_key_pos(p, key_pos(q, id));
}

proof fn lemma_key_pos_push<T>(s: Seq<(u32, T)>, id: u32, x: T)
    requires
        unique_keys(s),
        !has_key(s, id),
    ensures
        unique_keys(s.push((id, x))),
        has_key(s.push((id, x)), id),
        key_pos(s.push((id, x)), id) == s.len(),
{
    let t = s.push((id, x));
    assert forall|a: int, b: int| 0 <= a < b < t.len() implies t[a].0 != t[b].0 by {
        if b == s.len() {
            assert(t[a] == s[a]);
        }
    }
    lemma_key_pos(t, s.len() as int);
}

// ---------------------------------------------------------------------------
// Implementation
// ---------------------------------------------------------------------------

impl View for ImageManager {
    type V = ImageManagerView;

    closed spec fn view(&self) -> ImageManagerView {
        ImageManagerView {
            images: self.images@,
            placements: self.placements@.map_values(|l: PlacementList| (l.image_id, l.items@)),
            pending: self.pending_chunks@.map_values(|t: PendingTransfer| (t.image_id, t.bytes@)),
            total_bytes: self.total_bytes as nat,
            quota_bytes: self.quota_bytes as nat,
            access_counter: self.access_counter,
            next_auto_id: self.next_auto_id,
        }
    }
}

impl ImageManager {
    /// The invariant of the store.
    pub open spec fn wf(&self) -> bool {
        self@.wf()
    }

    /// Create a new image manager with the default quota (320 MiB).
    pub fn new() -> (r: Self)
        ensures
            r.wf(),
            r@ == (ImageManagerView {
                images: seq![],
                placements: seq![],
                pending: seq![],
                total_bytes: 0,
                quota_bytes: DEFAULT_QUOTA_BYTES as nat,
                access_counter: 0,
                next_auto_id: 1,
            }),
    {
        let r = ImageManager {
            images: Vec::new(),
            placements: Vec::new(),
            pending_chunks: Vec::new(),
            total_bytes: 0,
            quota_bytes: DEFAULT_QUOTA_BYTES,
            access_counter: 0,
            next_auto_id: 1,
        };
        proof {
            assert(r@.placements =~= seq![]);
            assert(r@.pending =~= seq![]);
        }
        r
    }

    /// Create a new image manager with a custom quota.
    pub fn with_quota(quota_bytes: usize) -> (r: Self)
        ensures
            r.wf(),
            r@ == (ImageManagerView {
                images: seq![],
                placements: seq![],
                pending: seq![],
                total_bytes: 0,
                quota_bytes: quota_bytes as nat,
                access_counter: 0,
                next_auto_id: 1,
            }),
    {
        let mut r = Self::new();
        r.quota_bytes = quota_bytes;
        r
    }

    /// Returns the current total memory usage in bytes.
    pub fn total_bytes(&self) -> (r: usize)
        ensures
            r == self@.total_bytes,
    {
        self.total_bytes
    }

    /// Returns the configured memory quota in bytes.
    pub fn quota_bytes(&self) -> (r: usize)
        ensures
            r == self@.quota_bytes,
    {
        self.quota_bytes
    }

    /// Returns the number of stored images.
    pub fn image_count(&self) -> (r: usize)
        ensures
            r == self@.images.len(),
    {
        self.images.len()
    }

    /// Allocate the next auto-assigned image ID, skipping 0 on wrap-around.
    pub fn next_image_id(&mut self) -> (r: ImageId)
        requires
            old(self).wf(),
        ensures
            final(self).wf(),
            r.0 == old(self)@.next_auto_id,
            final(self)@ == (ImageManagerView {
                next_auto_id: if old(self)@.next_auto_id == u32::MAX {
                    1u32
                } else {
                    (old(self)@.next_auto_id + 1) as u32
                },
                ..old(self)@
            }),
    {
        let id = self.next_auto_id;
        self.next_auto_id = self.next_auto_id.wrapping_add(1);
        if self.next_auto_id == 0 {
            self.next_auto_id = 1;
        }
        ImageId(id)
    }

    /// Position of the image with the given id.
    fn find_image(&self, id: u32) -> (r: Option<usize>)
        requires
            self.wf(),
        ensures
            match r {
                Some(i) => i < self@.images.len() && self@.images[i as int].id == id
                    && has_image_id(self@.images, id) && image_pos(self@.images, id) == i,
                None => !has_image_id(self@.images, id),
            },
    {
        let mut i: usize = 0;
        while i < self.images.len()
            invariant
                self.wf(),
                i <= self@.images.len(),
                forall|j: int| 0 <= j < i ==> self@.images[j].id != id,
            decreases self@.images.len() - i,
        {
            if self.images[i].id == id {
                proof {
                    lemma_image_pos(self@.images, i as int);
                }
                return Some(i);
            }
            i += 1;
        }
        None
    }

    /// Position of the placement list of the given image.
    fn find_list(&self, id: u32) -> (r: Option<usize>)
        requires
            self.wf(),
        ensures
            match r {
                Some(i) => i < self@.placements.len() && self@.placements[i as int].0 == id
                    && has_key(self@.placements, id) && key_pos(self@.placements, id) == i,
                None => !has_key(self@.placements, id),
            },
    {
        let mut i: usize = 0;
        while i < self.placements.len()
            invariant
                self.wf(),
                i <= self@.placements.len(),
                forall|j: int| 0 <= j < i ==> self@.placements[j].0 != id,
            decreases self@.placements.len() - i,
        {
            if self.placements[i].image_id == id {
                proof {
                    lemma_key_pos(self@.placements, i as int);
                }
                return Some(i);
            }
            i += 1;
        }
        proof {
            assert forall|j: int| 0 <= j < self@.placements.len() implies self@.placements[j].0
                != id by {
                assert(self@.placements[j].0 == self.placements@[j].image_id);
            }
        }
        None
    }

    /// Position of the pending transfer of the given image.
    fn find_pending(&self, id: u32) -> (r: Option<usize>)
        requires
            self.wf(),
        ensures
            match r {
                Some(i) => i < self@.pending.len() && self@.pending[i as int].0 == id
                    && has_key(self@.pending, id) && key_pos(self@.pending, id) == i,
                None => !has_key(self@.pending, id),
            },
    {
        let mut i: usize = 0;
        while i < self.pending_chunks.len()
            invariant
                self.wf(),
                i <= self@.pending.len(),
                forall|j: int| 0 <= j < i ==> self@.pending[j].0 != id,
            decreases self@.pending.len() - i,
        {
            if self.pending_chunks[i].image_id == id {
                proof {
                    lemma_key_pos(self@.pending, i as int);
                }
                return Some(i);
            }
            i += 1;
        }
        proof {
            assert forall|j: int| 0 <= j < self@.pending.len() implies self@.pending[j].0
                != id by {
                assert(self@.pending[j].0 == self.pending_chunks@[j].image_id);
            }
        }
        None
    }

    /// Removes the placement list of the given image, if any.
    fn remove_list(&mut self, id: u32)
        requires
            old(self).wf(),
        ensures
            final(self)@ == (ImageManagerView {
                placements: without_key(old(self)@.placements, id),
                ..old(self)@
            }),
    {
        match self.find_list(id) {
            Some(i) => {
                let ghost before = self.placements@;
                self.placements.remove(i);
                proof {
                    assert(self@.placements =~= old(self)@.placements.remove(i as int));
                }
            },
            None => {},
        }
    }

    /// Removes the image at position `i`, reclaiming its memory.
    fn remove_image_at(&mut self, i: usize) -> (e: StoredImage)
        requires
            old(self).wf(),
            i < old(self)@.images.len(),
        ensures
            e == old(self)@.images[i as int],
            final(self)@ == (ImageManagerView {
                images: old(self)@.images.remove(i as int),
                total_bytes: (old(self)@.total_bytes - image_size(e)) as nat,
                ..old(self)@
            }),
    {
        proof {
            lemma_sum_sizes_remove(self@.images, i as int);
        }
        let e = self.images.remove(i);
        self.total_bytes = self.total_bytes - e.data.data.len();
        e
    }

    /// Evict the least-recently-used image and its placements; an empty
    /// store is left as it is.
    fn evict_lru(&mut self)
        requires
            old(self).wf(),
        ensures
            final(self).wf(),
            old(self)@.images.len() > 0 ==> final(self)@ == old(self)@.evict_one(),
            old(self)@.images.len() == 0 ==> final(self)@ == old(self)@,
    {
        let n = self.images.len();
        if n == 0 {
            return;
        }
        let mut best: usize = 0;
        let mut j: usize = 1;
        while j < n
            invariant
                n == self@.images.len(),
                1 <= j <= n,
                best < j,
                best == lru_pos(self@.images.take(j as int)),
            decreases n - j,
        {
            proof {
                assert(self@.images.take(j as int + 1).drop_last() =~= self@.images.take(j as int));
            }
            if self.images[j].last_access < self.images[best].last_access {
                best = j;
            }
            j += 1;
        }
        proof {
            assert(self@.images.take(n as int) =~= self@.images);
            lemma_evict_one_wf(self@);
        }
        let e = self.remove_image_at(best);
        self.remove_list(e.id);
    }

    /// Store an image. If an image with the same ID already exists, it is replaced.
    ///
    /// Enforces the per-image size limit and evicts least recently used images
    /// while the total quota would be exceeded.
    pub fn store_image(&mut self, id: ImageId, data: ImageData) -> (r: Result<(), GraphicsError>)
        requires
            old(self).wf(),
            old(self)@.access_counter < u64::MAX,
        ensures
            final(self).wf(),
            ({
                let (outcome, w) = old(self)@.store(id.0, data);
                &&& final(self)@ == w
                &&& match outcome {
                    StoreOutcome::Stored => r is Ok,
                    StoreOutcome::TooLarge => r matches Err(
                        GraphicsError::ImageTooLarge { size: s, max: m },
                    ) && s == data.data@.len() && m == MAX_IMAGE_BYTES,
                    StoreOutcome::QuotaExceeded => r matches Err(
                        GraphicsError::QuotaExceeded { used: u, quota: q },
                    ) && u == w.total_bytes + data.data@.len() && q == w.quota_bytes,
                }
            }),
    {
        let size = data.data.len();
        if size > MAX_IMAGE_BYTES {
            return Err(GraphicsError::ImageTooLarge { size, max: MAX_IMAGE_BYTES });
        }
        proof {
            lemma_drop_image_record_wf(self@, id.0);
        }
        match self.find_image(id.0) {
            Some(i) => {
                let _old = self.remove_image_at(i);
            },
            None => {},
        }
        let ghost start = self@;
        assert(self@ == old(self)@.drop_image_record(id.0));
        while size > self.quota_bytes - self.total_bytes && self.images.len() > 0
            invariant
                self.wf(),
                size <= MAX_IMAGE_BYTES,
                start.wf(),
                self@.evict_for(size as nat) == start.evict_for(size as nat),
            decreases self@.images.len(),
        {
            proof {
                lemma_evict_one_wf(self@);
            }
            self.evict_lru();
        }
        proof {
            lemma_evict_for_wf(start, size as nat);
        }
        if size > self.quota_bytes - self.total_bytes {
            return Err(
                GraphicsError::QuotaExceeded { used: self.total_bytes + size, quota: self.quota_bytes },
            );
        }
        self.access_counter = self.access_counter + 1;
        let ghost before = self@;
        let entry = StoredImage { id: id.0, data, last_access: self.access_counter };
        proof {
            lemma_sum_sizes_push(self@.images, entry);
        }
        self.images.push(entry);
        self.total_bytes = self.total_bytes + size;
        proof {
            let s = self@.images;
            assert forall|a: int, b: int| 0 <= a < b < s.len() implies s[a].id != s[b].id
                && s[a].last_access != s[b].last_access by {
                if b == s.len() - 1 {
                    assert(s[a] == before.images[a]);
                    assert(has_image_id(start.images, s[a].id));
                }
            }
            assert(!has_image_id(start.images, id.0));
        }
        Ok(())
    }

    /// Retrieve image data by ID, marking it as the most recently used.
    ///
    /// The access counter advances even when the image is not found.
    pub fn get_image(&mut self, id: ImageId) -> (r: Result<&ImageData, GraphicsError>)
        requires
            old(self).wf(),
            old(self)@.access_counter < u64::MAX,
        ensures
            final(self).wf(),
            ({
                let v = old(self)@;
                let c = (v.access_counter + 1) as u64;
                if has_image_id(v.images, id.0) {
                    let p = image_pos(v.images, id.0);
                    &&& r matches Ok(d) && *d == v.images[p].data
                    &&& final(self)@ == (ImageManagerView {
                        images: v.images.update(
                            p,
                            StoredImage { id: id.0, data: v.images[p].data, last_access: c },
                        ),
                        access_counter: c,
                        ..v
                    })
                } else {
                    &&& r matches Err(GraphicsError::ImageNotFound(i)) && i == id
                    &&& final(self)@ == (ImageManagerView { access_counter: c, ..v })
                }
            }),
    {
        self.access_counter = self.access_counter + 1;
        let counter = self.access_counter;
        match self.find_image(id.0) {
            Some(i) => {
                let ghost before = self@.images;
                let e = self.images.remove(i);
                let updated = StoredImage { id: e.id, data: e.data, last_access: counter };
                self.images.insert(i, updated);
                proof {
                    assert(self@.images =~= before.update(i as int, updated));
                    lemma_sum_sizes_update_stamp(before, i as int, updated);
                    let s = self@.images;
                    assert forall|a: int, b: int| 0 <= a < b < s.len() implies s[a].id != s[b].id
                        && s[a].last_access != s[b].last_access by {
                        if a != i {
                            assert(s[a] == before[a]);
                        }
                        if b != i {
                            assert(s[b] == before[b]);
                        }
                    }
                    assert forall|a: int| 0 <= a < s.len() implies #[trigger] s[a].last_access
                        <= self@.access_counter && image_size(s[a]) <= MAX_IMAGE_BYTES by {
                        if a != i {
                            assert(s[a] == before[a]);
                        }
                    }
                }
                Ok(&self.images[i].data)
            },
            None => Err(GraphicsError::ImageNotFound(id)),
        }
    }

    /// Check if an image exists without updating its recency.
    pub fn has_image(&self, id: ImageId) -> (r: bool)
        requires
            self.wf(),
        ensures
            r == has_image_id(self@.images, id.0),
    {
        self.find_image(id.0).is_some()
    }

    /// Delete an image and all its placements.
    pub fn delete_image(&mut self, id: ImageId) -> (r: Result<(), GraphicsError>)
        requires
            old(self).wf(),
        ensures
            final(self).wf(),
            ({
                let v = old(self)@;
                if has_image_id(v.images, id.0) {
                    &&& r is Ok
                    &&& final(self)@ == (ImageManagerView {
                        placements: without_key(v.placements, id.0),
                        ..v.drop_image_record(id.0)
                    })
                } else {
                    &&& r matches Err(GraphicsError::ImageNotFound(i)) && i == id
                    &&& final(self)@ == v
                }
            }),
            r is Ok ==> forall|q: u32| !has_placement(final(self)@.placements, id.0, q),
    {
        match self.find_image(id.0) {
            Some(i) => {
                proof {
                    lemma_drop_image_record_wf(self@, id.0);
                    lemma_without_key_wf(self@.placements, id.0);
                    lemma_without_key_nonempty(self@.placements, id.0);
                }
                let _e = self.remove_image_at(i);
                self.remove_list(id.0);
                proof {
                    lemma_no_placements_without_key(self@.placements, id.0);
                }
                Ok(())
            },
            None => Err(GraphicsError::ImageNotFound(id)),
        }
    }

    /// Delete all images, placements and pending transfers.
    pub fn delete_all(&mut self)
        requires
            old(self).wf(),
        ensures
            final(self).wf(),
            final(self)@ == (ImageManagerView {
                images: seq![],
                placements: seq![],
                pending: seq![],
                total_bytes: 0,
                ..old(self)@
            }),
    {
        self.images.clear();
        self.placements.clear();
        self.pending_chunks.clear();
        self.total_bytes = 0;
        proof {
            assert(self@.placements =~= seq![]);
            assert(self@.pending =~= seq![]);
        }
    }
}


impl ImageManager {
    /// Add a placement for an existing image.
    pub fn place_image(&mut self, placement: ImagePlacement) -> (r: Result<(), GraphicsError>)
        requires
            old(self).wf(),
        ensures
            final(self).wf(),
            ({
                let v = old(self)@;
                let id = placement.image_id.0;
                if !has_image_id(v.images, id) {
                    &&& r matches Err(GraphicsError::ImageNotFound(i)) && i == placement.image_id
                    &&& final(self)@ == v
                } else if has_key(v.placements, id) {
                    let p = key_pos(v.placements, id);
                    &&& r is Ok
                    &&& final(self)@ == (ImageManagerView {
                        placements: v.placements.update(p, (id, v.placements[p].1.push(placement))),
                        ..v
                    })
                } else {
                    &&& r is Ok
                    &&& final(self)@ == (ImageManagerView {
                        placements: v.placements.push((id, seq![placement])),
                        ..v
                    })
                }
            }),
    {
        let id = placement.image_id;
        if self.find_image(id.0).is_none() {
            return Err(GraphicsError::ImageNotFound(id));
        }
        let ghost before = self@.placements;
        match self.find_list(id.0) {
            Some(i) => {
                let mut list = self.placements.remove(i);
                list.items.push(placement);
                self.placements.insert(i, list);
                proof {
                    assert(self@.placements =~= before.update(
                        i as int,
                        (id.0, before[i as int].1.push(placement)),
                    ));
                    let s = self@.placements;
                    assert forall|a: int, b: int| 0 <= a < b < s.len() implies s[a].0 != s[b].0 by {
                        assert(s[a].0 == before[a].0);
                        assert(s[b].0 == before[b].0);
                    }
                    assert forall|a: int| 0 <= a < s.len() implies #[trigger] s[a].1.len() > 0 by {
                        if a != i {
                            assert(s[a] == before[a]);
                        }
                    }
                }
            },
            None => {
                let mut items: Vec<ImagePlacement> = Vec::new();
                items.push(placement);
                self.placements.push(PlacementList { image_id: id.0, items });
                proof {
                    assert(self@.placements =~= before.push((id.0, seq![placement])));
                    let s = self@.placements;
                    assert forall|a: int, b: int| 0 <= a < b < s.len() implies s[a].0 != s[b].0 by {
                        if b == s.len() - 1 {
                            assert(s[a] == before[a]);
                        }
                    }
                    assert forall|a: int| 0 <= a < s.len() implies #[trigger] s[a].1.len() > 0 by {
                        if a < s.len() - 1 {
                            assert(s[a] == before[a]);
                        }
                    }
                }
            },
        }
        Ok(())
    }

    /// Delete a specific placement (every placement of the image that has
    /// the given placement id).
    pub fn delete_placement(&mut self, image_id: ImageId, placement_id: u32) -> (r: Result<
        (),
        GraphicsError,
    >)
        requires
            old(self).wf(),
        ensures
            final(self).wf(),
            ({
                let v = old(self)@;
                let id = image_id.0;
                let p = key_pos(v.placements, id);
                let kept = v.placements[p].1.filter(other_placement(placement_id));
                if !has_key(v.placements, id) || kept.len() == v.placements[p].1.len() {
                    &&& r matches Err(GraphicsError::PlacementNotFound { image_id: i, placement_id: q })
                    &&& i == image_id && q == placement_id
                    &&& final(self)@ == v
                } else if kept.len() == 0 {
                    &&& r is Ok
                    &&& final(self)@ == (ImageManagerView {
                        placements: v.placements.remove(p),
                        ..v
                    })
                } else {
                    &&& r is Ok
                    &&& final(self)@ == (ImageManagerView {
                        placements: v.placements.update(p, (id, kept)),
                        ..v
                    })
                }
            }),
            r is Ok <==> has_placement(old(self)@.placements, image_id.0, placement_id),
    {
        let i = match self.find_list(image_id.0) {
            Some(i) => i,
            None => {
                proof {
                    lemma_no_placements_without_key(self@.placements, image_id.0);
                }
                return Err(GraphicsError::PlacementNotFound { image_id, placement_id });
            },
        };
        let ghost before = self@.placements;
        let ghost items = before[i as int].1;
        let mut kept: Vec<ImagePlacement> = Vec::new();
        let mut j: usize = 0;
        let n = self.placements[i].items.len();
        while j < n
            invariant
                i < self.placements@.len(),
                n == items.len(),
                items == self.placements@[i as int].items@,
                j <= n,
                kept@ == items.take(j as int).filter(other_placement(placement_id)),
            decreases n - j,
        {
            let p = self.placements[i].items[j];
            proof {
                assert(items.take(j as int + 1) =~= items.take(j as int).push(p));
                items.take(j as int).lemma_filter_push(p, other_placement(placement_id));
            }
            if p.placement_id != placement_id {
                kept.push(p);
            }
            j += 1;
        }
        proof {
            assert(items.take(n as int) =~= items);
            lemma_filter_len_all(items, other_placement(placement_id));
            lemma_placement_in_list(before, i as int, image_id.0, placement_id);
        }
        if kept.len() == n {
            return Err(GraphicsError::PlacementNotFound { image_id, placement_id });
        }
        if kept.len() == 0 {
            self.placements.remove(i);
            proof {
                assert(self@.placements =~= before.remove(i as int));
                lemma_unique_keys_remove(before, i as int);
                let s = self@.placements;
                assert forall|a: int| 0 <= a < s.len() implies #[trigger] s[a].1.len() > 0 && s[a]
                    == (if a < i {
                    before[a]
                } else {
                    before[a + 1]
                }) by {
                    if a < i {
                        assert(s[a] == before[a]);
                    } else {
                        assert(s[a] == before[a + 1]);
                    }
                }
                assert forall|a: int, b: int| 0 <= a < s.len() && 0 <= b < s[a].1.len() implies (
                #[trigger] s[a].1[b]).image_id.0 == s[a].0 by {
                    if a < i {
                        assert(s[a] == before[a]);
                    } else {
                        assert(s[a] == before[a + 1]);
                    }
                }
            }
        } else {
            let ghost kept_view = kept@;
            let mut list = self.placements.remove(i);
            list.items = kept;
            self.placements.insert(i, list);
            proof {
                assert(self@.placements =~= before.update(i as int, (image_id.0, kept_view)));
                let s = self@.placements;
                assert forall|a: int, b: int| 0 <= a < b < s.len() implies s[a].0 != s[b].0 by {
                    assert(s[a].0 == before[a].0);
                    assert(s[b].0 == before[b].0);
                }
                assert forall|a: int| 0 <= a < s.len() implies #[trigger] s[a].1.len() > 0 by {
                    if a != i {
                        assert(s[a] == before[a]);
                    }
                }
                assert forall|b: int| 0 <= b < items.len() implies (#[trigger] items[b]).image_id.0
                    == image_id.0 by {
                    assert(before[i as int].1[b] == items[b]);
                }
                lemma_filter_keeps_id(items, other_placement(placement_id), image_id.0);
                assert forall|a: int, b: int| 0 <= a < s.len() && 0 <= b < s[a].1.len() implies (
                #[trigger] s[a].1[b]).image_id.0 == s[a].0 by {
                    if a != i {
                        assert(s[a] == before[a]);
                    } else {
                        assert(s[a].1 == kept_view);
                    }
                }
            }
        }
        Ok(())
    }

    /// Get all placements whose row falls within `[start_row, end_row)`,
    /// ordered by z-index (lowest first) for correct layering.
    pub fn get_placements_in_range(&self, start_row: i32, end_row: i32) -> (r: Vec<&ImagePlacement>)
        requires
            self.wf(),
        ensures
            sorted_by_z(r@.map_values(|p: &ImagePlacement| *p)),
            r@.map_values(|p: &ImagePlacement| *p).to_multiset() == all_placements(
                self@.placements,
            ).filter(row_in_range(start_row, end_row)).to_multiset(),
    {
        broadcast use vstd::seq_lib::group_to_multiset_ensures;

        let ghost pl = self@.placements;
        let ghost f = row_in_range(start_row, end_row);
        let mut result: Vec<&ImagePlacement> = Vec::new();
        let mut i: usize = 0;
        while i < self.placements.len()
            invariant
                pl == self@.placements,
                f == row_in_range(start_row, end_row),
                i <= pl.len(),
                sorted_by_z(result@.map_values(|p: &ImagePlacement| *p)),
                result@.map_values(|p: &ImagePlacement| *p).to_multiset() == all_placements(
                    pl.take(i as int),
                ).filter(f).to_multiset(),
            decreases pl.len() - i,
        {
            let ghost prefix = all_placements(pl.take(i as int));
            let items = &self.placements[i].items;
            proof {
                assert(pl.take(i as int + 1).drop_last() =~= pl.take(i as int));
                assert(all_placements(pl.take(i as int + 1)) == prefix + items@);
            }
            let mut j: usize = 0;
            while j < items.len()
                invariant
                    i < pl.len(),
                    f == row_in_range(start_row, end_row),
                    items@ == pl[i as int].1,
                    j <= items@.len(),
                    sorted_by_z(result@.map_values(|p: &ImagePlacement| *p)),
                    result@.map_values(|p: &ImagePlacement| *p).to_multiset() == (prefix
                        + items@.take(j as int)).filter(f).to_multiset(),
                decreases items@.len() - j,
            {
                let p = &items[j];
                proof {
                    assert(prefix + items@.take(j as int + 1) =~= (prefix + items@.take(
                        j as int,
                    )).push(*p));
                    (prefix + items@.take(j as int)).lemma_filter_push(*p, f);
                    assert(f(*p) == (start_row <= p.row && p.row < end_row));
                }
                if start_row <= p.row && p.row < end_row {
                    // insert after every placement with a z-index not above this one
                    let ghost old_seq = result@.map_values(|q: &ImagePlacement| *q);
                    let mut k: usize = result.len();
                    while k > 0 && result[k - 1].z_index > p.z_index
                        invariant
                            k <= result@.len(),
                            old_seq == result@.map_values(|q: &ImagePlacement| *q),
                            forall|m: int| k <= m < old_seq.len() ==> old_seq[m].z_index > p.z_index,
                        decreases k,
                    {
                        k -= 1;
                    }
                    result.insert(k, p);
                    proof {
                        let new_seq = result@.map_values(|q: &ImagePlacement| *q);
                        assert(new_seq =~= old_seq.insert(k as int, *p));
                        vstd::seq_lib::to_multiset_insert(old_seq, k as int, *p);
                        let fx = (prefix + items@.take(j as int)).filter(f);
                        vstd::seq_lib::to_multiset_build(fx, *p);
                        assert forall|a: int, b: int| 0 <= a < b < new_seq.len() implies new_seq[a].z_index
                            <= new_seq[b].z_index by {
                            if a < k as int && b == k as int {
                                if k > 0 {
                                    assert(old_seq[k - 1].z_index <= p.z_index);
                                    assert(old_seq[a].z_index <= old_seq[k - 1].z_index);
                                }
                            } else if a == k as int && b > k as int {
                                assert(new_seq[b] == old_seq[b - 1]);
                            } else if a < k as int && b > k as int {
                                assert(new_seq[b] == old_seq[b - 1]);
                            } else if a > k as int {
                                assert(new_seq[a] == old_seq[a - 1]);
                                assert(new_seq[b] == old_seq[b - 1]);
                            }
                        }
                    }
                }
                j += 1;
            }
            proof {
                assert(items@.take(items@.len() as int) =~= items@);
            }
            i += 1;
        }
        proof {
            assert(pl.take(pl.len() as int) =~= pl);
        }
        result
    }

    /// Append a chunk of data for a chunked transfer.
    ///
    /// Returns an error if the pending-transfer limit is exceeded (a new
    /// transfer while [`MAX_PENDING_CHUNKS`] are pending; nothing changes) or
    /// the accumulated data for this transfer exceeds the maximum chunk size
    /// (the transfer is dropped).
    pub fn append_chunk(&mut self, image_id: u32, data: &[u8]) -> (r: Result<(), GraphicsError>)
        requires
            old(self).wf(),
            data@.len() <= usize::MAX - MAX_CHUNK_ACCUMULATION,
        ensures
            final(self).wf(),
            old(self)@.pending_full(image_id) ==> (r matches Err(
                GraphicsError::QuotaExceeded { used: u, quota: q },
            ) && u == old(self)@.pending.len() + 1 && q == MAX_PENDING_CHUNKS && final(self)@ == old(
                self,
            )@),
            !old(self)@.pending_full(image_id) ==> ({
                let (ok, w) = old(self)@.append(image_id, data@);
                let new_size = ImageManagerView::accumulated(old(self)@.pending, image_id).len()
                    + data@.len();
                &&& final(self)@ == w
                &&& if ok {
                    r is Ok
                } else {
                    r matches Err(GraphicsError::ImageTooLarge { size: s, max: m }) && s == new_size
                        && m == MAX_CHUNK_ACCUMULATION
                }
            }),
    {
        if self.find_pending(image_id).is_none() && self.pending_chunks.len() >= MAX_PENDING_CHUNKS {
            return Err(
                GraphicsError::QuotaExceeded {
                    used: self.pending_chunks.len() + 1,
                    quota: MAX_PENDING_CHUNKS,
                },
            );
        }
        let ghost p1 = self@.pending;
        match self.find_pending(image_id) {
            Some(i) => {
                let acc_len = self.pending_chunks[i].bytes.len();
                proof {
                    assert(self@.pending[i as int].1 == self.pending_chunks@[i as int].bytes@);
                    assert(self@.pending[i as int].1.len() <= MAX_CHUNK_ACCUMULATION);
                }
                if data.len() > MAX_CHUNK_ACCUMULATION - acc_len {
                    let size = acc_len + data.len();
                    self.pending_chunks.remove(i);
                    proof {
                        assert(self@.pending =~= p1.remove(i as int));
                        lemma_unique_keys_remove(p1, i as int);
                        let s = self@.pending;
                        assert forall|a: int| 0 <= a < s.len() implies #[trigger] s[a].1.len()
                            <= MAX_CHUNK_ACCUMULATION by {
                            if a < i {
                                assert(s[a] == p1[a]);
                            } else {
                                assert(s[a] == p1[a + 1]);
                            }
                        }
                    }
                    return Err(GraphicsError::ImageTooLarge { size, max: MAX_CHUNK_ACCUMULATION });
                }
                let mut t = self.pending_chunks.remove(i);
                let ghost acc = t.bytes@;
                t.bytes.extend_from_slice(data);
                proof {
                    assert(t.bytes@ =~= acc + data@);
                }
                self.pending_chunks.insert(i, t);
                proof {
                    assert(self@.pending =~= p1.update(i as int, (image_id, acc + data@)));
                    let s = self@.pending;
                    assert forall|a: int, b: int| 0 <= a < b < s.len() implies s[a].0 != s[b].0 by {
                        assert(s[a].0 == p1[a].0);
                        assert(s[b].0 == p1[b].0);
                    }
                    assert forall|a: int| 0 <= a < s.len() implies #[trigger] s[a].1.len()
                        <= MAX_CHUNK_ACCUMULATION by {
                        if a != i {
                            assert(s[a] == p1[a]);
                        }
                    }
                }
            },
            None => {
                if data.len() > MAX_CHUNK_ACCUMULATION {
                    proof {
                        assert(without_key(p1, image_id) == p1);
                    }
                    return Err(
                        GraphicsError::ImageTooLarge { size: data.len(), max: MAX_CHUNK_ACCUMULATION },
                    );
                }
                let mut bytes: Vec<u8> = Vec::new();
                bytes.extend_from_slice(data);
                proof {
                    assert(bytes@ =~= data@);
                }
                self.pending_chunks.push(PendingTransfer { image_id, bytes });
                proof {
                    assert(self@.pending =~= p1.push((image_id, data@)));
                    let s = self@.pending;
                    assert forall|a: int, b: int| 0 <= a < b < s.len() implies s[a].0 != s[b].0 by {
                        if b == s.len() - 1 {
                            assert(s[a] == p1[a]);
                        }
                    }
                    assert forall|a: int| 0 <= a < s.len() implies #[trigger] s[a].1.len()
                        <= MAX_CHUNK_ACCUMULATION by {
                        if a < s.len() - 1 {
                            assert(s[a] == p1[a]);
                        }
                    }
                }
            },
        }
        Ok(())
    }

    /// Complete a chunked transfer, returning the accumulated data.
    pub fn complete_chunked_transfer(&mut self, image_id: u32) -> (r: Option<Vec<u8>>)
        requires
            old(self).wf(),
        ensures
            final(self).wf(),
            final(self)@ == (ImageManagerView {
                pending: without_key(old(self)@.pending, image_id),
                ..old(self)@
            }),
            match r {
                Some(b) => has_key(old(self)@.pending, image_id) && b@ == old(
                    self,
                )@.pending[key_pos(old(self)@.pending, image_id)].1,
                None => !has_key(old(self)@.pending, image_id),
            },
    {
        match self.find_pending(image_id) {
            Some(i) => {
                let ghost before = self@.pending;
                let t = self.pending_chunks.remove(i);
                proof {
                    assert(self@.pending =~= before.remove(i as int));
                    lemma_unique_keys_remove(before, i as int);
                    let s = self@.pending;
                    assert forall|a: int| 0 <= a < s.len() implies #[trigger] s[a].1.len()
                        <= MAX_CHUNK_ACCUMULATION by {
                        if a < i {
                            assert(s[a] == before[a]);
                        } else {
                            assert(s[a] == before[a + 1]);
                        }
                    }
                }
                Some(t.bytes)
            },
            None => None,
        }
    }

    /// Check if there is a pending chunked transfer for the given image ID.
    pub fn has_pending_chunks(&self, image_id: u32) -> (r: bool)
        requires
            self.wf(),
        ensures
            r == has_key(self@.pending, image_id),
    {
        self.find_pending(image_id).is_some()
    }
}

impl Default for ImageManager {
    fn default() -> (r: Self)
        ensures
            r.wf(),
            r@.images.len() == 0,
            r@.quota_bytes == DEFAULT_QUOTA_BYTES,
    {
        Self::new()
    }
}

} // verus!
