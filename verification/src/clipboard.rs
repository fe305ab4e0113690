//! Change detection over clipboard snapshots.

use std::collections::hash_map::DefaultHasher;
use std::hash::Hash;
use std::hash::Hasher;
use crate::preprocess::raster_fits;
use crate::preprocess::resizable;
use crate::preprocess::ChannelLayout;
use crate::preprocess::RawImage;
use vstd::prelude::*;
use vstd::std_specs::hash::DefaultHasherAdditionalSpecFns;

verus! {

/// The writes that hashing a byte slice performs on a hasher whose earlier
/// writes were `before`.
pub uninterp spec fn slice_hash_writes(before: Seq<Seq<u8>>, data: Seq<u8>) -> Seq<Seq<u8>>;

/// The fingerprint of a clipboard payload: what a fresh default hasher
/// reports after the payload was hashed into it.
pub open spec fn content_hash(data: Seq<u8>) -> u64 {
    DefaultHasher::spec_finish(slice_hash_writes(Seq::empty(), data))
}

/// Feeds `data` to `state` through `<[u8] as Hash>::hash`. The writes this
/// causes are not documented by std, so they are only named: they depend on
/// the earlier writes and on the bytes, nothing else.
#[verifier::external_body]
fn hash_slice_into(data: &[u8], state: &mut DefaultHasher)
    ensures
        final(state)@ == slice_hash_writes(old(state)@, data@),
{
    data.hash(state);
}

/// Fingerprints a byte payload with std's default hasher.
pub fn hash(data: &[u8]) -> (h: u64)
    ensures
        h == content_hash(data@),
{
    let mut hasher = DefaultHasher::new();
    hash_slice_into(data, &mut hasher);
    hasher.finish()
}

/// An image as a clipboard hands it out: four bytes per pixel in the order
/// red, green, blue, alpha, with its dimensions as the platform reports them.
#[derive(Debug, Clone)]
pub struct ClipboardImage {
    pub width: usize,
    pub height: usize,
    pub bytes: Vec<u8>,
}

/// A reported dimension, cut to the 32 bits a raster has for it.
pub open spec fn dimension(reported: usize) -> u32 {
    #[verifier::truncate]
    (reported as u32)
}

/// The image is usable as a raster: its bytes cover its dimensions, and it
/// is not too wide to be resampled.
pub open spec fn usable(width: usize, height: usize, bytes: Seq<u8>) -> bool {
    &&& raster_fits(ChannelLayout::Rgba, dimension(width), dimension(height), bytes.len())
    &&& resizable(dimension(width))
}

/// Turns a clipboard image into a raster. Returns `None` exactly when the
/// image is not usable as one.
pub fn to_dyn_image(image: ClipboardImage) -> (out: Option<RawImage>)
    ensures
        out is Some <==> usable(image.width, image.height, image.bytes@),
        out matches Some(raster) ==> {
            &&& raster.spec_layout() == ChannelLayout::Rgba
            &&& raster.spec_width() == dimension(image.width)
            &&& raster.spec_height() == dimension(image.height)
            &&& raster.spec_pixels() == image.bytes@
        },
{
    let width: u32 = #[verifier::truncate]
    (image.width as u32);
    let height: u32 = #[verifier::truncate]
    (image.height as u32);
    RawImage::from_raw(ChannelLayout::Rgba, width, height, image.bytes)
}

/// Whether a poll is news: something was read, and its fingerprint differs
/// from the one kept from before.
pub open spec fn is_new(last: Option<u64>, seen: Option<u64>) -> bool {
    seen is Some && seen != last
}

/// The fingerprint kept after a poll: the one just seen if it is news, else
/// the one kept from before.
pub open spec fn next_hash(last: Option<u64>, seen: Option<u64>) -> Option<u64> {
    if is_new(last, seen) {
        seen
    } else {
        last
    }
}

/// The fingerprint of what a poll read; `None` when it read no image.
pub open spec fn fingerprint(content: Option<ClipboardImage>) -> Option<u64> {
    match content {
        Some(image) => Some(content_hash(image.bytes@)),
        None => None,
    }
}

/// Whether a poll that reads `content` hands out a raster: the content is
/// news and usable as a raster.
pub open spec fn emits(last: Option<u64>, content: Option<ClipboardImage>) -> bool {
    &&& is_new(last, fingerprint(content))
    &&& content matches Some(image)
    &&& usable(image.width, image.height, image.bytes@)
}

/// The state of a clipboard watcher: the fingerprint of the content seen
/// last, and whether a poll has happened yet.
///
/// The watcher itself never touches a clipboard. Whoever owns one waits
/// while `must_wait` says so, reads it, and hands what was read to
/// `get_image`, which decides whether it is news.
#[derive(Debug, Clone)]
pub struct ClipboardHandler {
    old_hash: Option<u64>,
    do_wait: bool,
}

impl ClipboardHandler {
    /// The fingerprint of the content seen last.
    pub closed spec fn last_hash(&self) -> Option<u64> {
        self.old_hash
    }

    /// Whether a poll has happened.
    pub closed spec fn polled(&self) -> bool {
        self.do_wait
    }

    /// A watcher that has not polled yet. `initial` is the image content
    /// found on the clipboard at start, if any; it counts as seen.
    pub fn new(initial: Option<&[u8]>) -> (watcher: ClipboardHandler)
        ensures
            !watcher.polled(),
            watcher.last_hash() == match initial {
                Some(bytes) => Some(content_hash(bytes@)),
                None => None,
            },
    {
        let old_hash = match initial {
            Some(bytes) => Some(hash(bytes)),
            None => None,
        };
        ClipboardHandler { old_hash, do_wait: false }
    }

    /// Whether the next poll is to be delayed by the refresh interval first:
    /// every poll but the first is.
    pub fn must_wait(&self) -> (wait: bool)
        ensures
            wait == self.polled(),
    {
        self.do_wait
    }

    /// The fingerprint of the content seen last.
    pub fn old_hash(&self) -> (h: Option<u64>)
        ensures
            h == self.last_hash(),
    {
        self.old_hash
    }

    /// Records the fingerprint of one poll (`None` when no image was read)
    /// and tells whether the poll is news.
    ///
    /// Nothing read, or the fingerprint kept from before, is no news and
    /// leaves the kept fingerprint alone. Any other fingerprint is news and
    /// replaces it.
    pub fn observe(&mut self, seen: Option<u64>) -> (fresh: bool)
        ensures
            final(self).polled(),
            fresh == is_new(old(self).last_hash(), seen),
            final(self).last_hash() == next_hash(old(self).last_hash(), seen),
    {
        self.do_wait = true;
        match seen {
            None => false,
            Some(new_hash) => {
                if self.old_hash == Some(new_hash) {
                    false
                } else {
                    self.old_hash = Some(new_hash);
                    true
                }
            },
        }
    }

    /// One poll: takes what was read from the clipboard (`None` when it held
    /// no image) and returns the image if it is news.
    ///
    /// Absent content and content with the fingerprint seen last yield
    /// nothing and leave the fingerprint alone. Any other content replaces
    /// the fingerprint and is returned as a raster, provided it is usable as
    /// one.
    pub fn get_image(&mut self, content: Option<ClipboardImage>) -> (out: Option<RawImage>)
        ensures
            final(self).polled(),
            final(self).last_hash() == next_hash(old(self).last_hash(), fingerprint(content)),
            out is Some <==> emits(old(self).last_hash(), content),
            out matches Some(raster) ==> {
                &&& raster.spec_layout() == ChannelLayout::Rgba
                &&& raster.spec_width() == dimension(content->0.width)
                &&& raster.spec_height() == dimension(content->0.height)
                &&& raster.spec_pixels() == content->0.bytes@
            },
    {
        match content {
            None => {
                self.observe(None);
                None
            },
            Some(image) => {
                let seen = hash(image.bytes.as_slice());
                if self.observe(Some(seen)) {
                    to_dyn_image(image)
                } else {
                    None
                }
            },
        }
    }
}

/// Identical bytes read twice in a row are news at most once: whatever was
/// kept before, the second of the two polls finds nothing new.
pub proof fn lemma_same_content_suppressed(
    last: Option<u64>,
    first: ClipboardImage,
    second: ClipboardImage,
)
    requires
        first.bytes@ == second.bytes@,
    ensures
        !is_new(next_hash(last, fingerprint(Some(first))), fingerprint(Some(second))),
{
}

/// Whatever is read twice in a row is news at most once: after a poll, a
/// second poll with the same fingerprint finds nothing new.
pub proof fn lemma_repeat_suppressed(last: Option<u64>, seen: Option<u64>)
    ensures
        !is_new(next_hash(last, seen), seen),
{
}

/// A fingerprint is compared with the one seen last only, not with a
/// history: seeing `a`, then `b`, then `a` again is news three times,
/// provided the two differ and `a` was not what was kept at the start.
pub proof fn lemma_alternation_reported(last: Option<u64>, a: u64, b: u64)
    requires
        a != b,
        last != Some(a),
    ensures
        is_new(last, Some(a)),
        is_new(next_hash(last, Some(a)), Some(b)),
        is_new(next_hash(next_hash(last, Some(a)), Some(b)), Some(a)),
{
}

/// Reading the image `a`, then `b`, then `a` again hands out three rasters,
/// provided both are usable as rasters, their fingerprints differ, and `a`
/// was not what was kept at the start; a watcher made without initial
/// content keeps nothing.
pub proof fn lemma_alternation_emitted(last: Option<u64>, a: ClipboardImage, b: ClipboardImage)
    requires
        usable(a.width, a.height, a.bytes@),
        usable(b.width, b.height, b.bytes@),
        content_hash(a.bytes@) != content_hash(b.bytes@),
        last != Some(content_hash(a.bytes@)),
    ensures
        emits(last, Some(a)),
        emits(next_hash(last, fingerprint(Some(a))), Some(b)),
        emits(
            next_hash(next_hash(last, fingerprint(Some(a))), fingerprint(Some(b))),
            Some(a),
        ),
{
}

/// A poll that finds no image is no news and keeps the fingerprint.
pub proof fn lemma_absence_ignored(last: Option<u64>)
    ensures
        !is_new(last, None),
        next_hash(last, None) == last,
{
}

} // verus!
