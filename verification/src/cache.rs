//! The two bounded caches of the viewer.
//!
//! [`ImageCache`] holds decoded bitmaps, [`EncodedImageCache`] holds
//! encoded data-URI payloads.  Both wrap `lru::LruCache` behind trusted
//! wrappers whose contracts state, over the model of
//! [`crate::lru_model`], exactly how each call transforms the recency
//! sequence; everything above the wrappers is verified.

use vstd::prelude::*;

use crate::image_loader::DecodedImage;
use crate::lru_model::{
    has_key, lemma_get_promotes_without_eviction, lemma_put, lru_promote, lru_put, unique_keys,
    value_of,
};
use std::num::NonZeroUsize;

verus! {

#[verifier::external_type_specification]
#[verifier::external_body]
#[verifier::reject_recursive_types(K)]
#[verifier::reject_recursive_types(V)]
#[verifier::reject_recursive_types(S)]
pub struct ExLruCache<K, V, S>(lru::LruCache<K, V, S>);

/// The entries of a decoded-image cache, most recently used first; each
/// bitmap stands in the model as its pixel dimensions.
pub uninterp spec fn decoded_contents(
    c: &lru::LruCache<String, DecodedImage>,
) -> Seq<(Seq<char>, (u32, u32))>;

/// The bound a decoded-image cache was created with.
pub uninterp spec fn decoded_capacity(c: &lru::LruCache<String, DecodedImage>) -> nat;

/// The entries of an encoded-payload cache, most recently used first.
pub uninterp spec fn encoded_contents(
    c: &lru::LruCache<String, String>,
) -> Seq<(Seq<char>, Seq<char>)>;

/// The bound an encoded-payload cache was created with.
pub uninterp spec fn encoded_capacity(c: &lru::LruCache<String, String>) -> nat;

/// Relies on `lru::LruCache::new`: the cache starts empty with the given
/// bound.
#[verifier::external_body]
fn img_lru_new(cap: usize) -> (c: lru::LruCache<String, DecodedImage>)
    requires
        cap >= 1,
    ensures
        decoded_contents(&c) == Seq::<(Seq<char>, (u32, u32))>::empty(),
        decoded_capacity(&c) == cap,
{
    lru::LruCache::new(NonZeroUsize::new(cap).unwrap())
}

/// Relies on `lru::LruCache::get`: a hit hands back the stored value and
/// moves the entry to the head of the recency list; a miss changes
/// nothing.
#[verifier::external_body]
fn img_lru_get(c: &mut lru::LruCache<String, DecodedImage>, k: &str) -> (r: Option<DecodedImage>)
    ensures
        decoded_capacity(final(c)) == decoded_capacity(old(c)),
        match r {
            None => {
                &&& !has_key(decoded_contents(old(c)), k@)
                &&& decoded_contents(final(c)) == decoded_contents(old(c))
            },
            Some(img) => {
                &&& has_key(decoded_contents(old(c)), k@)
                &&& (img.width, img.height) == value_of(decoded_contents(old(c)), k@)
                &&& decoded_contents(final(c)) == lru_promote(decoded_contents(old(c)), k@)
            },
        },
{
    c.get(k).map(
        |img| DecodedImage {
            bitmap: img.bitmap.clone(),
            width: img.width,
            height: img.height,
        },
    )
}

/// Relies on `lru::LruCache::put`: a present key is re-valued and moved
/// to the head; a fresh key is inserted at the head, evicting the tail
/// entry when the cache is full.
#[verifier::external_body]
fn img_lru_put(c: &mut lru::LruCache<String, DecodedImage>, k: String, v: DecodedImage)
    ensures
        decoded_capacity(final(c)) == decoded_capacity(old(c)),
        decoded_contents(final(c)) == lru_put(
            decoded_contents(old(c)),
            decoded_capacity(old(c)),
            k@,
            (v.width, v.height),
        ),
{
    let _ = c.put(k, v);
}

/// Relies on `lru::LruCache::len`: the number of entries.
#[verifier::external_body]
fn img_lru_len(c: &lru::LruCache<String, DecodedImage>) -> (r: usize)
    ensures
        r == decoded_contents(c).len(),
{
    c.len()
}

/// Relies on `lru::LruCache::clear`: all entries are dropped; the bound
/// stays.
#[verifier::external_body]
fn img_lru_clear(c: &mut lru::LruCache<String, DecodedImage>)
    ensures
        decoded_contents(final(c)) == Seq::<(Seq<char>, (u32, u32))>::empty(),
        decoded_capacity(final(c)) == decoded_capacity(old(c)),
{
    c.clear()
}

/// Relies on `lru::LruCache::new`: the cache starts empty with the given
/// bound.
#[verifier::external_body]
fn enc_lru_new(cap: usize) -> (c: lru::LruCache<String, String>)
    requires
        cap >= 1,
    ensures
        encoded_contents(&c) == Seq::<(Seq<char>, Seq<char>)>::empty(),
        encoded_capacity(&c) == cap,
{
    lru::LruCache::new(NonZeroUsize::new(cap).unwrap())
}

/// Relies on `lru::LruCache::get`: a hit hands back the stored value and
/// moves the entry to the head of the recency list; a miss changes
/// nothing.
#[verifier::external_body]
fn enc_lru_get(c: &mut lru::LruCache<String, String>, k: &str) -> (r: Option<String>)
    ensures
        encoded_capacity(final(c)) == encoded_capacity(old(c)),
        match r {
            None => {
                &&& !has_key(encoded_contents(old(c)), k@)
                &&& encoded_contents(final(c)) == encoded_contents(old(c))
            },
            Some(v) => {
                &&& has_key(encoded_contents(old(c)), k@)
                &&& v@ == value_of(encoded_contents(old(c)), k@)
                &&& encoded_contents(final(c)) == lru_promote(encoded_contents(old(c)), k@)
            },
        },
{
    c.get(k).cloned()
}

/// Relies on `lru::LruCache::put`: a present key is re-valued and moved
/// to the head; a fresh key is inserted at the head, evicting the tail
/// entry when the cache is full.
#[verifier::external_body]
fn enc_lru_put(c: &mut lru::LruCache<String, String>, k: String, v: String)
    ensures
        encoded_capacity(final(c)) == encoded_capacity(old(c)),
        encoded_contents(final(c)) == lru_put(
            encoded_contents(old(c)),
            encoded_capacity(old(c)),
            k@,
            v@,
        ),
{
    let _ = c.put(k, v);
}

/// Relies on `lru::LruCache::len`: the number of entries.
#[verifier::external_body]
fn enc_lru_len(c: &lru::LruCache<String, String>) -> (r: usize)
    ensures
        r == encoded_contents(c).len(),
{
    c.len()
}

/// Relies on `lru::LruCache::clear`: all entries are dropped; the bound
/// stays.
#[verifier::external_body]
fn enc_lru_clear(c: &mut lru::LruCache<String, String>)
    ensures
        encoded_contents(final(c)) == Seq::<(Seq<char>, Seq<char>)>::empty(),
        encoded_capacity(final(c)) == encoded_capacity(old(c)),
{
    c.clear()
}

/// A bounded cache of decoded bitmaps with least-recently-used eviction.
pub struct ImageCache {
    inner: lru::LruCache<String, DecodedImage>,
}

impl ImageCache {
    /// The entries, most recently used first; bitmaps stand in the model
    /// as their dimensions.
    pub closed spec fn model(&self) -> Seq<(Seq<char>, (u32, u32))> {
        decoded_contents(&self.inner)
    }

    /// The bound the cache was created with.
    pub closed spec fn capacity(&self) -> nat {
        decoded_capacity(&self.inner)
    }

    /// The cache invariant: distinct keys, never more entries than the
    /// bound allows.
    pub open spec fn wf(&self) -> bool {
        &&& unique_keys(self.model())
        &&& self.model().len() <= self.capacity()
        &&& self.capacity() >= 1
    }

    /// An empty cache bounded at `max_size` entries (at 8 when a zero
    /// bound is asked for).
    pub fn new(max_size: usize) -> (r: Self)
        ensures
            r.wf(),
            r.model() == Seq::<(Seq<char>, (u32, u32))>::empty(),
            r.capacity() == (if max_size == 0 { 8nat } else { max_size as nat }),
    {
        let cap: usize = if max_size == 0 {
            8
        } else {
            max_size
        };
        ImageCache { inner: img_lru_new(cap) }
    }

    /// Get an image from the cache.  A hit promotes the entry to most
    /// recently used and never evicts; a miss changes nothing.
    pub fn get(&mut self, path: &str) -> (r: Option<DecodedImage>)
        requires
            old(self).wf(),
        ensures
            final(self).wf(),
            final(self).capacity() == old(self).capacity(),
            match r {
                None => {
                    &&& !has_key(old(self).model(), path@)
                    &&& final(self).model() == old(self).model()
                },
                Some(img) => {
                    &&& has_key(old(self).model(), path@)
                    &&& (img.width, img.height) == value_of(old(self).model(), path@)
                    &&& final(self).model() == lru_promote(old(self).model(), path@)
                },
            },
    {
        let r = img_lru_get(&mut self.inner, path);
        proof {
            if r is Some {
                lemma_get_promotes_without_eviction(old(self).model(), path@);
            }
        }
        r
    }

    /// Insert an image into the cache, evicting the least recently used
    /// entry if the cache is full.
    pub fn insert(&mut self, path: String, image: DecodedImage)
        requires
            old(self).wf(),
        ensures
            final(self).wf(),
            final(self).capacity() == old(self).capacity(),
            final(self).model() == lru_put(
                old(self).model(),
                old(self).capacity(),
                path@,
                (image.width, image.height),
            ),
    {
        proof {
            lemma_put(
                self.model(),
                self.capacity(),
                path@,
                (image.width, image.height),
            );
        }
        img_lru_put(&mut self.inner, path, image);
    }

    /// Clear the entire cache.
    pub fn clear(&mut self)
        requires
            old(self).wf(),
        ensures
            final(self).wf(),
            final(self).capacity() == old(self).capacity(),
            final(self).model() == Seq::<(Seq<char>, (u32, u32))>::empty(),
    {
        img_lru_clear(&mut self.inner)
    }

    /// Get the current cache size.
    pub fn size(&self) -> (r: usize)
        ensures
            r == self.model().len(),
    {
        img_lru_len(&self.inner)
    }
}

/// A bounded cache of encoded data-URI payloads with least-recently-used
/// eviction, kept separate from the decoded cache: consumers want the
/// encoded artifact, the pipeline wants the bitmap.
pub struct EncodedImageCache {
    inner: lru::LruCache<String, String>,
}

impl EncodedImageCache {
    /// The entries, most recently used first.
    pub closed spec fn model(&self) -> Seq<(Seq<char>, Seq<char>)> {
        encoded_contents(&self.inner)
    }

    /// The bound the cache was created with.
    pub closed spec fn capacity(&self) -> nat {
        encoded_capacity(&self.inner)
    }

    /// The cache invariant: distinct keys, never more entries than the
    /// bound allows.
    pub open spec fn wf(&self) -> bool {
        &&& unique_keys(self.model())
        &&& self.model().len() <= self.capacity()
        &&& self.capacity() >= 1
    }

    /// An empty cache bounded at `max_size` entries (at 16 when a zero
    /// bound is asked for).
    pub fn new(max_size: usize) -> (r: Self)
        ensures
            r.wf(),
            r.model() == Seq::<(Seq<char>, Seq<char>)>::empty(),
            r.capacity() == (if max_size == 0 { 16nat } else { max_size as nat }),
    {
        let cap: usize = if max_size == 0 {
            16
        } else {
            max_size
        };
        EncodedImageCache { inner: enc_lru_new(cap) }
    }

    /// Get an encoded payload from the cache.  A hit promotes the entry
    /// to most recently used and never evicts; a miss changes nothing.
    pub fn get(&mut self, path: &str) -> (r: Option<String>)
        requires
            old(self).wf(),
        ensures
            final(self).wf(),
            final(self).capacity() == old(self).capacity(),
            match r {
                None => {
                    &&& !has_key(old(self).model(), path@)
                    &&& final(self).model() == old(self).model()
                },
                Some(v) => {
                    &&& has_key(old(self).model(), path@)
                    &&& v@ == value_of(old(self).model(), path@)
                    &&& final(self).model() == lru_promote(old(self).model(), path@)
                },
            },
    {
        let r = enc_lru_get(&mut self.inner, path);
        proof {
            if r is Some {
                lemma_get_promotes_without_eviction(old(self).model(), path@);
            }
        }
        r
    }

    /// Insert an encoded payload, evicting the least recently used entry
    /// if the cache is full.
    pub fn insert(&mut self, path: String, encoded: String)
        requires
            old(self).wf(),
        ensures
            final(self).wf(),
            final(self).capacity() == old(self).capacity(),
            final(self).model() == lru_put(old(self).model(), old(self).capacity(), path@, encoded@),
    {
        proof {
            lemma_put(self.model(), self.capacity(), path@, encoded@);
        }
        enc_lru_put(&mut self.inner, path, encoded);
    }

    /// Clear the entire cache.
    pub fn clear(&mut self)
        requires
            old(self).wf(),
        ensures
            final(self).wf(),
            final(self).capacity() == old(self).capacity(),
            final(self).model() == Seq::<(Seq<char>, Seq<char>)>::empty(),
    {
        enc_lru_clear(&mut self.inner)
    }

    /// Get the current cache size.
    pub fn size(&self) -> (r: usize)
        ensures
            r == self.model().len(),
    {
        enc_lru_len(&self.inner)
    }
}

} // verus!
