//! Decoded bitmaps and the image pipeline.
//!
//! A [`DecodedImage`] pairs a shared, immutable bitmap with its pixel
//! dimensions, so that all dimension logic is verified over plain
//! integers while the bitmap itself stays opaque.  Loading, scaling and
//! re-encoding go through trusted wrappers around the `image` crate; the
//! dimension arithmetic, the cache-aside logic and the base64 data-URI
//! framing are verified.

use vstd::arithmetic::div_mod::{lemma_div_is_ordered, lemma_div_multiples_vanish};
use vstd::prelude::*;

use crate::base64::{base64_encode, base64_spec};
use crate::cache::ImageCache;
use crate::errors::ViewerError;
use crate::lru_model::{has_key, lru_promote, lru_put, value_of};
use std::io::Cursor;
use std::sync::Arc;

verus! {

/// Large images are capped at this dimension when loaded through
/// [`load_image_cached`]: full-HD size balances quality against decode
/// and encode speed.
pub const MAX_DIMENSION: u32 = 1920;

#[verifier::external_type_specification]
#[verifier::external_body]
pub struct ExDynamicImage(image::DynamicImage);

/// An immutable in-memory bitmap together with its pixel dimensions.
///
/// The bitmap is reference-counted: it is owned collectively by the cache
/// slots and in-flight callers that hold a handle, and freed when the
/// last handle is dropped.
pub struct DecodedImage {
    pub bitmap: Arc<image::DynamicImage>,
    pub width: u32,
    pub height: u32,
}

/// An image with both main and thumbnail versions.
pub struct ImagePair {
    pub main_path: String,
    pub thumbnail_path: String,
    pub main_image: Option<DecodedImage>,
    pub thumbnail_image: Option<DecodedImage>,
}

/// Relies on `Arc::clone`: the new handle points to the same bitmap.
#[verifier::external_body]
fn share_arc(a: &Arc<image::DynamicImage>) -> (r: Arc<image::DynamicImage>)
    ensures
        r == *a,
{
    Arc::clone(a)
}

impl DecodedImage {
    /// A second handle to the same bitmap, with the same dimensions.
    pub fn share(&self) -> (r: DecodedImage)
        ensures
            r == *self,
    {
        DecodedImage { bitmap: share_arc(&self.bitmap), width: self.width, height: self.height }
    }
}

/// Relies on `image::open`: reads the file at `path` and decodes it by
/// format sniffing; the recorded dimensions are those of the decoded
/// bitmap.  A file error surfaces as `IoError`, anything else as
/// `DecodeError`.
#[verifier::external_body]
fn decode_image_file(path: &str) -> (r: Result<DecodedImage, ViewerError>)
    ensures
        r matches Err(e) ==> e == ViewerError::IoError || e == ViewerError::DecodeError,
{
    match image::open(path) {
        Ok(img) => {
            let width = img.width();
            let height = img.height();
            Ok(DecodedImage { bitmap: Arc::new(img), width, height })
        },
        Err(image::ImageError::IoError(_)) => Err(ViewerError::IoError),
        Err(_) => Err(ViewerError::DecodeError),
    }
}

/// Relies on `DynamicImage::resize`: scales to the largest size that fits
/// within the given bounds preserving aspect ratio; each dimension of the
/// result is at least one and at most its bound.
#[verifier::external_body]
fn resize_bitmap(img: &DecodedImage, new_width: u32, new_height: u32) -> (r: DecodedImage)
    requires
        img.width >= 1,
        img.height >= 1,
        new_width >= 1,
        new_height >= 1,
    ensures
        1 <= r.width <= new_width,
        1 <= r.height <= new_height,
{
    // Triangle (bilinear) filtering is much faster than Lanczos and good
    // enough for downscaling on the hot preview path.
    let resized = img.bitmap.resize(new_width, new_height, image::imageops::FilterType::Triangle);
    let width = resized.width();
    let height = resized.height();
    DecodedImage { bitmap: Arc::new(resized), width, height }
}

/// Whether the JPEG encoder accepts a bitmap at a quality; the outcome
/// depends on bitmap and quality alone.
pub uninterp spec fn jpeg_encodable(b: Arc<image::DynamicImage>, quality: u8) -> bool;

/// The bytes the JPEG encoder produces for a bitmap at a quality; they
/// depend on bitmap and quality alone.
pub uninterp spec fn jpeg_bytes_of(b: Arc<image::DynamicImage>, quality: u8) -> Seq<u8>;

/// Whether the PNG encoder accepts a bitmap; the outcome depends on the
/// bitmap alone.
pub uninterp spec fn png_encodable(b: Arc<image::DynamicImage>) -> bool;

/// The bytes the PNG encoder produces for a bitmap; they depend on the
/// bitmap alone.
pub uninterp spec fn png_bytes_of(b: Arc<image::DynamicImage>) -> Seq<u8>;

/// Relies on `image`'s JPEG encoder (`DynamicImage::to_rgb8`,
/// `JpegEncoder::new_with_quality`, `write_with_encoder`): converts the
/// bitmap to 8-bit RGB and encodes it at the given quality into an
/// in-memory buffer.  Success and output depend on bitmap and quality
/// alone.
#[verifier::external_body]
fn encode_jpeg_bytes(img: &DecodedImage, quality: u8) -> (r: Result<Vec<u8>, ViewerError>)
    ensures
        r is Ok <==> jpeg_encodable(img.bitmap, quality),
        r matches Ok(b) ==> b@ == jpeg_bytes_of(img.bitmap, quality),
        r matches Err(e) ==> e == ViewerError::EncodeError,
{
    let mut buffer = Cursor::new(Vec::new());
    let rgb = img.bitmap.to_rgb8();
    let encoder = image::codecs::jpeg::JpegEncoder::new_with_quality(&mut buffer, quality);
    match rgb.write_with_encoder(encoder) {
        Ok(()) => Ok(buffer.into_inner()),
        Err(_) => Err(ViewerError::EncodeError),
    }
}

/// Relies on `DynamicImage::write_to` with the PNG format: encodes the
/// bitmap losslessly into an in-memory buffer.  Success and output
/// depend on the bitmap alone.
#[verifier::external_body]
fn encode_png_bytes(img: &DecodedImage) -> (r: Result<Vec<u8>, ViewerError>)
    ensures
        r is Ok <==> png_encodable(img.bitmap),
        r matches Ok(b) ==> b@ == png_bytes_of(img.bitmap),
        r matches Err(e) ==> e == ViewerError::EncodeError,
{
    let mut buffer = Cursor::new(Vec::new());
    match img.bitmap.write_to(&mut buffer, image::ImageFormat::Png) {
        Ok(()) => Ok(buffer.into_inner()),
        Err(_) => Err(ViewerError::EncodeError),
    }
}

/// The JPEG data URI carrying the base64 encoding of `b`.
pub open spec fn jpeg_data_uri_spec(b: Seq<u8>) -> Seq<char> {
    "data:image/jpeg;base64,"@ + base64_spec(b)
}

/// The PNG data URI carrying the base64 encoding of `b`.
pub open spec fn png_data_uri_spec(b: Seq<u8>) -> Seq<char> {
    "data:image/png;base64,"@ + base64_spec(b)
}

/// Whether `s` is the JPEG data URI of some byte string.
pub open spec fn is_jpeg_data_uri(s: Seq<char>) -> bool {
    exists|b: Seq<u8>| s == jpeg_data_uri_spec(b)
}

/// Whether `s` is the PNG data URI of some byte string.
pub open spec fn is_png_data_uri(s: Seq<char>) -> bool {
    exists|b: Seq<u8>| s == png_data_uri_spec(b)
}

/// Frame encoded JPEG bytes as a base64 data URI.
pub fn jpeg_data_uri(bytes: &Vec<u8>) -> (r: String)
    ensures
        r@ == jpeg_data_uri_spec(bytes@),
{
    let mut s = String::from_str("data:image/jpeg;base64,");
    let b64 = base64_encode(bytes.as_slice());
    s.append(b64.as_str());
    s
}

/// Frame encoded PNG bytes as a base64 data URI.
pub fn png_data_uri(bytes: &Vec<u8>) -> (r: String)
    ensures
        r@ == png_data_uri_spec(bytes@),
{
    let mut s = String::from_str("data:image/png;base64,");
    let b64 = base64_encode(bytes.as_slice());
    s.append(b64.as_str());
    s
}

/// Convert an image to a base64-encoded JPEG data URI at the given
/// quality.
pub fn image_to_base64_jpeg(img: &DecodedImage, quality: u8) -> (r: Result<String, ViewerError>)
    ensures
        r is Ok <==> jpeg_encodable(img.bitmap, quality),
        r matches Ok(s) ==> s@ == jpeg_data_uri_spec(jpeg_bytes_of(img.bitmap, quality)),
        r matches Ok(s) ==> is_jpeg_data_uri(s@),
        r matches Err(e) ==> e == ViewerError::EncodeError,
{
    match encode_jpeg_bytes(img, quality) {
        Ok(bytes) => {
            let s = jpeg_data_uri(&bytes);
            assert(s@ == jpeg_data_uri_spec(bytes@));
            Ok(s)
        },
        Err(e) => Err(e),
    }
}

/// Convert an image to a base64-encoded PNG data URI.
pub fn image_to_base64_png(img: &DecodedImage) -> (r: Result<String, ViewerError>)
    ensures
        r is Ok <==> png_encodable(img.bitmap),
        r matches Ok(s) ==> s@ == png_data_uri_spec(png_bytes_of(img.bitmap)),
        r matches Ok(s) ==> is_png_data_uri(s@),
        r matches Err(e) ==> e == ViewerError::EncodeError,
{
    match encode_png_bytes(img) {
        Ok(bytes) => {
            let s = png_data_uri(&bytes);
            assert(s@ == png_data_uri_spec(bytes@));
            Ok(s)
        },
        Err(e) => Err(e),
    }
}

/// At least one: a scaled dimension never falls to zero pixels.
pub open spec fn at_least_one(x: int) -> int {
    if x < 1 {
        1
    } else {
        x
    }
}

/// The dimensions an out-of-bounds image is scaled to: the scaling ratio
/// is the smaller of `mw / w` and `mh / h`, the scaled dimensions
/// truncate toward zero, and each is clamped to at least one pixel.
pub open spec fn fit_dimensions(w: int, h: int, mw: int, mh: int) -> (int, int) {
    if mw * h <= mh * w {
        (mw, at_least_one(h * mw / w))
    } else {
        (at_least_one(w * mh / h), mh)
    }
}

/// The target dimensions for scaling a `width` by `height` image to fit
/// within `max_width` by `max_height`, preserving aspect ratio.
pub fn compute_fit_dimensions(width: u32, height: u32, max_width: u32, max_height: u32) -> (r: (
    u32,
    u32,
))
    requires
        width >= 1,
        height >= 1,
        max_width >= 1,
        max_height >= 1,
    ensures
        (r.0 as int, r.1 as int) == fit_dimensions(
            width as int,
            height as int,
            max_width as int,
            max_height as int,
        ),
        1 <= r.0 <= max_width,
        1 <= r.1 <= max_height,
{
    let w = width as u64;
    let h = height as u64;
    let mw = max_width as u64;
    let mh = max_height as u64;
    proof {
        assert(mw * h < 0x10000000000000000) by (nonlinear_arith)
            requires
                mw < 0x100000000,
                h < 0x100000000,
        ;
        assert(mh * w < 0x10000000000000000) by (nonlinear_arith)
            requires
                mh < 0x100000000,
                w < 0x100000000,
        ;
        assert(w * mh < 0x10000000000000000) by (nonlinear_arith)
            requires
                mh < 0x100000000,
                w < 0x100000000,
        ;
        assert(h * mw < 0x10000000000000000) by (nonlinear_arith)
            requires
                mw < 0x100000000,
                h < 0x100000000,
        ;
    }
    if mw * h <= mh * w {
        let nh64 = h * mw / w;
        proof {
            lemma_div_is_ordered((height * max_width) as int, (max_height * width) as int, width as int);
            lemma_div_multiples_vanish(max_height as int, width as int);
            assert((max_height * width) as int == (width as int) * (max_height as int));
            assert(nh64 <= max_height);
        }
        let nh = if nh64 == 0 {
            1u32
        } else {
            nh64 as u32
        };
        (max_width, nh)
    } else {
        let nw64 = w * mh / h;
        proof {
            lemma_div_is_ordered((width * max_height) as int, (max_width * height) as int, height as int);
            lemma_div_multiples_vanish(max_width as int, height as int);
            assert((max_width * height) as int == (height as int) * (max_width as int));
            assert(nw64 <= max_width);
        }
        let nw = if nw64 == 0 {
            1u32
        } else {
            nw64 as u32
        };
        (nw, max_height)
    }
}

/// Resize an image to fit within the given bounds while preserving
/// aspect ratio.  An image already within bounds is returned unchanged,
/// sharing the same bitmap; an image is never upscaled.
pub fn resize_to_fit(img: &DecodedImage, max_width: u32, max_height: u32) -> (r: DecodedImage)
    requires
        img.width >= 1,
        img.height >= 1,
        max_width >= 1,
        max_height >= 1,
    ensures
        img.width <= max_width && img.height <= max_height ==> r == *img,
        1 <= r.width <= max_width,
        1 <= r.height <= max_height,
{
    if img.width <= max_width && img.height <= max_height {
        return img.share();
    }
    let (nw, nh) = compute_fit_dimensions(img.width, img.height, max_width, max_height);
    resize_bitmap(img, nw, nh)
}

/// Load an image from a file path.  A decoded image always has at least
/// one pixel in each dimension.
pub fn load_image(path: &str) -> (r: Result<DecodedImage, ViewerError>)
    ensures
        r matches Ok(img) ==> img.width >= 1 && img.height >= 1,
        r matches Err(e) ==> e == ViewerError::IoError || e == ViewerError::DecodeError,
{
    match decode_image_file(path) {
        Ok(img) => {
            if img.width == 0 || img.height == 0 {
                Err(ViewerError::DecodeError)
            } else {
                Ok(img)
            }
        },
        Err(e) => Err(e),
    }
}

/// Load an image with caching, capping large images at
/// [`MAX_DIMENSION`]: a hit returns the cached copy with no disk read
/// and promotes its entry; a miss loads from disk, constrains the
/// dimensions, stores the result and returns it.
pub fn load_image_cached(path: &str, cache: &mut ImageCache) -> (r: Result<
    DecodedImage,
    ViewerError,
>)
    requires
        old(cache).wf(),
    ensures
        final(cache).wf(),
        final(cache).capacity() == old(cache).capacity(),
        has_key(old(cache).model(), path@) ==> r is Ok,
        match r {
            Ok(img) => {
                if has_key(old(cache).model(), path@) {
                    &&& (img.width, img.height) == value_of(old(cache).model(), path@)
                    &&& final(cache).model() == lru_promote(old(cache).model(), path@)
                } else {
                    &&& 1 <= img.width <= MAX_DIMENSION
                    &&& 1 <= img.height <= MAX_DIMENSION
                    &&& final(cache).model() == lru_put(
                        old(cache).model(),
                        old(cache).capacity(),
                        path@,
                        (img.width, img.height),
                    )
                }
            },
            Err(e) => {
                &&& (e == ViewerError::IoError || e == ViewerError::DecodeError)
                &&& final(cache).model() == old(cache).model()
            },
        },
{
    load_image_cached_with_size(path, cache, MAX_DIMENSION)
}

/// Load an image with caching, capping large images at `max_size`
/// instead of the fixed bound.  The cache key is the raw path alone, so
/// a copy cached under a different bound satisfies a later request
/// unchanged.
pub fn load_image_cached_with_size(path: &str, cache: &mut ImageCache, max_size: u32) -> (r:
    Result<DecodedImage, ViewerError>)
    requires
        old(cache).wf(),
        max_size >= 1,
    ensures
        final(cache).wf(),
        final(cache).capacity() == old(cache).capacity(),
        has_key(old(cache).model(), path@) ==> r is Ok,
        match r {
            Ok(img) => {
                if has_key(old(cache).model(), path@) {
                    &&& (img.width, img.height) == value_of(old(cache).model(), path@)
                    &&& final(cache).model() == lru_promote(old(cache).model(), path@)
                } else {
                    &&& 1 <= img.width <= max_size
                    &&& 1 <= img.height <= max_size
                    &&& final(cache).model() == lru_put(
                        old(cache).model(),
                        old(cache).capacity(),
                        path@,
                        (img.width, img.height),
                    )
                }
            },
            Err(e) => {
                &&& (e == ViewerError::IoError || e == ViewerError::DecodeError)
                &&& final(cache).model() == old(cache).model()
            },
        },
{
    if let Some(cached) = cache.get(path) {
        return Ok(cached);
    }

    let img = match load_image(path) {
        Ok(img) => img,
        Err(e) => {
            return Err(e);
        },
    };

    let img = resize_to_fit(&img, max_size, max_size);
    cache.insert(path.to_owned(), img.share());
    Ok(img)
}

} // verus!
