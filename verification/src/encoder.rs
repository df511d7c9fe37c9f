//! JPEG encoding under a byte ceiling.
//!
//! The image is encoded at the starting quality. While the stream is larger
//! than the ceiling and the quality is above the floor, the quality is
//! lowered by one step, never below the floor, and the image is encoded
//! again. The first stream that is accepted is returned together with the
//! quality that produced it.

use crate::raster::RasterImage;
use vstd::prelude::*;

verus! {

/// The quality below which the search never goes.
pub const MIN_QUALITY: u8 = 60;

/// By how much the quality is lowered after a stream that was too large.
pub const QUALITY_STEP: u8 = 5;

/// The largest side that a JPEG frame header can state.
pub const MAX_JPEG_SIDE: u32 = 65535;

/// Both sides can be stated in a JPEG frame header.
pub open spec fn fits_jpeg(width: nat, height: nat) -> bool {
    width <= MAX_JPEG_SIDE && height <= MAX_JPEG_SIDE
}

/// `image::ImageError`, the error of the `image` crate's encoders. Nothing
/// is known of what is inside one.
#[verifier::external_type_specification]
#[verifier::external_body]
pub struct ExImageError(image::ImageError);

/// The JPEG stream that the `image` crate's baseline encoder writes for a
/// buffer of `width * height` RGB pixels at the given quality.
pub uninterp spec fn jpeg_stream(rgb: Seq<u8>, width: u32, height: u32, quality: u8) -> Seq<u8>;

/// Runs `image::codecs::jpeg::JpegEncoder::new_with_quality` over a fresh
/// byte buffer and then `JpegEncoder::encode` with `ColorType::Rgb8`.
///
/// Taken on trust from the encoder's source: it panics only on a buffer of
/// the wrong length, which `requires` rules out; writing into memory cannot
/// fail, so the one error left is a side above 65535, which the frame header
/// cannot hold; and the stream is a function of the pixels, the size and the
/// quality alone.
#[verifier::external_body]
fn jpeg_encode(rgb: &Vec<u8>, width: u32, height: u32, quality: u8) -> (r: Result<Vec<u8>, image::ImageError>)
    requires
        rgb@.len() == width * height * 3,
    ensures
        r is Ok <==> fits_jpeg(width as nat, height as nat),
        r matches Ok(bytes) ==> bytes@ == jpeg_stream(rgb@, width, height, quality),
{
    let mut out: Vec<u8> = Vec::new();
    let done = image::codecs::jpeg::JpegEncoder::new_with_quality(&mut out, quality).encode(
        rgb.as_slice(),
        width,
        height,
        image::ColorType::Rgb8,
    );
    done.map(|_| out)
}

/// The text of an `image::ImageError`, as its `Display` impl writes it.
/// Nothing is claimed of the text.
#[verifier::external_body]
fn error_text(e: &image::ImageError) -> String {
    format!("{}", e)
}

/// The encoder turned the image down.
#[derive(Debug, Clone, PartialEq, Eq)]
pub struct EncodeError {
    /// The encoder's own account of the failure.
    pub message: String,
}

/// A stream is accepted when it fits under the ceiling, or when the quality
/// cannot be lowered any further.
pub open spec fn accepts(quality: u8, encoded_len: nat, ceiling: nat) -> bool {
    encoded_len <= ceiling || quality <= MIN_QUALITY
}

/// The quality one step down, but not below the floor.
pub open spec fn lowered(quality: u8) -> u8 {
    if quality - QUALITY_STEP > MIN_QUALITY {
        (quality - QUALITY_STEP) as u8
    } else {
        MIN_QUALITY
    }
}

/// What to do after one encoding.
#[derive(Clone, Copy, Debug, PartialEq, Eq, Structural)]
pub enum SearchStep {
    /// Keep the stream.
    Accept,
    /// Discard the stream and encode again at this quality.
    Retry(u8),
}

/// The step that follows an encoding of `encoded_len` bytes at `quality`.
pub open spec fn step_after(quality: u8, encoded_len: nat, ceiling: nat) -> SearchStep {
    if accepts(quality, encoded_len, ceiling) {
        SearchStep::Accept
    } else {
        SearchStep::Retry(lowered(quality))
    }
}

/// Decides, from the length of the stream just encoded at `quality`,
/// whether the search ends there or at which quality it goes on.
pub fn quality_step(quality: u8, encoded_len: usize, max_size_bytes: usize) -> (s: SearchStep)
    ensures
        s == step_after(quality, encoded_len as nat, max_size_bytes as nat),
        s matches SearchStep::Retry(next) ==> MIN_QUALITY <= next < quality,
{
    if encoded_len <= max_size_bytes || quality <= MIN_QUALITY {
        SearchStep::Accept
    } else {
        let down: u8 = quality.saturating_sub(QUALITY_STEP);
        if down > MIN_QUALITY {
            SearchStep::Retry(down)
        } else {
            SearchStep::Retry(MIN_QUALITY)
        }
    }
}

/// The quality at which a search that starts at `quality` ends, where
/// `sizes(q)` is the length of the stream at quality `q`.
pub open spec fn search_quality(sizes: spec_fn(u8) -> nat, quality: u8, ceiling: nat) -> u8
    decreases quality,
{
    if accepts(quality, sizes(quality), ceiling) {
        quality
    } else {
        search_quality(sizes, lowered(quality), ceiling)
    }
}

/// How many encodings a search that starts at `quality` performs.
pub open spec fn search_attempts(sizes: spec_fn(u8) -> nat, quality: u8, ceiling: nat) -> nat
    decreases quality,
{
    if accepts(quality, sizes(quality), ceiling) {
        1
    } else {
        1 + search_attempts(sizes, lowered(quality), ceiling)
    }
}

/// The most encodings that a search from `quality` can take: one for each
/// step down to the floor, and the first.
pub open spec fn max_attempts(quality: u8) -> nat {
    if quality <= MIN_QUALITY {
        1
    } else {
        ((quality - MIN_QUALITY + QUALITY_STEP - 1) / (QUALITY_STEP as int) + 1) as nat
    }
}

/// `quality` is reached from `start` by whole steps down.
pub open spec fn on_step_grid(start: u8, quality: u8) -> bool {
    quality <= start && (start - quality) % (QUALITY_STEP as int) == 0
}

/// The lengths of the JPEG streams of one image, by quality.
pub open spec fn jpeg_sizes(rgb: Seq<u8>, width: u32, height: u32) -> spec_fn(u8) -> nat {
    |quality: u8| jpeg_stream(rgb, width, height, quality).len()
}

/// What a search returns.
#[derive(Debug, Clone, PartialEq, Eq)]
pub struct EncodeOutcome {
    /// The accepted stream.
    pub bytes: Vec<u8>,
    /// The quality at which `bytes` was encoded.
    pub quality: u8,
    /// How many times the image was encoded.
    pub attempts: u32,
}

/// A stream that fits at the starting quality ends the search at once.
pub proof fn lemma_first_attempt_suffices(sizes: spec_fn(u8) -> nat, start: u8, ceiling: nat)
    requires
        sizes(start) <= ceiling,
    ensures
        search_quality(sizes, start, ceiling) == start,
        search_attempts(sizes, start, ceiling) == 1,
{
}

/// The search never raises the quality, ends on an accepted stream, and
/// takes no more encodings than there are steps down to the floor. Above
/// the floor it ends either a whole number of steps below the start or on
/// the floor itself, and each quality it passed over gave a stream that was
/// too large. From the floor or below it ends where it started.
pub proof fn lemma_search(sizes: spec_fn(u8) -> nat, start: u8, ceiling: nat)
    ensures
        search_quality(sizes, start, ceiling) <= start,
        accepts(
            search_quality(sizes, start, ceiling),
            sizes(search_quality(sizes, start, ceiling)),
            ceiling,
        ),
        1 <= search_attempts(sizes, start, ceiling) <= max_attempts(start),
        start <= MIN_QUALITY ==> search_quality(sizes, start, ceiling) == start,
        start >= MIN_QUALITY ==> search_quality(sizes, start, ceiling) >= MIN_QUALITY,
        on_step_grid(start, search_quality(sizes, start, ceiling)) || search_quality(
            sizes,
            start,
            ceiling,
        ) == MIN_QUALITY,
        forall|q: u8|
            search_quality(sizes, start, ceiling) < q && on_step_grid(start, q) ==> #[trigger] sizes(
                q,
            ) > ceiling,
    decreases start,
{
    if !accepts(start, sizes(start), ceiling) {
        let next = lowered(start);
        lemma_search(sizes, next, ceiling);
        let end = search_quality(sizes, start, ceiling);
        assert(end == search_quality(sizes, next, ceiling));
        assert forall|q: u8| end < q && on_step_grid(start, q) implies #[trigger] sizes(q)
            > ceiling by {
            if q != start {
                assert(on_step_grid(next, q));
            }
        }
    }
}

/// When every quality above the floor gives a stream that is too large, the
/// search walks all the way down and ends on the floor, whatever the size
/// of the stream there.
pub proof fn lemma_floor_is_reached(sizes: spec_fn(u8) -> nat, start: u8, ceiling: nat)
    requires
        start >= MIN_QUALITY,
        forall|q: u8| MIN_QUALITY < q && on_step_grid(start, q) ==> #[trigger] sizes(q) > ceiling,
    ensures
        search_quality(sizes, start, ceiling) == MIN_QUALITY,
        search_attempts(sizes, start, ceiling) == max_attempts(start),
    decreases start,
{
    if start > MIN_QUALITY {
        assert(on_step_grid(start, start));
        let next = lowered(start);
        assert forall|q: u8| MIN_QUALITY < q && on_step_grid(next, q) implies #[trigger] sizes(q)
            > ceiling by {
            assert(on_step_grid(start, q));
        }
        lemma_floor_is_reached(sizes, next, ceiling);
    }
}

/// Encodes the image as JPEG, alpha discarded, starting at
/// `initial_quality` and lowering the quality until the stream is no larger
/// than `max_size_bytes` or the floor is reached.
///
/// Fails exactly when a side of the image is too long for a JPEG.
pub fn encode_with_size_limit(img: &RasterImage, initial_quality: u8, max_size_bytes: usize) -> (r:
    Result<EncodeOutcome, EncodeError>)
    ensures
        r is Ok <==> fits_jpeg(img@.width, img@.height),
        r matches Ok(found) ==> {
            let rgb = img@.flattened().bytes();
            let sizes = jpeg_sizes(rgb, img@.width as u32, img@.height as u32);
            &&& found.quality == search_quality(sizes, initial_quality, max_size_bytes as nat)
            &&& found.attempts == search_attempts(sizes, initial_quality, max_size_bytes as nat)
            &&& found.bytes@ == jpeg_stream(
                rgb,
                img@.width as u32,
                img@.height as u32,
                found.quality,
            )
            &&& found.quality <= initial_quality
            &&& found.bytes@.len() <= max_size_bytes || found.quality <= MIN_QUALITY
            &&& sizes(initial_quality) <= max_size_bytes ==> found.quality == initial_quality
                && found.attempts == 1
            &&& initial_quality >= MIN_QUALITY ==> found.quality >= MIN_QUALITY
            &&& on_step_grid(initial_quality, found.quality) || found.quality == MIN_QUALITY
            &&& 1 <= found.attempts <= max_attempts(initial_quality)
        },
{
    let flat = img.to_rgb8();
    let width: u32 = flat.width();
    let height: u32 = flat.height();
    let rgb = flat.as_raw();
    let ghost sizes = jpeg_sizes(rgb@, width, height);
    let ghost ceiling = max_size_bytes as nat;
    let mut quality: u8 = initial_quality;
    let mut attempts: u32 = 1;
    loop
        invariant
            rgb@ == img@.flattened().bytes(),
            rgb@.len() == width * height * 3,
            width == img@.width,
            height == img@.height,
            sizes == jpeg_sizes(rgb@, width, height),
            ceiling == max_size_bytes as nat,
            quality <= initial_quality,
            attempts + quality <= initial_quality + 1,
            search_quality(sizes, initial_quality, ceiling) == search_quality(
                sizes,
                quality,
                ceiling,
            ),
            search_attempts(sizes, initial_quality, ceiling) == attempts - 1 + search_attempts(
                sizes,
                quality,
                ceiling,
            ),
        decreases quality,
    {
        match jpeg_encode(rgb, width, height, quality) {
            Err(e) => {
                return Err(EncodeError { message: error_text(&e) });
            },
            Ok(bytes) => {
                assert(sizes(quality) == bytes@.len());
                match quality_step(quality, bytes.len(), max_size_bytes) {
                    SearchStep::Accept => {
                        proof {
                            lemma_search(sizes, initial_quality, ceiling);
                        }
                        return Ok(EncodeOutcome { bytes, quality, attempts });
                    },
                    SearchStep::Retry(next) => {
                        quality = next;
                        attempts = attempts + 1;
                    },
                }
            },
        }
    }
}

} // verus!
