//! One input image from decoded pixels to the bytes of its output file.

use crate::encoder::{
    encode_with_size_limit, fits_jpeg, jpeg_sizes, jpeg_stream, search_quality, EncodeError,
};
use crate::files::{generate_output_path, output_name, path_error, scratch_name, PathError};
use crate::raster::{BackgroundColor, RasterImage};
use crate::transform::{pad_fits, transform, transform_view, ConversionMode};
use vstd::prelude::*;

verus! {

/// Bytes in one megabyte of the size limit.
pub const BYTES_PER_MEGABYTE: usize = 1_048_576;

/// What is fixed for a whole run.
#[derive(Clone, Copy, Debug, PartialEq, Eq)]
pub struct Settings {
    pub mode: ConversionMode,
    /// The border of a padded image; plays no part in a crop.
    pub bg_color: BackgroundColor,
    /// The quality at which every search starts.
    pub quality: u8,
    /// The largest output file, in megabytes.
    pub max_size: usize,
}

/// Why a run cannot start.
#[derive(Clone, Copy, Debug, PartialEq, Eq, Structural)]
pub enum ConfigError {
    /// The quality is not one of 1 to 100.
    QualityOutOfRange,
}

/// Accepts a starting quality of 1 to 100.
pub fn validate_quality(quality: u8) -> (r: Result<(), ConfigError>)
    ensures
        r == if 1 <= quality <= 100 {
            Ok::<(), ConfigError>(())
        } else {
            Err::<(), ConfigError>(ConfigError::QualityOutOfRange)
        },
{
    if quality == 0 || quality > 100 {
        Err(ConfigError::QualityOutOfRange)
    } else {
        Ok(())
    }
}

/// The size limit in bytes. A limit beyond the largest `usize` stands for
/// that largest value, which no buffer exceeds.
pub open spec fn size_limit(max_size: usize) -> nat {
    if max_size * BYTES_PER_MEGABYTE <= usize::MAX {
        (max_size * BYTES_PER_MEGABYTE) as nat
    } else {
        usize::MAX as nat
    }
}

/// A buffer is within the size limit in bytes exactly when it is within
/// the limit in megabytes.
pub proof fn lemma_size_limit(len: usize, max_size: usize)
    ensures
        len <= size_limit(max_size) <==> len <= max_size * BYTES_PER_MEGABYTE,
{
}

/// The size limit of so many megabytes, in bytes.
pub fn max_size_bytes(max_size: usize) -> (bytes: usize)
    ensures
        bytes == size_limit(max_size),
{
    match max_size.checked_mul(BYTES_PER_MEGABYTE) {
        Some(bytes) => bytes,
        None => usize::MAX,
    }
}

/// The quality to report: the final one if the search had to go below the
/// starting quality, none if the starting quality sufficed.
pub open spec fn lowered_quality(final_quality: u8, initial_quality: u8) -> Option<u8> {
    if final_quality < initial_quality {
        Some(final_quality)
    } else {
        None
    }
}

/// The output of one input image.
#[derive(Debug, Clone, PartialEq, Eq)]
pub struct ProcessResult {
    /// The name of the output file, in the directory of the input.
    pub file_name: String,
    /// The name under which to write the bytes before renaming to
    /// `file_name`.
    pub scratch_name: String,
    /// The JPEG stream to write.
    pub bytes: Vec<u8>,
    /// The size of the image that was encoded.
    pub width: u32,
    pub height: u32,
    /// The length of `bytes`.
    pub final_size: usize,
    /// The quality used, if it is lower than the one asked for.
    pub final_quality: Option<u8>,
}

/// Why one input image has no output.
#[derive(Debug, Clone, PartialEq, Eq)]
pub enum ProcessError {
    /// No output path can be derived from the input path.
    Path(PathError),
    /// The image cannot be encoded.
    Encode(EncodeError),
}

/// Turns one decoded image into its output: brings it to 4:5 as the
/// settings say, names the output after the input's stem, and encodes it
/// under the size limit.
///
/// A path without parent or stem is reported before any encoding; an image
/// that is too large for a JPEG after the transform is reported as such.
pub fn process_image(img: RasterImage, has_parent: bool, stem: Option<&str>, settings: &Settings) -> (r:
    Result<ProcessResult, ProcessError>)
    requires
        settings.mode == ConversionMode::Pad ==> pad_fits(img@),
    ensures
        ({
            let framed = transform_view(img@, settings.mode, settings.bg_color);
            let missing = path_error(
                has_parent,
                match stem {
                    Some(s) => Some(s@),
                    None => None,
                },
            );
            match r {
                Err(ProcessError::Path(e)) => missing == Some(e),
                Err(ProcessError::Encode(_)) => missing is None && !fits_jpeg(
                    framed.width,
                    framed.height,
                ),
                Ok(done) => {
                    let rgb = framed.flattened().bytes();
                    let sizes = jpeg_sizes(rgb, framed.width as u32, framed.height as u32);
                    let quality = search_quality(sizes, settings.quality, size_limit(settings.max_size));
                    &&& missing is None
                    &&& fits_jpeg(framed.width, framed.height)
                    &&& stem matches Some(s) && done.file_name@ == output_name(s@)
                        && done.scratch_name@ == scratch_name(s@)
                    &&& done.width == framed.width
                    &&& done.height == framed.height
                    &&& done.bytes@ == jpeg_stream(
                        rgb,
                        framed.width as u32,
                        framed.height as u32,
                        quality,
                    )
                    &&& done.final_size == done.bytes@.len()
                    &&& done.final_quality == lowered_quality(quality, settings.quality)
                    &&& done.final_size <= size_limit(settings.max_size) || quality <= 60
                },
            }
        }),
{
    let converted = transform(img, settings.mode, settings.bg_color);
    let names = match generate_output_path(has_parent, stem) {
        Ok(names) => names,
        Err(e) => {
            return Err(ProcessError::Path(e));
        },
    };
    let limit: usize = max_size_bytes(settings.max_size);
    let found = match encode_with_size_limit(&converted, settings.quality, limit) {
        Ok(found) => found,
        Err(e) => {
            return Err(ProcessError::Encode(e));
        },
    };
    let final_size: usize = found.bytes.len();
    let final_quality = if found.quality < settings.quality {
        Some(found.quality)
    } else {
        None
    };
    Ok(
        ProcessResult {
            file_name: names.file_name,
            scratch_name: names.scratch_name,
            bytes: found.bytes,
            width: converted.width(),
            height: converted.height(),
            final_size,
            final_quality,
        },
    )
}

} // verus!
