//! Fits raster images to a 4:5 portrait frame, by centre crop or by padding,
//! and encodes them as JPEG under a byte ceiling by lowering the quality in
//! fixed steps.
//!
//! * [`ratio`]: the integer arithmetic of the frame: when a size counts as
//!   4:5, the size of the crop and of the padded canvas, the centred offset.
//! * [`raster`]: images as grids of 8-bit pixels over a byte buffer.
//! * [`transform`]: the centre crop and the padding, pixel by pixel.
//! * [`encoder`]: the search for the highest quality, on a grid of steps,
//!   whose JPEG stream fits under the ceiling.
//! * [`files`]: which files of a directory walk are input images, and what
//!   the output of an input is called.
//! * [`pipeline`]: one decoded image to the bytes and the name of its output.
//!
//! Everything is verified but the JPEG encoding itself, which is the `image`
//! crate's: the library knows of a stream only that it is what that encoder
//! writes for the given pixels, size and quality, and that the encoder turns
//! down nothing but a side above 65535.
//!
//! Reading and writing files is left to the caller.

pub mod encoder;
pub mod files;
pub mod pipeline;
pub mod raster;
pub mod ratio;
pub mod transform;
