//! The two image-processing steps of a run: resizing the source into the
//! intermediate artifact, and planning the lossy-encoded output. Pixel work
//! is done by the image crate behind trusted declarations; everything the
//! pipeline decides — artifact names, the output path, what the dimensions
//! may and may not influence — is verified here.
use vstd::prelude::*;

use crate::paths::output_path;
use crate::paths::output_path_spec;
use crate::paths::resized_file_name;
use crate::paths::resized_name;

verus! {

/// Largest target dimension the resize step accepts. The resampler builds an
/// intermediate buffer of source width by target height at 16 bytes per
/// pixel, and the source may be up to the largest 32-bit width; at this bound
/// that buffer, and every other buffer of the resize, stays at or under the
/// allocator's panic line of `isize::MAX` bytes.
pub const MAX_RESIZE_DIM: u32 = 0x8000000;

/// image::DynamicImage, the decoded pixel buffer, carried opaquely.
#[verifier::external_type_specification]
#[verifier::external_body]
pub struct ExDynamicImage(image::DynamicImage);

/// Relies on image::load_from_memory: decodes an image from in-memory bytes,
/// detecting the format from the content and from the process-global registry
/// of format hooks; a decoder failure comes back as its message. Because an
/// embedder may change that registry at run time, the outcome is not a
/// function of the bytes alone and nothing is claimed of it.
#[verifier::external_body]
fn decode_image(data: &[u8]) -> (r: Result<image::DynamicImage, String>) {
    match image::load_from_memory(data) {
        Ok(img) => Ok(img),
        Err(e) => Err(e.to_string()),
    }
}

/// Relies on image::DynamicImage::resize_exact: a new image at exactly the
/// requested dimensions, resampled with the triangle filter. The bounds keep
/// every buffer of the resampling under the allocator's panic line for every
/// possible source image, whose own dimensions this signature cannot see.
#[verifier::external_body]
fn resize_triangle(img: &image::DynamicImage, width: u32, height: u32) -> (r:
    image::DynamicImage)
    requires
        width <= MAX_RESIZE_DIM,
        height <= MAX_RESIZE_DIM,
{
    img.resize_exact(width, height, image::imageops::FilterType::Triangle)
}

/// Resizes a decoded source image to the chosen dimensions and names the
/// intermediate artifact the result is stored under: the source stem tagged
/// as resized.
pub fn resize_image(img: &image::DynamicImage, width: u32, height: u32, source_stem: &str) -> (r:
    (image::DynamicImage, String))
    requires
        1 <= width <= MAX_RESIZE_DIM,
        1 <= height <= MAX_RESIZE_DIM,
    ensures
        r.1@ == resized_name(source_stem@),
{
    let resized = resize_triangle(img, width, height);
    let name = resized_file_name(source_stem);
    (resized, name)
}

/// Decodes the source image from its bytes and resizes it; when the decoder
/// rejects the bytes, fails with the decoder's message.
pub fn resize_from_bytes(data: &[u8], width: u32, height: u32, source_stem: &str) -> (r: Result<
    (image::DynamicImage, String),
    String,
>)
    requires
        1 <= width <= MAX_RESIZE_DIM,
        1 <= height <= MAX_RESIZE_DIM,
    ensures
        r matches Ok(p) ==> p.1@ == resized_name(source_stem@),
{
    match decode_image(data) {
        Ok(img) => Ok(resize_image(&img, width, height, source_stem)),
        Err(e) => Err(e),
    }
}

/// Re-decodes the intermediate artifact from its bytes and plans where the
/// lossy-encoded copy goes; when the decoder rejects the bytes, fails with
/// the decoder's message. The dimensions only tag the output directory:
/// nothing here relates them to the artifact's own size — the already-resized
/// buffer is trusted as it is.
pub fn prepare_encode(data: &[u8], width: u32, height: u32, source_stem: &str) -> (r: Result<
    (image::DynamicImage, String),
    String,
>)
    requires
        1 <= width,
        1 <= height,
    ensures
        r matches Ok(p) ==> p.1@ == output_path_spec(width as nat, height as nat, source_stem@),
{
    match decode_image(data) {
        Ok(img) => Ok((img, output_path(width, height, source_stem))),
        Err(e) => Err(e),
    }
}

} // verus!
