//! Trusted boundary to the image codec: JPEG decoding and high-quality
//! resizing. Decoded images are opaque values that flow through to the caller,
//! which writes them out as rendition files.

use vstd::prelude::*;

verus! {

#[verifier::external_type_specification]
#[verifier::external_body]
pub struct ExDynamicImage(image::DynamicImage);

/// Whether a byte sequence decodes as a JPEG image: a function of the bytes
/// alone.
pub uninterp spec fn jpeg_decodes(bytes: Seq<u8>) -> bool;

/// Relies on `image::load_from_memory_with_format` with the JPEG format:
/// whether the bytes decode depends only on the bytes.
#[verifier::external_body]
pub fn decode_jpeg(bytes: &Vec<u8>) -> (r: Option<image::DynamicImage>)
    ensures
        (r is Some) == jpeg_decodes(bytes@),
{
    image::load_from_memory_with_format(bytes.as_slice(), image::ImageFormat::Jpeg).ok()
}

/// Relies on `image::DynamicImage::resize` with the Lanczos3 filter: returns
/// a resized copy that fits within the given bounds; nothing further is
/// assumed of it.
#[verifier::external_body]
fn resize_image(img: &image::DynamicImage, width: u32, height: u32) -> image::DynamicImage {
    img.resize(width, height, image::imageops::FilterType::Lanczos3)
}

/// All rendition images of one upload: index 0 is the decoded original, index
/// `i + 1` the original resized to fit `sizes[i]`.
pub fn render_renditions(original: image::DynamicImage, sizes: &Vec<(u32, u32)>) -> (r: Vec<
    image::DynamicImage,
>)
    ensures
        r@.len() == sizes@.len() + 1,
{
    let mut resized: Vec<image::DynamicImage> = Vec::new();
    let mut i: usize = 0;
    while i < sizes.len()
        invariant
            0 <= i <= sizes@.len(),
            resized@.len() == i,
        decreases sizes@.len() - i,
    {
        let width = sizes[i].0;
        let height = sizes[i].1;
        resized.push(resize_image(&original, width, height));
        i += 1;
    }
    let mut r: Vec<image::DynamicImage> = Vec::new();
    r.push(original);
    r.append(&mut resized);
    r
}

} // verus!
