use std::io::Cursor;
use image::{DynamicImage, ImageDecoder, ImageFormat, ImageReader};
use vstd::prelude::*;
use crate::image_load::DecodeStage::{CreateDecoder, Decode, Orientation};
use crate::image_ocr::{empty_image_message, fit_image, scaled_size, ImageFit};
use crate::text::{push_all, str_chars, string_from_chars};

verus! {

// ---------------------------------------------------------------------------
// Loading a picked image: the file's bytes are decoded, turned upright by
// their EXIF orientation, and brought to the size it is processed at.
// ---------------------------------------------------------------------------

/// Where decoding an image stopped.
#[derive(Clone, Copy, Debug, PartialEq, Eq, Structural)]
pub enum DecodeStage {
    /// No decoder for the image's format could be set up.
    CreateDecoder,
    /// The image's orientation could not be read.
    Orientation,
    /// The pixels could not be decoded.
    Decode,
}

/// What the `image` crate makes of these bytes, with the format taken from
/// the path's extension: the RGBA8 pixels of the picture turned upright by
/// its EXIF orientation, with its width and height; or the stage that
/// failed, with the crate's message.
pub uninterp spec fn decoded_upright_rgba(path: Seq<char>, bytes: Seq<u8>) -> Result<
    (Seq<u8>, u32, u32),
    (DecodeStage, Seq<char>),
>;

/// Decodes with `image::ImageReader` (format from the path's extension),
/// reads the EXIF orientation with `ImageDecoder::orientation`, decodes with
/// `DynamicImage::from_decoder`, applies `DynamicImage::apply_orientation`
/// and converts with `DynamicImage::to_rgba8`. The result depends on the
/// path and the bytes alone. An `ImageBuffer` is only ever built over a
/// buffer that holds all its pixels, so the bytes cover width × height × 4.
/// The decoders of the crate's default formats (PNG, JPEG, GIF, WebP, TIFF,
/// BMP, ICO, PNM, TGA, DDS, farbfeld, QOI, HDR and OpenEXR) are relied on to
/// report malformed bytes as an error rather than panic.
#[verifier::external_body]
fn decode_upright_rgba(path: &str, bytes: &[u8]) -> (r: Result<(Vec<u8>, u32, u32), (DecodeStage, String)>)
    ensures
        r matches Ok((px, w, h)) ==> (decoded_upright_rgba(path@, bytes@) matches Ok((dpx, dw, dh))
            && dpx == px@ && dw == w && dh == h && px@.len() >= (w as int) * (h as int) * 4),
        r matches Err((stage, message)) ==> (decoded_upright_rgba(path@, bytes@) matches Err((
            dstage,
            dmessage,
        )) && dstage == stage && dmessage == message@),
{
    let mut reader = ImageReader::new(Cursor::new(bytes));
    if let Ok(format) = ImageFormat::from_path(path) { reader.set_format(format); }
    let mut decoder = match reader.into_decoder() { Ok(d) => d, Err(e) => return Err((CreateDecoder, e.to_string())) };
    let orientation = match decoder.orientation() { Ok(o) => o, Err(e) => return Err((Orientation, e.to_string())) };
    let mut picture = match DynamicImage::from_decoder(decoder) { Ok(p) => p, Err(e) => return Err((Decode, e.to_string())) };
    picture.apply_orientation(orientation);
    let rgba = picture.to_rgba8();
    let (width, height) = rgba.dimensions();
    Ok((rgba.into_raw(), width, height))
}

/// The RGBA8 pixels that `image::imageops::resize` with the triangle filter
/// makes of a `w` × `h` picture at `nw` × `nh`.
pub uninterp spec fn resized_rgba(px: Seq<u8>, w: u32, h: u32, nw: u32, nh: u32) -> Seq<u8>;

/// Wraps the pixels in an `RgbaImage` with `ImageBuffer::from_raw`, which
/// accepts any buffer that holds all the pixels, and resizes them with
/// `imageops::resize` and `FilterType::Triangle`. The output depends on its
/// arguments alone.
#[verifier::external_body]
fn resize_rgba_triangle(px: &[u8], w: u32, h: u32, nw: u32, nh: u32) -> (r: Vec<u8>)
    requires
        px@.len() >= (w as int) * (h as int) * 4,
        nw <= w,
        nh <= h,
    ensures
        r@ == resized_rgba(px@, w, h, nw, nh),
{
    match image::RgbaImage::from_raw(w, h, px.to_vec()) {
        Some(picture) => image::imageops::resize(&picture, nw, nh, image::imageops::FilterType::Triangle).into_raw(),
        None => Vec::new(),
    }
}

/// An image ready for processing: RGBA8 pixels, row by row.
#[derive(Clone, Debug)]
pub struct LoadedImage {
    pub rgba_bytes: Vec<u8>,
    pub width: u32,
    pub height: u32,
}

/// How a failed decoding reads, naming the image and the stage.
pub open spec fn stage_message(stage: DecodeStage, path: Seq<char>, message: Seq<char>) -> Seq<char> {
    match stage {
        DecodeStage::CreateDecoder => "Failed to create decoder for image "@ + path + ": "@ + message,
        DecodeStage::Orientation => "Failed to read orientation for image "@ + path + ": "@ + message,
        DecodeStage::Decode => "Failed to decode image "@ + path + ": "@ + message,
    }
}

/// How a file that cannot be read reads.
pub open spec fn open_message(path: Seq<char>, message: Seq<char>) -> Seq<char> {
    "Failed to open image "@ + path + ": "@ + message
}

/// The image loaded from a file's bytes: the picture decoded and turned
/// upright; one without pixels is refused; one within the size limit keeps
/// its pixels, a larger one is resized to the processing size.
pub open spec fn loaded_image(path: Seq<char>, bytes: Seq<u8>, max_image_size: u32) -> Result<
    (Seq<u8>, u32, u32),
    Seq<char>,
> {
    match decoded_upright_rgba(path, bytes) {
        Err((stage, message)) => Err(stage_message(stage, path, message)),
        Ok((px, w, h)) => if w == 0 || h == 0 {
            Err(empty_image_message(path))
        } else {
            let (nw, nh) = scaled_size(w as nat, h as nat, max_image_size as nat);
            if nw == w && nh == h {
                Ok((px, w, h))
            } else {
                Ok((resized_rgba(px, w, h, nw as u32, nh as u32), nw as u32, nh as u32))
            }
        },
    }
}

proof fn lemma_scaled_size_shrinks(width: nat, height: nat, max_image_size: nat)
    requires
        width > 0,
        height > 0,
    ensures
        scaled_size(width, height, max_image_size).0 <= width,
        scaled_size(width, height, max_image_size).1 <= height,
{
    if max_image_size > 0 && (if width >= height { width } else { height }) > max_image_size {
        if width >= height {
            assert(height * max_image_size / width <= height) by (nonlinear_arith)
                requires
                    max_image_size < width,
                    width > 0,
            ;
        } else {
            assert(width * max_image_size / height <= width) by (nonlinear_arith)
                requires
                    max_image_size < height,
                    height > 0,
            ;
        }
    }
}

fn concat3(a: &str, b: &str, c: &str, d: &str) -> (r: String)
    ensures
        r@ == a@ + b@ + c@ + d@,
{
    let mut out = str_chars(a);
    push_all(&mut out, str_chars(b).as_slice());
    push_all(&mut out, str_chars(c).as_slice());
    push_all(&mut out, str_chars(d).as_slice());
    string_from_chars(&out)
}

/// The message for an image file that could not be read.
pub fn open_failure(path: &str, message: &str) -> (r: String)
    ensures
        r@ == open_message(path@, message@),
{
    concat3("Failed to open image ", path, ": ", message)
}

/// Loads the image at `path` from its bytes, for processing at no more
/// than `max_image_size` on its longer side (0 for no limit).
pub fn load_image_rgba(path: &str, bytes: &[u8], max_image_size: u32) -> (r: Result<LoadedImage, String>)
    ensures
        r matches Ok(image) ==> loaded_image(path@, bytes@, max_image_size) == Ok::<
            (Seq<u8>, u32, u32),
            Seq<char>,
        >((image.rgba_bytes@, image.width, image.height)),
        r matches Err(message) ==> loaded_image(path@, bytes@, max_image_size) == Err::<
            (Seq<u8>, u32, u32),
            Seq<char>,
        >(message@),
{
    let (px, width, height) = match decode_upright_rgba(path, bytes) {
        Ok(decoded) => decoded,
        Err((stage, message)) => {
            let lead = match stage {
                DecodeStage::CreateDecoder => "Failed to create decoder for image ",
                DecodeStage::Orientation => "Failed to read orientation for image ",
                DecodeStage::Decode => "Failed to decode image ",
            };
            proof {
                reveal_strlit("Failed to create decoder for image ");
                reveal_strlit("Failed to read orientation for image ");
                reveal_strlit("Failed to decode image ");
            }
            return Err(concat3(lead, path, ": ", message.as_str()));
        },
    };
    match fit_image(path, width, height, max_image_size) {
        Err(message) => Err(message),
        Ok(ImageFit::Keep { width, height }) => Ok(LoadedImage { rgba_bytes: px, width, height }),
        Ok(ImageFit::Resize { width: nw, height: nh }) => {
            proof {
                lemma_scaled_size_shrinks(width as nat, height as nat, max_image_size as nat);
            }
            let resized = resize_rgba_triangle(px.as_slice(), width, height, nw, nh);
            Ok(LoadedImage { rgba_bytes: resized, width: nw, height: nh })
        },
    }
}

/// The pixels, width and height of the image loaded from these bytes.
pub fn load_preview_rgba(path: &str, bytes: &[u8], max_image_size: u32) -> (r: Result<
    (Vec<u8>, u32, u32),
    String,
>)
    ensures
        r matches Ok((px, w, h)) ==> loaded_image(path@, bytes@, max_image_size) == Ok::<
            (Seq<u8>, u32, u32),
            Seq<char>,
        >((px@, w, h)),
        r matches Err(message) ==> loaded_image(path@, bytes@, max_image_size) == Err::<
            (Seq<u8>, u32, u32),
            Seq<char>,
        >(message@),
{
    match load_image_rgba(path, bytes, max_image_size) {
        Ok(image) => Ok((image.rgba_bytes, image.width, image.height)),
        Err(message) => Err(message),
    }
}

} // verus!
