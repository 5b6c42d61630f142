use vstd::prelude::*;
use vstd::string::*;
use vstd::utf8::encode_utf8;
use crate::text::{chars_eq, has_prefix, lossy_utf8, str_chars, string_from_chars, string_from_utf8_lossy};

verus! {

/// A translated image: the text found in it, its translation, and the
/// picture with the translation drawn over it.
pub struct ImageTranslation {
    pub extracted_text: String,
    pub translated_text: String,
    pub image_width: u32,
    pub image_height: u32,
    pub rendered_rgba_bytes: Vec<u8>,
}

// ---------------------------------------------------------------------------
// Percent-decoding of picked file URLs.
// ---------------------------------------------------------------------------

pub open spec fn is_hex_byte(b: u8) -> bool {
    (48 <= b <= 57) || (65 <= b <= 70) || (97 <= b <= 102)
}

pub open spec fn hex_byte_value(b: u8) -> nat {
    if 48 <= b <= 57 {
        (b - 48) as nat
    } else if 65 <= b <= 70 {
        (b - 55) as nat
    } else {
        (b - 87) as nat
    }
}

/// The byte `%` followed by `b1 b2` stands for: what `u8::from_str_radix`
/// reads from the two bytes in base 16, which takes two hex digits or a `+`
/// sign and one.
pub open spec fn escape_value(b1: u8, b2: u8) -> Option<u8> {
    if is_hex_byte(b1) && is_hex_byte(b2) {
        Some((hex_byte_value(b1) * 16 + hex_byte_value(b2)) as u8)
    } else if b1 == 43 && is_hex_byte(b2) {
        Some(hex_byte_value(b2) as u8)
    } else {
        None
    }
}

/// The bytes with every valid `%XX` escape replaced by the byte it names;
/// anything else, a lone `%` included, is kept.
pub open spec fn percent_decoded(bytes: Seq<u8>) -> Seq<u8>
    decreases bytes.len(),
{
    if bytes.len() == 0 {
        seq![]
    } else if bytes[0] == 37 && 2 < bytes.len() && escape_value(bytes[1], bytes[2]) is Some {
        seq![escape_value(bytes[1], bytes[2])->0] + percent_decoded(bytes.skip(3))
    } else {
        seq![bytes[0]] + percent_decoded(bytes.skip(1))
    }
}

/// The text a percent-encoded string decodes to; bytes that are not UTF-8
/// become replacement characters.
pub open spec fn decoded_text(s: Seq<char>) -> Seq<char> {
    lossy_utf8(percent_decoded(encode_utf8(s)))
}

fn hex_value(b: u8) -> (r: u8)
    requires
        is_hex_byte(b),
    ensures
        r == hex_byte_value(b),
{
    if b <= 57 {
        b - 48
    } else if b <= 70 {
        b - 55
    } else {
        b - 87
    }
}

fn is_hex(b: u8) -> (r: bool)
    ensures
        r == is_hex_byte(b),
{
    (48 <= b && b <= 57) || (65 <= b && b <= 70) || (97 <= b && b <= 102)
}

fn escape(b1: u8, b2: u8) -> (r: Option<u8>)
    ensures
        r == escape_value(b1, b2),
{
    if is_hex(b1) && is_hex(b2) {
        Some(hex_value(b1) * 16 + hex_value(b2))
    } else if b1 == 43 && is_hex(b2) {
        Some(hex_value(b2))
    } else {
        None
    }
}

pub fn percent_decode_bytes(bytes: &[u8]) -> (r: Vec<u8>)
    ensures
        r@ == percent_decoded(bytes@),
{
    let mut out: Vec<u8> = Vec::new();
    let mut i: usize = 0;
    assert(bytes@.skip(0) =~= bytes@);
    while i < bytes.len()
        invariant
            i <= bytes@.len(),
            out@ + percent_decoded(bytes@.skip(i as int)) == percent_decoded(bytes@),
        decreases bytes.len() - i,
    {
        let ghost rest = bytes@.skip(i as int);
        if bytes[i] == 37 && bytes.len() - i > 2 {
            match escape(bytes[i + 1], bytes[i + 2]) {
                Some(v) => {
                    proof {
                        assert(rest[0] == 37 && rest[1] == bytes@[i + 1] && rest[2] == bytes@[i + 2]);
                        assert(rest.skip(3) =~= bytes@.skip(i + 3));
                        assert(out@.push(v) + percent_decoded(bytes@.skip(i + 3)) =~= out@
                            + percent_decoded(rest));
                    }
                    out.push(v);
                    i = i + 3;
                    continue ;
                },
                None => {},
            }
        }
        proof {
            assert(rest[0] == bytes@[i as int]);
            if rest[0] == 37 && 2 < rest.len() {
                assert(rest[1] == bytes@[i + 1] && rest[2] == bytes@[i + 2]);
            }
            assert(rest.skip(1) =~= bytes@.skip(i + 1));
            assert(out@.push(bytes@[i as int]) + percent_decoded(bytes@.skip(i + 1)) =~= out@
                + percent_decoded(rest));
        }
        out.push(bytes[i]);
        i = i + 1;
    }
    assert(percent_decoded(bytes@.skip(i as int)) =~= Seq::<u8>::empty());
    assert(out@ =~= out@ + Seq::<u8>::empty());
    out
}

pub fn percent_decode(value: &str) -> (r: String)
    ensures
        r@ == decoded_text(value@),
{
    let decoded = percent_decode_bytes(value.as_bytes());
    string_from_utf8_lossy(decoded.as_slice())
}

/// The local path a picked file's URL or path names: a `file://` URL is
/// decoded unless that leaves nothing, anything else is decoded as it is;
/// an empty input names nothing.
pub open spec fn resolved_local_path(input: Seq<char>) -> Option<Seq<char>> {
    let scheme = "file://"@;
    if input.len() == 0 {
        None
    } else if has_prefix(input, scheme) && decoded_text(input.skip(scheme.len() as int)).len() > 0 {
        Some(decoded_text(input.skip(scheme.len() as int)))
    } else {
        Some(decoded_text(input))
    }
}

pub fn resolve_local_path(input: &str) -> (r: Option<String>)
    ensures
        r matches Some(path) ==> resolved_local_path(input@) == Some(path@),
        r is None <==> resolved_local_path(input@) is None,
{
    if input.is_empty() {
        return None;
    }
    let chars = str_chars(input);
    let scheme = str_chars("file://");
    if crate::text::chars_start_with(chars.as_slice(), scheme.as_slice()) {
        let rest = input.substring_char(scheme.len(), input.unicode_len());
        assert(rest@ =~= input@.skip(scheme@.len() as int));
        let decoded = percent_decode(rest);
        if !decoded.as_str().is_empty() {
            return Some(decoded);
        }
    }
    Some(percent_decode(input))
}

// ---------------------------------------------------------------------------
// Image size limits.
// ---------------------------------------------------------------------------

/// The size an image is processed at: its own size when its longer side is
/// within `max_image_size` (or there is no limit), otherwise scaled down so
/// the longer side is exactly the limit; never below one pixel.
pub open spec fn scaled_size(width: nat, height: nat, max_image_size: nat) -> (nat, nat) {
    let w = if width == 0 { 1 } else { width };
    let h = if height == 0 { 1 } else { height };
    if max_image_size == 0 {
        (w, h)
    } else if (if width >= height { width } else { height }) <= max_image_size {
        (w, h)
    } else if width >= height {
        let s = height * max_image_size / width;
        (max_image_size, if s == 0 { 1 } else { s })
    } else {
        let s = width * max_image_size / height;
        (if s == 0 { 1 } else { s }, max_image_size)
    }
}

pub fn scaled_dimensions(width: u32, height: u32, max_image_size: u32) -> (r: (u32, u32))
    ensures
        (r.0 as nat, r.1 as nat) == scaled_size(width as nat, height as nat, max_image_size as nat),
{
    let w = if width == 0 { 1 } else { width };
    let h = if height == 0 { 1 } else { height };
    if max_image_size == 0 {
        return (w, h);
    }
    let largest = if width >= height { width } else { height };
    if largest <= max_image_size {
        return (w, h);
    }
    if width >= height {
        assert((height as int) * (max_image_size as int) <= 4294967295 * 4294967295) by (nonlinear_arith)
            requires
                height <= 4294967295,
                max_image_size <= 4294967295,
        ;
        let scaled = (height as u64) * (max_image_size as u64) / (width as u64);
        assert(scaled <= max_image_size) by (nonlinear_arith)
            requires
                scaled == (height as int) * (max_image_size as int) / (width as int),
                height <= width,
                width > 0,
        ;
        let s: u32 = if scaled == 0 { 1 } else { scaled as u32 };
        (max_image_size, s)
    } else {
        assert((width as int) * (max_image_size as int) <= 4294967295 * 4294967295) by (nonlinear_arith)
            requires
                width <= 4294967295,
                max_image_size <= 4294967295,
        ;
        let scaled = (width as u64) * (max_image_size as u64) / (height as u64);
        assert(scaled <= max_image_size) by (nonlinear_arith)
            requires
                scaled == (width as int) * (max_image_size as int) / (height as int),
                width < height,
                height > 0,
        ;
        let s: u32 = if scaled == 0 { 1 } else { scaled as u32 };
        (s, max_image_size)
    }
}

/// What loading does with a decoded image.
#[derive(Clone, Copy, Debug, PartialEq, Eq, Structural)]
pub enum ImageFit {
    /// The image is processed at its own size.
    Keep { width: u32, height: u32 },
    /// The image is resized to this size first.
    Resize { width: u32, height: u32 },
}

pub open spec fn empty_image_message(path: Seq<char>) -> Seq<char> {
    "Failed to load image: "@ + path
}

/// A decoded image without pixels is refused; any other is kept at its size
/// or resized to the processing size.
pub fn fit_image(path: &str, width: u32, height: u32, max_image_size: u32) -> (r: Result<ImageFit, String>)
    ensures
        width == 0 || height == 0 ==> (r matches Err(m) && m@ == empty_image_message(path@)),
        width > 0 && height > 0 ==> {
            let (w, h) = scaled_size(width as nat, height as nat, max_image_size as nat);
            if w == width && h == height {
                r == Ok::<ImageFit, String>(ImageFit::Keep { width, height })
            } else {
                r matches Ok(ImageFit::Resize { width: rw, height: rh }) && rw == w && rh == h
            }
        },
{
    if width == 0 || height == 0 {
        let mut out = str_chars("Failed to load image: ");
        crate::text::push_all(&mut out, str_chars(path).as_slice());
        return Err(string_from_chars(&out));
    }
    let (w, h) = scaled_dimensions(width, height, max_image_size);
    if w == width && h == height {
        Ok(ImageFit::Keep { width, height })
    } else {
        Ok(ImageFit::Resize { width: w, height: h })
    }
}

/// The colours the overlay is drawn in.
#[derive(Clone, Copy, Debug, PartialEq, Eq, Structural)]
pub enum BackgroundMode {
    BlackOnWhite,
    WhiteOnBlack,
    AutoDetect,
}

/// The setting's label as a mode; any label but the two fixed ones detects.
pub open spec fn background_mode_for(label: Seq<char>) -> BackgroundMode {
    if label == "Light Background"@ {
        BackgroundMode::BlackOnWhite
    } else if label == "Dark Background"@ {
        BackgroundMode::WhiteOnBlack
    } else {
        BackgroundMode::AutoDetect
    }
}

pub fn map_background_mode(label: &str) -> (r: BackgroundMode)
    ensures
        r == background_mode_for(label@),
{
    let chars = str_chars(label);
    if chars_eq(chars.as_slice(), str_chars("Light Background").as_slice()) {
        BackgroundMode::BlackOnWhite
    } else if chars_eq(chars.as_slice(), str_chars("Dark Background").as_slice()) {
        BackgroundMode::WhiteOnBlack
    } else {
        BackgroundMode::AutoDetect
    }
}

/// Bytes without a `%` decode to themselves.
pub proof fn lemma_plain_bytes_decode_to_themselves(bytes: Seq<u8>)
    requires
        !bytes.contains(37u8),
    ensures
        percent_decoded(bytes) == bytes,
    decreases bytes.len(),
{
    if bytes.len() > 0 {
        assert(bytes[0] != 37u8) by {
            if bytes[0] == 37u8 {
                assert(bytes.contains(37u8));
            }
        }
        assert(!bytes.skip(1).contains(37u8)) by {
            if bytes.skip(1).contains(37u8) {
                let k = choose|k: int| 0 <= k < bytes.skip(1).len() && bytes.skip(1)[k] == 37u8;
                assert(bytes[k + 1] == 37u8);
            }
        }
        lemma_plain_bytes_decode_to_themselves(bytes.skip(1));
        assert(seq![bytes[0]] + bytes.skip(1) =~= bytes);
    }
}

/// An image over the limit comes out with its longer side exactly at the
/// limit and neither side above it; no side is ever below one pixel.
pub proof fn lemma_scaled_size_within_limit(width: nat, height: nat, max_image_size: nat)
    ensures
        scaled_size(width, height, max_image_size).0 >= 1,
        scaled_size(width, height, max_image_size).1 >= 1,
        max_image_size > 0 && (width > max_image_size || height > max_image_size) ==> {
            let (w, h) = scaled_size(width, height, max_image_size);
            &&& w <= max_image_size && h <= max_image_size
            &&& (w == max_image_size || h == max_image_size)
        },
{
    if max_image_size > 0 && (width > max_image_size || height > max_image_size) {
        if width >= height {
            assert(height * max_image_size / width <= max_image_size) by (nonlinear_arith)
                requires
                    height <= width,
                    width > 0,
            ;
        } else {
            assert(width * max_image_size / height <= max_image_size) by (nonlinear_arith)
                requires
                    width < height,
                    height > 0,
            ;
        }
    }
}

} // verus!
