use vstd::prelude::*;
use crate::text::{str_chars, string_from_chars};

verus! {

/// The language a fresh install translates from and to.
pub fn default_lang_code() -> (r: String)
    ensures
        r@ == "en"@,
{
    string_from_chars(&str_chars("en"))
}

pub fn default_ocr_background_mode() -> (r: String)
    ensures
        r@ == "Auto-detect Colors"@,
{
    string_from_chars(&str_chars("Auto-detect Colors"))
}

/// Recognized words below this confidence (in percent) are dropped.
pub fn default_ocr_min_confidence() -> (r: i32)
    ensures
        r == 75,
{
    75
}

/// Images are scaled down until their longer side is at most this many
/// pixels.
pub fn default_ocr_max_image_size() -> (r: i32)
    ensures
        r == 1000,
{
    1000
}

pub fn default_catalog_index_url() -> (r: String)
    ensures
        r@ == "https://offline-translator.davidv.dev/index"@,
{
    string_from_chars(&str_chars("https://offline-translator.davidv.dev/index"))
}

} // verus!
