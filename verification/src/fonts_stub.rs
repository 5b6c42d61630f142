use std::sync::Arc;
use vstd::prelude::*;
use crate::font_query::FontRequest;

verus! {

/// A font file on disk: its path, its index inside a collection, and its
/// weight.
#[derive(Clone, Debug, PartialEq, Eq)]
pub struct FontHandle {
    pub path: String,
    pub ttc_index: u32,
    pub weight: u16,
}

/// The provider for platforms without a font service: it knows no fonts,
/// so overlay and document text render without glyphs.
#[derive(Clone, Copy, Debug, PartialEq, Eq, Structural)]
pub struct NullFontProvider;

impl NullFontProvider {
    pub fn locate(&self, _request: &FontRequest) -> (r: Vec<FontHandle>)
        ensures
            r@.len() == 0,
    {
        Vec::new()
    }
}

pub fn provider() -> (r: Arc<NullFontProvider>)
    ensures
        *r == NullFontProvider,
{
    Arc::new(NullFontProvider)
}

} // verus!
