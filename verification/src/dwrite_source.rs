use vstd::prelude::*;
use crate::font_query::{LocaleName, Probe};
use crate::text::str_chars;

verus! {

// ---------------------------------------------------------------------------
// The one-character document a system font fallback reads a probe from:
// the probe and its locale in UTF-16, and the spans it asks for.
// ---------------------------------------------------------------------------

/// The UTF-16 code units of one character: itself below U+10000, otherwise
/// a surrogate pair.
pub open spec fn utf16_of(c: char) -> Seq<u16> {
    let v = c as u32;
    if v < 0x10000 {
        seq![v as u16]
    } else {
        let w = v - 0x10000;
        seq![(0xD800 + w / 0x400) as u16, (0xDC00 + w % 0x400) as u16]
    }
}

/// The UTF-16 code units of a text.
pub open spec fn utf16_encode(s: Seq<char>) -> Seq<u16>
    decreases s.len(),
{
    if s.len() == 0 {
        seq![]
    } else {
        utf16_encode(s.drop_last()) + utf16_of(s.last())
    }
}

pub fn encode_char_utf16(c: char) -> (r: Vec<u16>)
    ensures
        r@ == utf16_of(c),
{
    let v = c as u32;
    let mut r: Vec<u16> = Vec::new();
    if v < 0x10000 {
        r.push(v as u16);
    } else {
        let w = v - 0x10000;
        assert(w < 0x100000) by {
            assert(v <= 0x10FFFF);
        }
        r.push((0xD800 + w / 0x400) as u16);
        r.push((0xDC00 + w % 0x400) as u16);
    }
    assert(r@ =~= utf16_of(c));
    r
}

/// A text in UTF-16 with a terminating zero, as wide-string APIs take it.
pub fn wide(s: &str) -> (r: Vec<u16>)
    ensures
        r@ == utf16_encode(s@).push(0u16),
{
    let chars = str_chars(s);
    let mut out: Vec<u16> = Vec::new();
    let mut i: usize = 0;
    while i < chars.len()
        invariant
            i <= chars@.len(),
            chars@ == s@,
            out@ == utf16_encode(chars@.take(i as int)),
        decreases chars.len() - i,
    {
        let units = encode_char_utf16(chars[i]);
        let mut k: usize = 0;
        let ghost before = out@;
        while k < units.len()
            invariant
                k <= units@.len(),
                out@ == before + units@.take(k as int),
            decreases units.len() - k,
        {
            out.push(units[k]);
            assert(units@.take(k + 1) =~= units@.take(k as int).push(units@[k as int]));
            k = k + 1;
        }
        proof {
            assert(chars@.take(i + 1).drop_last() =~= chars@.take(i as int));
            assert(units@.take(units@.len() as int) =~= units@);
        }
        i = i + 1;
    }
    assert(chars@.take(chars@.len() as int) =~= chars@);
    out.push(0u16);
    out
}

/// The probe as a document: its character and its locale, in UTF-16.
#[derive(Clone, Debug)]
pub struct ProbeSource {
    /// The probe's code units, without a terminator.
    pub text: Vec<u16>,
    /// The locale name, terminated.
    pub locale: Vec<u16>,
}

/// Where a span of the text starts and how long it is.
#[derive(Clone, Copy, Debug, PartialEq, Eq, Structural)]
pub struct TextSpan {
    pub start: usize,
    pub length: u32,
}

impl ProbeSource {
    pub fn new(probe: Probe, locale: &LocaleName) -> (r: Self)
        ensures
            r.text@ == utf16_of(probe.0),
            r.locale@ == utf16_encode(locale.0@).push(0u16),
    {
        ProbeSource { text: encode_char_utf16(probe.0), locale: wide(locale.0.as_str()) }
    }

    /// The text from `position` to its end; nothing once past it.
    pub fn text_at(&self, position: u32) -> (r: Option<TextSpan>)
        ensures
            position >= self.text@.len() ==> r is None,
            position < self.text@.len() ==> r == Some(
                TextSpan { start: position as usize, length: (self.text@.len() - position) as u32 },
            ),
    {
        let start = position as usize;
        if start >= self.text.len() {
            return None;
        }
        Some(TextSpan { start, length: (self.text.len() - start) as u32 })
    }

    /// The text before `position`; nothing at its start or past its end.
    pub fn text_before(&self, position: u32) -> (r: Option<TextSpan>)
        ensures
            position == 0 || position > self.text@.len() ==> r is None,
            0 < position <= self.text@.len() ==> r == Some(TextSpan { start: 0, length: position }),
    {
        let end = position as usize;
        if end == 0 || end > self.text.len() {
            return None;
        }
        Some(TextSpan { start: 0, length: position })
    }

    /// How much of the text from `position` on the locale (or the number
    /// substitution) covers: all of what is left, nothing past the end.
    pub fn rest_length(&self, position: u32) -> (r: u32)
        ensures
            r == (if position >= self.text@.len() {
                0
            } else {
                (self.text@.len() - position) as u32
            }),
    {
        let start = position as usize;
        if start >= self.text.len() {
            0
        } else {
            (self.text.len() - start) as u32
        }
    }
}

} // verus!
