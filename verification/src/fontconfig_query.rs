use vstd::prelude::*;
use crate::font_query::{FontRequest, Script};
use crate::text::{chars_eq, lower_text, str_chars, str_to_lowercase, string_from_chars};

verus! {

// ---------------------------------------------------------------------------
// The query a fontconfig-backed provider builds for a font request: a
// language tag, a generic family (or monospace spacing), weight and slant.
// The sorted chain of matches it gets back is cut to a few entries.
// ---------------------------------------------------------------------------

/// At most this many fonts are kept from a sorted match.
pub const MAX_CHAIN: usize = 8;

/// The fontconfig spacing value of monospace fonts.
pub const FC_MONO: i32 = 100;

/// The family fontconfig aliases to a real font of the user's catalogue;
/// every script asks for the same one.
pub open spec fn generic_family(script: Script) -> Seq<char> {
    "sans-serif"@
}

pub fn generic_family_for(script: Script) -> (r: &'static str)
    ensures
        r@ == generic_family(script),
{
    match script {
        Script::Han | Script::Hiragana | Script::Katakana | Script::Hangul => "sans-serif",
        _ => "sans-serif",
    }
}

/// The language tag standing for a script when the request names no
/// language.
pub open spec fn script_lang_tag(script: Script) -> Seq<char> {
    match script {
        Script::Latin => "en"@,
        Script::Cyrillic => "ru"@,
        Script::Greek => "el"@,
        Script::Armenian => "hy"@,
        Script::Hebrew => "he"@,
        Script::Arabic => "ar"@,
        Script::Devanagari => "hi"@,
        Script::Bengali => "bn"@,
        Script::Gurmukhi => "pa"@,
        Script::Gujarati => "gu"@,
        Script::Oriya => "or"@,
        Script::Tamil => "ta"@,
        Script::Telugu => "te"@,
        Script::Kannada => "kn"@,
        Script::Malayalam => "ml"@,
        Script::Sinhala => "si"@,
        Script::Thai => "th"@,
        Script::Lao => "lo"@,
        Script::Tibetan => "bo"@,
        Script::Myanmar => "my"@,
        Script::Georgian => "ka"@,
        Script::Ethiopic => "am"@,
        Script::Khmer => "km"@,
        Script::Han => "zh-cn"@,
        Script::Hiragana | Script::Katakana => "ja"@,
        Script::Hangul => "ko"@,
        Script::Common | Script::Inherited | Script::Other => "en"@,
    }
}

fn script_tag(script: Script) -> (r: &'static str)
    ensures
        r@ == script_lang_tag(script),
{
    match script {
        Script::Latin => "en",
        Script::Cyrillic => "ru",
        Script::Greek => "el",
        Script::Armenian => "hy",
        Script::Hebrew => "he",
        Script::Arabic => "ar",
        Script::Devanagari => "hi",
        Script::Bengali => "bn",
        Script::Gurmukhi => "pa",
        Script::Gujarati => "gu",
        Script::Oriya => "or",
        Script::Tamil => "ta",
        Script::Telugu => "te",
        Script::Kannada => "kn",
        Script::Malayalam => "ml",
        Script::Sinhala => "si",
        Script::Thai => "th",
        Script::Lao => "lo",
        Script::Tibetan => "bo",
        Script::Myanmar => "my",
        Script::Georgian => "ka",
        Script::Ethiopic => "am",
        Script::Khmer => "km",
        Script::Han => "zh-cn",
        Script::Hiragana | Script::Katakana => "ja",
        Script::Hangul => "ko",
        Script::Common | Script::Inherited | Script::Other => "en",
    }
}

pub open spec fn is_tag_separator(c: char) -> bool {
    c == '-' || c == '_'
}

/// The text before the first `-` or `_`.
pub open spec fn first_subtag(s: Seq<char>) -> Seq<char>
    decreases s.len(),
{
    if s.len() == 0 {
        seq![]
    } else if is_tag_separator(s[0]) {
        seq![]
    } else {
        seq![s[0]] + first_subtag(s.drop_first())
    }
}

/// The fontconfig language: the request's primary language subtag,
/// lower-cased, unless it is missing or `und`; then the script's own tag.
pub open spec fn lang_tag(script: Script, language: Seq<char>) -> Seq<char> {
    let primary = lower_text(first_subtag(language));
    if primary.len() > 0 && primary != "und"@ {
        primary
    } else {
        script_lang_tag(script)
    }
}

proof fn lemma_first_subtag_prefix(s: Seq<char>, i: int)
    requires
        0 <= i <= s.len(),
        forall|j: int| 0 <= j < i ==> !is_tag_separator(#[trigger] s[j]),
        i == s.len() || is_tag_separator(s[i]),
    ensures
        first_subtag(s) == s.take(i),
    decreases s.len(),
{
    if s.len() > 0 && i > 0 {
        assert(!is_tag_separator(s[0]));
        assert forall|j: int| 0 <= j < i - 1 implies !is_tag_separator(#[trigger] s.drop_first()[j]) by {
            assert(s.drop_first()[j] == s[j + 1]);
        }
        if i < s.len() {
            assert(s.drop_first()[i - 1] == s[i]);
        }
        lemma_first_subtag_prefix(s.drop_first(), i - 1);
        assert(s.take(i) =~= seq![s[0]] + s.drop_first().take(i - 1));
    } else if s.len() > 0 {
        assert(s.take(0) =~= seq![]);
    } else {
        assert(s.take(i) =~= seq![]);
    }
}

pub fn lang_tag_for(script: Script, language: &str) -> (r: String)
    ensures
        r@ == lang_tag(script, language@),
{
    let chars = str_chars(language);
    let mut i: usize = 0;
    while i < chars.len()
        invariant
            i <= chars@.len(),
            chars@ == language@,
            forall|j: int| 0 <= j < i ==> !is_tag_separator(#[trigger] chars@[j]),
        ensures
            i <= chars@.len(),
            forall|j: int| 0 <= j < i ==> !is_tag_separator(#[trigger] chars@[j]),
            i == chars@.len() || is_tag_separator(chars@[i as int]),
        decreases chars.len() - i,
    {
        if chars[i] == '-' || chars[i] == '_' {
            break;
        }
        i = i + 1;
    }
    proof {
        lemma_first_subtag_prefix(chars@, i as int);
    }
    let mut prefix: Vec<char> = Vec::new();
    let mut k: usize = 0;
    while k < i
        invariant
            k <= i <= chars@.len(),
            prefix@ == chars@.take(k as int),
        decreases i - k,
    {
        prefix.push(chars[k]);
        assert(chars@.take(k + 1) =~= chars@.take(k as int).push(chars@[k as int]));
        k = k + 1;
    }
    let primary = str_to_lowercase(string_from_chars(&prefix).as_str());
    let primary_chars = str_chars(primary.as_str());
    let und = str_chars("und");
    if primary_chars.len() > 0 && !chars_eq(primary_chars.as_slice(), und.as_slice()) {
        primary
    } else {
        string_from_chars(&str_chars(script_tag(script)))
    }
}

/// The pattern a request is matched with.
#[derive(Clone, Debug)]
pub struct FontPattern {
    pub lang: String,
    /// Monospace requests ask for fixed spacing instead of a family.
    pub monospace_spacing: bool,
    pub family: Option<&'static str>,
    pub bold: bool,
    pub italic: bool,
}

pub fn pattern_for(request: &FontRequest) -> (r: FontPattern)
    ensures
        r.lang@ == lang_tag(request.script, request.language@),
        r.monospace_spacing == request.monospace,
        request.monospace ==> r.family is None,
        !request.monospace ==> (r.family matches Some(f) && f@ == generic_family(request.script)),
        r.bold == request.bold,
        r.italic == request.italic,
{
    let family = if request.monospace {
        None
    } else {
        Some(generic_family_for(request.script))
    };
    FontPattern {
        lang: lang_tag_for(request.script, request.language.as_str()),
        monospace_spacing: request.monospace,
        family,
        bold: request.bold,
        italic: request.italic,
    }
}

/// The face index of a match; a missing or negative one is the first face.
pub fn face_index(index: Option<i32>) -> (r: u32)
    ensures
        r == (match index {
            Some(i) => if i < 0 {
                0
            } else {
                i as u32
            },
            None => 0,
        }),
{
    match index {
        Some(i) => if i < 0 {
            0
        } else {
            i as u32
        },
        None => 0,
    }
}

/// The chain kept from a sorted match: its first entries, at most
/// `MAX_CHAIN` of them.
pub fn keep_chain<T>(matches: Vec<T>) -> (r: Vec<T>)
    ensures
        r@ == matches@.take(if matches@.len() < MAX_CHAIN {
            matches@.len() as int
        } else {
            MAX_CHAIN as int
        }),
{
    let mut matches = matches;
    if matches.len() > MAX_CHAIN {
        matches.truncate(MAX_CHAIN);
    }
    assert(matches@ =~= matches@.take(matches@.len() as int));
    matches
}

} // verus!
