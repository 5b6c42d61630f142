use vstd::prelude::*;
use vstd::utf8::encode_utf8;
use crate::tag_laws::lemma_canonical_tag_ascii;
use crate::text::{
    all_ascii, ascii_lower_text, ascii_upper_text,
    chars_contain, chars_eq, chars_slice, join_chars, join_with, lemma_split_nonempty, lower_text,
    push_all, split_chars, split_on, str_chars, str_to_lowercase, str_to_uppercase,
    string_from_chars, upper_text, utf8_len, views,
};

verus! {

/// The writing systems a run of text is itemized into.
#[derive(Clone, Copy, Debug, PartialEq, Eq, Hash, Structural)]
pub enum Script {
    Latin,
    Cyrillic,
    Greek,
    Armenian,
    Hebrew,
    Arabic,
    Devanagari,
    Bengali,
    Gurmukhi,
    Gujarati,
    Oriya,
    Tamil,
    Telugu,
    Kannada,
    Malayalam,
    Sinhala,
    Thai,
    Lao,
    Tibetan,
    Myanmar,
    Georgian,
    Ethiopic,
    Khmer,
    Han,
    Hiragana,
    Katakana,
    Hangul,
    Common,
    Inherited,
    Other,
}

/// What a renderer asks a font provider for.
#[derive(Clone, Debug, PartialEq, Eq)]
pub struct FontRequest {
    pub script: Script,
    /// A BCP-47 hint, possibly empty, possibly spelled with `_`.
    pub language: String,
    pub bold: bool,
    pub italic: bool,
    pub monospace: bool,
}

/// A codepoint that stands in for a whole script when asking the system
/// which family covers it.
#[derive(Clone, Copy, Debug, PartialEq, Eq, Structural)]
pub struct Probe(pub char);

/// A locale name (a BCP-47 tag); it is what makes Han resolve to different
/// families for `zh-Hans`, `ja-JP` and `ko-KR`.
#[derive(Clone, Debug, PartialEq, Eq)]
pub struct LocaleName(pub String);

/// The family the fallback lookup starts from.
#[derive(Clone, Copy, Debug, PartialEq, Eq)]
pub struct BaseFamily(pub &'static str);

/// Weight on the OpenType 100-900 scale.
#[derive(Clone, Copy, Debug, PartialEq, Eq, Structural)]
pub struct FontWeight(pub u16);

#[derive(Clone, Copy, Debug, PartialEq, Eq, Structural)]
pub enum FontStyle {
    Upright,
    Italic,
}

#[derive(Clone, Debug, PartialEq, Eq)]
pub struct FallbackQuery {
    pub locale: LocaleName,
    pub base_family: BaseFamily,
    pub weight: FontWeight,
    pub style: FontStyle,
    /// Preference ordered: the requested script first, then the generic tail.
    pub probes: Vec<Probe>,
}

/// The shell font, which the system fallback tables are tuned around.
pub const UI_FAMILY: &'static str = "Segoe UI";

/// The monospace family that has shipped with every supported release.
pub const MONO_FAMILY: &'static str = "Consolas";

pub const REGULAR: u16 = 400;

pub const BOLD: u16 = 700;

/// The codepoint that stands for a script: the first letter of its alphabet
/// or syllabary, and `A` for the itemization categories that are not writing
/// systems.
pub open spec fn probe_char(script: Script) -> char {
    match script {
        Script::Latin => 'A',
        Script::Cyrillic => '\u{410}',
        Script::Greek => '\u{391}',
        Script::Armenian => '\u{531}',
        Script::Hebrew => '\u{5d0}',
        Script::Arabic => '\u{627}',
        Script::Devanagari => '\u{905}',
        Script::Bengali => '\u{985}',
        Script::Gurmukhi => '\u{a05}',
        Script::Gujarati => '\u{a85}',
        Script::Oriya => '\u{b05}',
        Script::Tamil => '\u{b85}',
        Script::Telugu => '\u{c05}',
        Script::Kannada => '\u{c85}',
        Script::Malayalam => '\u{d05}',
        Script::Sinhala => '\u{d85}',
        Script::Thai => '\u{e01}',
        Script::Lao => '\u{e81}',
        Script::Tibetan => '\u{f40}',
        Script::Myanmar => '\u{1000}',
        Script::Georgian => '\u{10d0}',
        Script::Ethiopic => '\u{1200}',
        Script::Khmer => '\u{1780}',
        Script::Han => '\u{4e00}',
        Script::Hiragana => '\u{3042}',
        Script::Katakana => '\u{30a2}',
        Script::Hangul => '\u{ac00}',
        Script::Common => 'A',
        Script::Inherited => 'A',
        Script::Other => 'A',
    }
}

/// The locale a script means when the caller gives no usable hint.
pub open spec fn default_locale(script: Script) -> Seq<char> {
    match script {
        Script::Latin => "en-US"@,
        Script::Cyrillic => "ru-RU"@,
        Script::Greek => "el-GR"@,
        Script::Armenian => "hy-AM"@,
        Script::Hebrew => "he-IL"@,
        Script::Arabic => "ar-SA"@,
        Script::Devanagari => "hi-IN"@,
        Script::Bengali => "bn-IN"@,
        Script::Gurmukhi => "pa-IN"@,
        Script::Gujarati => "gu-IN"@,
        Script::Oriya => "or-IN"@,
        Script::Tamil => "ta-IN"@,
        Script::Telugu => "te-IN"@,
        Script::Kannada => "kn-IN"@,
        Script::Malayalam => "ml-IN"@,
        Script::Sinhala => "si-LK"@,
        Script::Thai => "th-TH"@,
        Script::Lao => "lo-LA"@,
        Script::Tibetan => "bo-CN"@,
        Script::Myanmar => "my-MM"@,
        Script::Georgian => "ka-GE"@,
        Script::Ethiopic => "am-ET"@,
        Script::Khmer => "km-KH"@,
        Script::Han => "zh-Hans"@,
        Script::Hiragana => "ja-JP"@,
        Script::Katakana => "ja-JP"@,
        Script::Hangul => "ko-KR"@,
        Script::Common => "en-US"@,
        Script::Inherited => "en-US"@,
        Script::Other => "en-US"@,
    }
}

pub fn representative_probe(script: Script) -> (r: Probe)
    ensures
        r.0 == probe_char(script),
{
    let ch = match script {
        Script::Latin => 'A',
        Script::Cyrillic => '\u{410}',
        Script::Greek => '\u{391}',
        Script::Armenian => '\u{531}',
        Script::Hebrew => '\u{5d0}',
        Script::Arabic => '\u{627}',
        Script::Devanagari => '\u{905}',
        Script::Bengali => '\u{985}',
        Script::Gurmukhi => '\u{a05}',
        Script::Gujarati => '\u{a85}',
        Script::Oriya => '\u{b05}',
        Script::Tamil => '\u{b85}',
        Script::Telugu => '\u{c05}',
        Script::Kannada => '\u{c85}',
        Script::Malayalam => '\u{d05}',
        Script::Sinhala => '\u{d85}',
        Script::Thai => '\u{e01}',
        Script::Lao => '\u{e81}',
        Script::Tibetan => '\u{f40}',
        Script::Myanmar => '\u{1000}',
        Script::Georgian => '\u{10d0}',
        Script::Ethiopic => '\u{1200}',
        Script::Khmer => '\u{1780}',
        Script::Han => '\u{4e00}',
        Script::Hiragana => '\u{3042}',
        Script::Katakana => '\u{30a2}',
        Script::Hangul => '\u{ac00}',
        Script::Common => 'A',
        Script::Inherited => 'A',
        Script::Other => 'A',
    };
    Probe(ch)
}

pub fn script_locale(script: Script) -> (r: &'static str)
    ensures
        r@ == default_locale(script),
{
    match script {
        Script::Latin => "en-US",
        Script::Cyrillic => "ru-RU",
        Script::Greek => "el-GR",
        Script::Armenian => "hy-AM",
        Script::Hebrew => "he-IL",
        Script::Arabic => "ar-SA",
        Script::Devanagari => "hi-IN",
        Script::Bengali => "bn-IN",
        Script::Gurmukhi => "pa-IN",
        Script::Gujarati => "gu-IN",
        Script::Oriya => "or-IN",
        Script::Tamil => "ta-IN",
        Script::Telugu => "te-IN",
        Script::Kannada => "kn-IN",
        Script::Malayalam => "ml-IN",
        Script::Sinhala => "si-LK",
        Script::Thai => "th-TH",
        Script::Lao => "lo-LA",
        Script::Tibetan => "bo-CN",
        Script::Myanmar => "my-MM",
        Script::Georgian => "ka-GE",
        Script::Ethiopic => "am-ET",
        Script::Khmer => "km-KH",
        Script::Han => "zh-Hans",
        Script::Hiragana => "ja-JP",
        Script::Katakana => "ja-JP",
        Script::Hangul => "ko-KR",
        Script::Common => "en-US",
        Script::Inherited => "en-US",
        Script::Other => "en-US",
    }
}

// ---------------------------------------------------------------------------
// BCP-47 case: language lower case, script title case, region upper case.
// ---------------------------------------------------------------------------

/// How subtag `index` of a tag is cased; its length is counted in UTF-8
/// bytes, as the tag's shape is.
pub open spec fn canonical_subtag(index: int, sub: Seq<char>) -> Seq<char> {
    if index == 0 {
        lower_text(sub)
    } else if encode_utf8(sub).len() == 4 {
        upper_text(sub.subrange(0, 1)) + lower_text(sub.subrange(1, sub.len() as int))
    } else if encode_utf8(sub).len() == 2 || encode_utf8(sub).len() == 3 {
        upper_text(sub)
    } else {
        lower_text(sub)
    }
}

pub open spec fn canonical_subtags(tag: Seq<char>) -> Seq<Seq<char>> {
    let parts = split_on(tag, '-');
    Seq::new(parts.len(), |i: int| canonical_subtag(i, parts[i]))
}

pub open spec fn canonical_tag_text(tag: Seq<char>) -> Seq<char> {
    join_with(canonical_subtags(tag), '-')
}

/// A four-byte subtag after the first is split after its first byte, which
/// must therefore end a character.
pub open spec fn tag_casing_defined(tag: Seq<char>) -> bool {
    let parts = split_on(tag, '-');
    forall|i: int|
        0 < i < parts.len() && #[trigger] encode_utf8(parts[i]).len() == 4 ==> (parts[i][0] as u32)
            < 128
}

fn lower_chars(sub: &Vec<char>) -> (r: Vec<char>)
    ensures
        r@ == lower_text(sub@),
{
    let s = string_from_chars(sub);
    let l = str_to_lowercase(s.as_str());
    str_chars(l.as_str())
}

fn upper_chars(sub: &Vec<char>) -> (r: Vec<char>)
    ensures
        r@ == upper_text(sub@),
{
    let s = string_from_chars(sub);
    let u = str_to_uppercase(s.as_str());
    str_chars(u.as_str())
}

/// How a subtag is cased.
#[derive(Clone, Copy, Debug, PartialEq, Eq, Structural)]
pub enum SubtagCase {
    Lower,
    /// First character upper case, the rest lower case.
    Title,
    Upper,
}

/// The casing of subtag `index` whose UTF-8 length is `byte_len`: the
/// language first lower case, a script (four bytes) title case, a region
/// (two or three bytes) upper case, anything else lower case.
pub fn subtag_case(index: usize, byte_len: u128) -> (r: SubtagCase)
    ensures
        index == 0 ==> r == SubtagCase::Lower,
        index > 0 && byte_len == 4 ==> r == SubtagCase::Title,
        index > 0 && (byte_len == 2 || byte_len == 3) ==> r == SubtagCase::Upper,
        index > 0 && byte_len != 2 && byte_len != 3 && byte_len != 4 ==> r == SubtagCase::Lower,
{
    if index == 0 {
        SubtagCase::Lower
    } else if byte_len == 4 {
        SubtagCase::Title
    } else if byte_len == 2 || byte_len == 3 {
        SubtagCase::Upper
    } else {
        SubtagCase::Lower
    }
}

/// A subtag in the given casing, from its lower- and upper-cased forms and
/// those of its first character and the rest.
pub fn cased_subtag(
    case: SubtagCase,
    lower: Vec<char>,
    upper: Vec<char>,
    head_upper: Vec<char>,
    rest_lower: &[char],
) -> (r: Vec<char>)
    ensures
        case == SubtagCase::Lower ==> r@ == lower@,
        case == SubtagCase::Upper ==> r@ == upper@,
        case == SubtagCase::Title ==> r@ == head_upper@ + rest_lower@,
{
    match case {
        SubtagCase::Lower => lower,
        SubtagCase::Upper => upper,
        SubtagCase::Title => {
            let mut out = head_upper;
            push_all(&mut out, rest_lower);
            out
        },
    }
}

fn canonical_subtag_chars(index: usize, sub: &Vec<char>) -> (r: Vec<char>)
    requires
        index > 0 && encode_utf8(sub@).len() == 4 ==> (sub@[0] as u32) < 128,
    ensures
        r@ == canonical_subtag(index as int, sub@),
{
    let case = subtag_case(index, utf8_len(sub.as_slice()));
    match case {
        SubtagCase::Title => {
            assert(sub@.len() > 0);
            let head = chars_slice(sub.as_slice(), 0, 1);
            let rest = chars_slice(sub.as_slice(), 1, sub.len());
            let head_upper = upper_chars(&head);
            let rest_lower = lower_chars(&rest);
            cased_subtag(case, Vec::new(), Vec::new(), head_upper, rest_lower.as_slice())
        },
        SubtagCase::Upper => cased_subtag(case, Vec::new(), upper_chars(sub), Vec::new(), &[]),
        SubtagCase::Lower => cased_subtag(case, lower_chars(sub), Vec::new(), Vec::new(), &[]),
    }
}

fn canonical_tag_chars(tag: &Vec<char>) -> (r: Vec<char>)
    requires
        tag_casing_defined(tag@),
    ensures
        r@ == canonical_tag_text(tag@),
{
    let parts = split_chars(tag.as_slice(), '-');
    let ghost spec_parts = split_on(tag@, '-');
    let mut cased: Vec<Vec<char>> = Vec::new();
    let mut i: usize = 0;
    while i < parts.len()
        invariant
            views(parts@) == spec_parts,
            spec_parts == split_on(tag@, '-'),
            tag_casing_defined(tag@),
            i <= parts@.len(),
            views(cased@) =~= canonical_subtags(tag@).subrange(0, i as int),
        decreases parts.len() - i,
    {
        proof {
            assert(parts@[i as int]@ == spec_parts[i as int]);
            if i > 0 && encode_utf8(spec_parts[i as int]).len() == 4 {
                assert((spec_parts[i as int][0] as u32) < 128);
            }
        }
        let c = canonical_subtag_chars(i, &parts[i]);
        proof {
            assert(views(cased@.push(c)) =~= views(cased@).push(c@));
        }
        cased.push(c);
        i = i + 1;
    }
    assert(canonical_subtags(tag@).subrange(0, parts@.len() as int) =~= canonical_subtags(tag@));
    join_chars(&cased, '-')
}

/// Recases a BCP-47 tag by the shape of its subtags: the first lower case, a
/// four-byte one title case, a two- or three-byte one upper case, any other
/// lower case.
///
/// On an ASCII tag the result is as long as the tag and differs from it only
/// in case, recasing it again changes nothing, and the case the tag came in
/// does not matter (see `lemma_canonical_tag_ascii`).
pub fn canonical_tag(tag: &str) -> (r: String)
    requires
        tag_casing_defined(tag@),
    ensures
        r@ == canonical_tag_text(tag@),
        all_ascii(tag@) ==> r@.len() == tag@.len(),
        all_ascii(tag@) ==> ascii_lower_text(r@) == ascii_lower_text(tag@),
        all_ascii(tag@) ==> canonical_tag_text(r@) == r@,
        all_ascii(tag@) ==> canonical_tag_text(ascii_upper_text(tag@)) == r@,
{
    proof {
        if all_ascii(tag@) {
            lemma_canonical_tag_ascii(tag@);
        }
    }
    let chars = str_chars(tag);
    let out = canonical_tag_chars(&chars);
    string_from_chars(&out)
}

// ---------------------------------------------------------------------------
// The locale a request is resolved in.
// ---------------------------------------------------------------------------

pub open spec fn underscores_to_dashes(s: Seq<char>) -> Seq<char> {
    s.map_values(|c: char| if c == '_' { '-' } else { c })
}

/// The caller's hint, recased, when it names a language; otherwise the
/// script's default. A bare language that agrees with the default's is
/// replaced by the default, which names the variant.
pub open spec fn resolved_locale(script: Script, language: Seq<char>) -> Seq<char> {
    let hint = canonical_tag_text(underscores_to_dashes(language));
    let default = default_locale(script);
    let primary = split_on(hint, '-')[0];
    if primary.len() == 0 || primary == "und"@ {
        default
    } else if !hint.contains('-') && primary == split_on(default, '-')[0] {
        default
    } else {
        hint
    }
}

pub open spec fn locale_hint_ok(language: Seq<char>) -> bool {
    tag_casing_defined(underscores_to_dashes(language))
}

fn replace_underscores(s: &Vec<char>) -> (r: Vec<char>)
    ensures
        r@ == underscores_to_dashes(s@),
{
    let mut out: Vec<char> = Vec::new();
    let mut i: usize = 0;
    while i < s.len()
        invariant
            i <= s@.len(),
            out@ =~= underscores_to_dashes(s@.subrange(0, i as int)),
        decreases s.len() - i,
    {
        let c = s[i];
        if c == '_' {
            out.push('-');
        } else {
            out.push(c);
        }
        i = i + 1;
    }
    assert(s@.subrange(0, s@.len() as int) =~= s@);
    out
}

pub fn locale_name(script: Script, language: &str) -> (r: LocaleName)
    requires
        locale_hint_ok(language@),
    ensures
        r.0@ == resolved_locale(script, language@),
{
    let language_chars = str_chars(language);
    let dashed = replace_underscores(&language_chars);
    let hint = canonical_tag_chars(&dashed);
    let default_str = script_locale(script);
    let default = str_chars(default_str);
    let hint_parts = split_chars(hint.as_slice(), '-');
    let primary = &hint_parts[0];
    let und = str_chars("und");
    if primary.len() == 0 || chars_eq(primary.as_slice(), und.as_slice()) {
        return LocaleName(string_from_chars(&default));
    }
    let unqualified = !chars_contain(hint.as_slice(), '-');
    let default_parts = split_chars(default.as_slice(), '-');
    if unqualified && chars_eq(primary.as_slice(), default_parts[0].as_slice()) {
        return LocaleName(string_from_chars(&default));
    }
    LocaleName(string_from_chars(&hint))
}

// ---------------------------------------------------------------------------
// The whole query.
// ---------------------------------------------------------------------------

/// `s` with every repeat of an earlier element left out.
pub open spec fn first_occurrences(s: Seq<char>) -> Seq<char>
    decreases s.len(),
{
    if s.len() == 0 {
        seq![]
    } else {
        let kept = first_occurrences(s.drop_last());
        if kept.contains(s.last()) {
            kept
        } else {
            kept.push(s.last())
        }
    }
}

/// The symbol probe, for punctuation and symbols a script's family need not
/// cover.
pub open spec fn star() -> char {
    '\u{2605}'
}

/// The codepoints asked about for a script: its own probe, then the generic
/// tail, each once.
pub open spec fn planned_probes(script: Script) -> Seq<char> {
    first_occurrences(seq![probe_char(script), 'A', star()])
}

pub open spec fn probe_chars(probes: Seq<Probe>) -> Seq<char> {
    probes.map_values(|p: Probe| p.0)
}

pub fn plan(request: &FontRequest) -> (r: FallbackQuery)
    requires
        locale_hint_ok(request.language@),
    ensures
        probe_chars(r.probes@) == planned_probes(request.script),
        r.locale.0@ == resolved_locale(request.script, request.language@),
        r.base_family.0@ == (if request.monospace {
            MONO_FAMILY@
        } else {
            UI_FAMILY@
        }),
        r.weight.0 == (if request.bold {
            BOLD
        } else {
            REGULAR
        }),
        r.style == (if request.italic {
            FontStyle::Italic
        } else {
            FontStyle::Upright
        }),
{
    let primary = representative_probe(request.script);
    let candidates: [Probe; 3] = [primary, Probe('A'), Probe('\u{2605}')];
    let ghost all = seq![probe_char(request.script), 'A', star()];
    let mut probes: Vec<Probe> = Vec::new();
    let mut i: usize = 0;
    while i < 3
        invariant
            i <= 3,
            all == seq![probe_char(request.script), 'A', star()],
            forall|k: int| 0 <= k < 3 ==> #[trigger] candidates@[k].0 == all[k],
            probe_chars(probes@) == first_occurrences(all.subrange(0, i as int)),
        decreases 3 - i,
    {
        let probe = candidates[i];
        let mut seen = false;
        let mut j: usize = 0;
        while j < probes.len()
            invariant
                j <= probes@.len(),
                seen == probe_chars(probes@).subrange(0, j as int).contains(probe.0),
            decreases probes.len() - j,
        {
            proof {
                let sub = probe_chars(probes@).subrange(0, j as int);
                let pre = sub.push(probes@[j as int].0);
                assert(pre =~= probe_chars(probes@).subrange(0, j + 1));
                if probes@[j as int].0 == probe.0 {
                    assert(pre[j as int] == probe.0);
                }
                if sub.contains(probe.0) {
                    let k = choose|k: int| 0 <= k < sub.len() && sub[k] == probe.0;
                    assert(pre[k] == probe.0);
                }
                if pre.contains(probe.0) {
                    let k = choose|k: int| 0 <= k < pre.len() && pre[k] == probe.0;
                    if k < j {
                        assert(sub[k] == probe.0);
                    }
                }
            }
            if probes[j].0 == probe.0 {
                seen = true;
            }
            j = j + 1;
        }
        proof {
            assert(probe_chars(probes@).subrange(0, probes@.len() as int) =~= probe_chars(probes@));
            let pre = all.subrange(0, i + 1);
            assert(pre.drop_last() =~= all.subrange(0, i as int));
            assert(pre.last() == probe.0);
        }
        if !seen {
            proof {
                assert(probe_chars(probes@.push(probe)) =~= probe_chars(probes@).push(probe.0));
            }
            probes.push(probe);
        }
        i = i + 1;
    }
    assert(all.subrange(0, 3) =~= all);
    let base_family = if request.monospace {
        BaseFamily(MONO_FAMILY)
    } else {
        BaseFamily(UI_FAMILY)
    };
    FallbackQuery {
        locale: locale_name(request.script, request.language.as_str()),
        base_family,
        weight: if request.bold {
            FontWeight(BOLD)
        } else {
            FontWeight(REGULAR)
        },
        style: if request.italic {
            FontStyle::Italic
        } else {
            FontStyle::Upright
        },
        probes,
    }
}

pub proof fn lemma_first_occurrences_distinct(s: Seq<char>)
    ensures
        forall|i: int, j: int|
            0 <= i < j < first_occurrences(s).len() ==> first_occurrences(s)[i]
                != first_occurrences(s)[j],
    decreases s.len(),
{
    if s.len() > 0 {
        lemma_first_occurrences_distinct(s.drop_last());
        let kept = first_occurrences(s.drop_last());
        if !kept.contains(s.last()) {
            assert forall|i: int, j: int|
                0 <= i < j < kept.push(s.last()).len() implies kept.push(s.last())[i]
                != kept.push(s.last())[j] by {
                if j == kept.len() {
                    assert(kept[i] == kept.push(s.last())[i]);
                }
            }
        }
    }
}

pub proof fn lemma_first_occurrences_head(s: Seq<char>)
    requires
        s.len() > 0,
    ensures
        first_occurrences(s).len() > 0,
        first_occurrences(s)[0] == s[0],
    decreases s.len(),
{
    if s.len() > 1 {
        lemma_first_occurrences_head(s.drop_last());
        let kept = first_occurrences(s.drop_last());
        if !kept.contains(s.last()) {
            assert(kept.push(s.last())[0] == kept[0]);
        }
    } else {
        let kept = first_occurrences(s.drop_last());
        assert(kept.len() == 0);
    }
}

/// The fallback chain leads with the requested script's own probe and never
/// asks about the same codepoint twice.
pub proof fn lemma_chain_leads_with_script_and_never_repeats(script: Script)
    ensures
        planned_probes(script).len() > 0,
        planned_probes(script)[0] == probe_char(script),
        forall|i: int, j: int|
            0 <= i < j < planned_probes(script).len() ==> planned_probes(script)[i]
                != planned_probes(script)[j],
{
    let s = seq![probe_char(script), 'A', star()];
    lemma_first_occurrences_head(s);
    lemma_first_occurrences_distinct(s);
}

} // verus!
