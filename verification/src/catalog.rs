use vstd::prelude::*;
use crate::model::{Direction, Language, TtsVoicePickerRegion};
use crate::sorting::{
    chars_le, key_le, keyed, lemma_chars_le_total, lemma_sort_by_key_permutes,
    lemma_sort_by_key_sorted, sort_by_key, sort_pairs,
};
use crate::text::{chars_eq, decimal, push_all, str_chars, string_from_chars, u64_decimal};

verus! {

/// The text a gzip stream holds, when its first member decompresses to
/// UTF-8: what flate2's `read::GzDecoder` reads back for these bytes.
pub uninterp spec fn gunzipped_text(compressed: Seq<u8>) -> Option<Seq<char>>;

/// Reads a gzip stream through flate2's `read::GzDecoder` into a string;
/// a stream that does not decompress, or not to UTF-8, gives nothing. The
/// text depends on the bytes alone.
#[verifier::external_body]
fn gunzip_text(compressed: &[u8]) -> (r: Option<String>)
    ensures
        crate::document::text_of(r) == gunzipped_text(compressed@),
{
    let mut decoder = flate2::read::GzDecoder::new(compressed);
    let mut text = String::new();
    match std::io::Read::read_to_string(&mut decoder, &mut text) {
        Ok(_) => Some(text),
        Err(_) => None,
    }
}

/// The catalog index shipped with the app is gzip-compressed JSON; this is
/// its text, or nothing when the bundle is damaged.
pub fn bundled_index_text(compressed: &[u8]) -> (r: Option<String>)
    ensures
        crate::document::text_of(r) == gunzipped_text(compressed@),
{
    gunzip_text(compressed)
}

/// A size the way the language lists show it: whole kilobytes below a
/// megabyte, whole megabytes above, and `<1 KB` for less.
pub open spec fn size_text(size_bytes: nat) -> Seq<char> {
    if size_bytes < 1024 {
        "<1 KB"@
    } else if size_bytes < 1024 * 1024 {
        decimal(size_bytes / 1024) + " KB"@
    } else {
        decimal(size_bytes / (1024 * 1024)) + " MB"@
    }
}

const ONE_KB: u64 = 1024;

const ONE_MB: u64 = 1048576;

pub fn format_size(size_bytes: u64) -> (r: String)
    ensures
        r@ == size_text(size_bytes as nat),
{
    if size_bytes < ONE_KB {
        return string_from_chars(&str_chars("<1 KB"));
    }
    let (count, unit) = if size_bytes < ONE_MB {
        (size_bytes / ONE_KB, " KB")
    } else {
        (size_bytes / ONE_MB, " MB")
    };
    let mut out = u64_decimal(count);
    push_all(&mut out, str_chars(unit).as_slice());
    string_from_chars(&out)
}

/// Everything a language can download, in bytes.
pub open spec fn language_total_size(language: Language) -> nat {
    (language.core_size_bytes + language.dictionary_size_bytes + language.tts_size_bytes) as nat
}

pub fn total_size(language: &Language) -> (r: u64)
    requires
        language_total_size(*language) <= u64::MAX,
    ensures
        r == language_total_size(*language),
{
    language.core_size_bytes + language.dictionary_size_bytes + language.tts_size_bytes
}

/// What the translation library reports about one language of the catalog.
pub struct LanguageOverview {
    pub code: String,
    pub display_name: String,
    pub dictionary_code: String,
    /// The pivot language, which is built in.
    pub is_english: bool,
    /// Installed models translate this language into English.
    pub has_to_english: bool,
    /// Installed models translate English into this language.
    pub has_from_english: bool,
    /// Speech files for this language are installed.
    pub tts_files: bool,
    pub core_size_bytes: u64,
    pub core_installed: bool,
    pub dictionary_size_bytes: u64,
    pub dictionary_installed: bool,
    pub tts_size_bytes: u64,
    pub tts_voice_regions: Vec<TtsVoicePickerRegion>,
}

/// Which ways a language can be translated. English goes both ways; a
/// language that goes neither way yet is offered as a source.
pub open spec fn overview_direction(is_en: bool, to_english: bool, from_english: bool) -> Direction {
    let to = to_english || is_en;
    let from = from_english || is_en;
    if to && from {
        Direction::Both
    } else if to {
        Direction::FromOnly
    } else if from {
        Direction::ToOnly
    } else if is_en {
        Direction::Both
    } else {
        Direction::FromOnly
    }
}

/// The language an overview entry becomes. English is the pivot: its core
/// size sums every pair through it, but there is nothing to download.
pub open spec fn language_from_overview(e: LanguageOverview) -> Language {
    Language {
        code: e.code,
        name: e.display_name,
        dictionary_code: e.dictionary_code,
        direction: overview_direction(e.code@ == "en"@, e.has_to_english, e.has_from_english),
        built_in: e.is_english,
        core_size_bytes: if e.is_english {
            0
        } else {
            e.core_size_bytes
        },
        core_installed: e.core_installed,
        dictionary_size_bytes: e.dictionary_size_bytes,
        dictionary_installed: e.dictionary_installed,
        tts_size_bytes: e.tts_size_bytes,
        tts_installed: e.tts_files,
        tts_voice_picker_regions: e.tts_voice_regions,
    }
}

/// Languages keyed by their display name.
pub open spec fn by_name(languages: Seq<Language>) -> Seq<(Seq<Seq<char>>, Language)> {
    languages.map_values(|l: Language| (seq![l.name@], l))
}

pub open spec fn items_of<T>(pairs: Seq<(Seq<Seq<char>>, T)>) -> Seq<T> {
    pairs.map_values(|p: (Seq<Seq<char>>, T)| p.1)
}

/// The languages in display-name order; equal names keep their order.
pub open spec fn sorted_by_name(languages: Seq<Language>) -> Seq<Language> {
    items_of(sort_by_key(by_name(languages)))
}

pub fn sort_languages_by_name(languages: Vec<Language>) -> (r: Vec<Language>)
    ensures
        r@ == sorted_by_name(languages@),
{
    let ghost orig = languages@;
    let mut rest = languages;
    let mut pairs: Vec<(Vec<Vec<char>>, Language)> = Vec::new();
    let ghost mut done: int = 0;
    while rest.len() > 0
        invariant
            orig.len() == done + rest@.len(),
            0 <= done <= orig.len(),
            rest@ == orig.skip(done),
            keyed(pairs@) == by_name(orig.subrange(0, done)),
        decreases rest.len(),
    {
        let ghost old_rest = rest@;
        let language = rest.remove(0);
        let mut key: Vec<Vec<char>> = Vec::new();
        key.push(str_chars(language.name.as_str()));
        proof {
            assert(rest@ =~= orig.skip(done + 1));
            assert(old_rest[0] == language);
            assert(crate::text::views(key@) =~= seq![language.name@]);
        }
        let ghost before = pairs@;
        pairs.push((key, language));
        proof {
            assert(keyed(pairs@) =~= keyed(before).push((seq![language.name@], language)));
            assert(orig.subrange(0, done + 1) =~= orig.subrange(0, done).push(language));
            assert(by_name(orig.subrange(0, done + 1)) =~= by_name(orig.subrange(0, done)).push(
                (seq![language.name@], language),
            ));
            done = done + 1;
        }
    }
    proof {
        assert(orig.subrange(0, done) =~= orig);
    }
    let mut sorted = sort_pairs(pairs);
    let ghost target = sort_by_key(by_name(orig));
    let mut out: Vec<Language> = Vec::new();
    let ghost mut taken: int = 0;
    while sorted.len() > 0
        invariant
            target.len() == taken + sorted@.len(),
            0 <= taken <= target.len(),
            keyed(sorted@) == target.skip(taken),
            out@ == items_of(target.subrange(0, taken)),
        decreases sorted.len(),
    {
        let ghost old_sorted = sorted@;
        let pair = sorted.remove(0);
        proof {
            assert(keyed(sorted@) =~= keyed(old_sorted).skip(1));
            assert(target.skip(taken).skip(1) =~= target.skip(taken + 1));
            assert(keyed(old_sorted)[0] == target[taken]);
            assert(old_sorted[0] == pair);
        }
        let (_, language) = pair;
        let ghost before = out@;
        out.push(language);
        proof {
            assert(items_of(target.subrange(0, taken + 1)) =~= items_of(
                target.subrange(0, taken),
            ).push(language));
            taken = taken + 1;
        }
    }
    proof {
        assert(target.subrange(0, taken) =~= target);
    }
    out
}

/// The language shown for an overview entry keeps what the entry says of
/// it: its code and name, which of its parts are installed and how big they
/// are, and that it goes both ways when it translates to and from English
/// (English itself always does).
pub open spec fn keeps_entry(l: Language, e: LanguageOverview) -> bool {
    &&& l.code == e.code
    &&& l.name == e.display_name
    &&& l.dictionary_code == e.dictionary_code
    &&& l.built_in == e.is_english
    &&& l.core_installed == e.core_installed
    &&& l.dictionary_installed == e.dictionary_installed
    &&& l.tts_installed == e.tts_files
    &&& l.dictionary_size_bytes == e.dictionary_size_bytes
    &&& l.tts_size_bytes == e.tts_size_bytes
    &&& l.core_size_bytes == (if e.is_english { 0 } else { e.core_size_bytes })
    &&& l.tts_voice_picker_regions == e.tts_voice_regions
    &&& (l.direction == Direction::Both) == (e.code@ == "en"@ || (e.has_to_english
        && e.has_from_english))
}

/// The catalog lists one language per overview entry, each keeping what its
/// entry says of it, in display-name order.
pub proof fn lemma_catalog_keeps_entries(overview: Seq<LanguageOverview>)
    ensures
        ({
            let out = sorted_by_name(
                overview.map_values(|e: LanguageOverview| language_from_overview(e)),
            );
            &&& out.len() == overview.len()
            &&& forall|i: int|
                0 <= i < out.len() ==> exists|j: int|
                    0 <= j < overview.len() && keeps_entry(#[trigger] out[i], overview[j])
            &&& forall|j: int|
                0 <= j < overview.len() ==> exists|i: int|
                    0 <= i < out.len() && keeps_entry(out[i], #[trigger] overview[j])
            &&& forall|i: int, k: int|
                0 <= i < k < out.len() ==> chars_le(#[trigger] out[i].name@, #[trigger] out[k].name@)
        }),
{
    let mapped = overview.map_values(|e: LanguageOverview| language_from_overview(e));
    let out = sorted_by_name(mapped);
    lemma_sorted_by_name(mapped);
    assert forall|j: int| 0 <= j < overview.len() implies keeps_entry(
        #[trigger] mapped[j],
        overview[j],
    ) by {
        assert(mapped[j] == language_from_overview(overview[j]));
    }
    assert forall|i: int| 0 <= i < out.len() implies exists|j: int|
        0 <= j < overview.len() && keeps_entry(#[trigger] out[i], overview[j]) by {
        vstd::seq_lib::to_multiset_contains(out, out[i]);
        assert(out.contains(out[i]));
        vstd::seq_lib::to_multiset_contains(mapped, out[i]);
        assert(mapped.to_multiset().count(out[i]) > 0);
        assert(mapped.contains(out[i]));
        let j = choose|j: int| 0 <= j < mapped.len() && mapped[j] == out[i];
        assert(keeps_entry(mapped[j], overview[j]));
    }
    assert forall|j: int| 0 <= j < overview.len() implies exists|i: int|
        0 <= i < out.len() && keeps_entry(out[i], #[trigger] overview[j]) by {
        assert(mapped.contains(mapped[j]));
        vstd::seq_lib::to_multiset_contains(mapped, mapped[j]);
        assert(out.to_multiset().count(mapped[j]) > 0);
        vstd::seq_lib::to_multiset_contains(out, mapped[j]);
        assert(out.contains(mapped[j]));
        let i = choose|i: int| 0 <= i < out.len() && out[i] == mapped[j];
        assert(keeps_entry(mapped[j], overview[j]));
        assert(keeps_entry(out[i], overview[j]));
    }
}

/// Turns the library's catalog overview into the languages the UI lists,
/// in display-name order.
pub fn languages_from_overview(overview: Vec<LanguageOverview>) -> (r: Vec<Language>)
    ensures
        r@ == sorted_by_name(overview@.map_values(|e: LanguageOverview| language_from_overview(e))),
        r@.len() == overview@.len(),
        forall|i: int|
            0 <= i < r@.len() ==> exists|j: int|
                0 <= j < overview@.len() && keeps_entry(#[trigger] r@[i], overview@[j]),
        forall|j: int|
            0 <= j < overview@.len() ==> exists|i: int|
                0 <= i < r@.len() && keeps_entry(r@[i], #[trigger] overview@[j]),
{
    proof {
        lemma_catalog_keeps_entries(overview@);
    }
    let ghost orig = overview@;
    let ghost mapped = orig.map_values(|e: LanguageOverview| language_from_overview(e));
    let mut rest = overview;
    let mut languages: Vec<Language> = Vec::new();
    let english = str_chars("en");
    let ghost mut done: int = 0;
    while rest.len() > 0
        invariant
            orig.len() == done + rest@.len(),
            0 <= done <= orig.len(),
            rest@ == orig.skip(done),
            english@ == "en"@,
            mapped == orig.map_values(|e: LanguageOverview| language_from_overview(e)),
            languages@ == mapped.subrange(0, done),
        decreases rest.len(),
    {
        let ghost old_rest = rest@;
        let entry = rest.remove(0);
        proof {
            assert(rest@ =~= orig.skip(done + 1));
            assert(old_rest[0] == entry);
            assert(mapped[done] == language_from_overview(entry));
        }
        let ghost spec_language = language_from_overview(entry);
        let is_en = chars_eq(str_chars(entry.code.as_str()).as_slice(), english.as_slice());
        let to = entry.has_to_english || is_en;
        let from = entry.has_from_english || is_en;
        let direction = if to && from {
            Direction::Both
        } else if to {
            Direction::FromOnly
        } else if from {
            Direction::ToOnly
        } else if is_en {
            Direction::Both
        } else {
            Direction::FromOnly
        };
        let LanguageOverview {
            code,
            display_name,
            dictionary_code,
            is_english,
            has_to_english: _,
            has_from_english: _,
            tts_files,
            core_size_bytes,
            core_installed,
            dictionary_size_bytes,
            dictionary_installed,
            tts_size_bytes,
            tts_voice_regions,
        } = entry;
        let language = Language {
            code,
            name: display_name,
            dictionary_code,
            direction,
            built_in: is_english,
            core_size_bytes: if is_english {
                0
            } else {
                core_size_bytes
            },
            core_installed,
            dictionary_size_bytes,
            dictionary_installed,
            tts_size_bytes,
            tts_installed: tts_files,
            tts_voice_picker_regions: tts_voice_regions,
        };
        proof {
            assert(language == spec_language);
        }
        languages.push(language);
        proof {
            assert(mapped.subrange(0, done + 1) =~= mapped.subrange(0, done).push(spec_language));
            done = done + 1;
        }
    }
    proof {
        assert(mapped.subrange(0, done) =~= mapped);
    }
    sort_languages_by_name(languages)
}

/// The language lists are in display-name order, and sorting loses or
/// repeats no language.
pub proof fn lemma_sorted_by_name(languages: Seq<Language>)
    ensures
        sorted_by_name(languages).len() == languages.len(),
        forall|i: int, j: int|
            0 <= i < j < languages.len() ==> chars_le(
                #[trigger] sorted_by_name(languages)[i].name@,
                #[trigger] sorted_by_name(languages)[j].name@,
            ),
        sorted_by_name(languages).to_multiset() == languages.to_multiset(),
{
    let pairs = by_name(languages);
    let sorted = sort_by_key(pairs);
    lemma_sort_by_key_sorted(pairs);
    lemma_sort_by_key_permutes(pairs);
    let out = sorted_by_name(languages);
    assert forall|k: int| 0 <= k < sorted.len() implies #[trigger] sorted[k].0 == seq![sorted[k].1.name@] by {
        assert(sorted.contains(sorted[k]));
        vstd::seq_lib::to_multiset_contains(sorted, sorted[k]);
        vstd::seq_lib::to_multiset_contains(pairs, sorted[k]);
        let m = choose|m: int| 0 <= m < pairs.len() && pairs[m] == sorted[k];
        assert(pairs[m] == (seq![languages[m].name@], languages[m]));
    }
    assert forall|i: int, j: int| 0 <= i < j < languages.len() implies chars_le(
        #[trigger] out[i].name@,
        #[trigger] out[j].name@,
    ) by {
        assert(key_le(sorted[i].0, sorted[j].0));
        assert(sorted[i].0 == seq![sorted[i].1.name@]);
        assert(sorted[j].0 == seq![sorted[j].1.name@]);
        let a = out[i].name@;
        let b = out[j].name@;
        assert(seq![a].drop_first() =~= Seq::<Seq<char>>::empty());
        assert(seq![b].drop_first() =~= Seq::<Seq<char>>::empty());
        lemma_chars_le_total(a, b);
    }
    lemma_items_permuted(sorted, pairs);
    assert(items_of(pairs) =~= languages);
}

/// Pairs that are a permutation of each other carry permuted items.
proof fn lemma_items_permuted<T>(a: Seq<(Seq<Seq<char>>, T)>, b: Seq<(Seq<Seq<char>>, T)>)
    requires
        a.to_multiset() == b.to_multiset(),
    ensures
        items_of(a).to_multiset() == items_of(b).to_multiset(),
    decreases a.len(),
{
    broadcast use vstd::seq_lib::group_seq_properties;
    broadcast use vstd::multiset::group_multiset_axioms;

    if a.len() == 0 {
        assert(a.to_multiset().len() == a.len());
        assert(b.to_multiset().len() == b.len());
        assert(b.len() == 0);
        assert(items_of(a) =~= items_of(b));
    } else {
        let x = a.last();
        let a1 = a.drop_last();
        assert(a =~= a1.push(x));
        assert(a.contains(x));
        assert(b.to_multiset().count(x) > 0);
        assert(b.contains(x));
        let k = choose|k: int| 0 <= k < b.len() && b[k] == x;
        let b1 = b.remove(k);
        assert(a1.to_multiset() =~= b1.to_multiset()) by {
            assert(a.to_multiset() =~= a1.to_multiset().insert(x));
            assert(b1.to_multiset() =~= b.to_multiset().remove(x));
        }
        lemma_items_permuted(a1, b1);
        assert(items_of(a) =~= items_of(a1).push(x.1));
        assert(items_of(b1) =~= items_of(b).remove(k));
        assert(items_of(b)[k] == x.1);
        assert(items_of(b1).to_multiset() =~= items_of(b).to_multiset().remove(x.1));
        assert(items_of(b).contains(x.1));
        assert(items_of(b).to_multiset().count(x.1) > 0);
        assert(items_of(a).to_multiset() =~= items_of(a1).to_multiset().insert(x.1));
        assert(items_of(b).to_multiset() =~= items_of(b1).to_multiset().insert(x.1));
    }
}

} // verus!
