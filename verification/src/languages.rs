use vstd::prelude::*;
use crate::model::{Direction, Language};
use crate::text::{chars_eq, has_prefix, lower_text, str_chars, str_to_lowercase};

verus! {

// ---------------------------------------------------------------------------
// Which languages can be picked, and where.
// ---------------------------------------------------------------------------

/// A language can be picked as a source (or target) once its models are
/// installed (or it is built in) and it translates in that direction.
pub open spec fn available(language: Language, source: bool) -> bool {
    (language.core_installed || language.built_in) && if source {
        language.direction == Direction::FromOnly || language.direction == Direction::Both
    } else {
        language.direction == Direction::ToOnly || language.direction == Direction::Both
    }
}

pub fn is_language_available(language: &Language, source: bool) -> (r: bool)
    ensures
        r == available(*language, source),
{
    (language.core_installed || language.built_in) && if source {
        match language.direction {
            Direction::FromOnly | Direction::Both => true,
            Direction::ToOnly => false,
        }
    } else {
        match language.direction {
            Direction::ToOnly | Direction::Both => true,
            Direction::FromOnly => false,
        }
    }
}

/// The index of the first language with this code.
pub open spec fn index_of_code(languages: Seq<Language>, code: Seq<char>) -> Option<int>
    decreases languages.len(),
{
    if languages.len() == 0 {
        None
    } else if languages.last().code@ == code && index_of_code(languages.drop_last(), code) is None {
        Some(languages.len() - 1)
    } else {
        index_of_code(languages.drop_last(), code)
    }
}

pub proof fn lemma_index_of_code(languages: Seq<Language>, code: Seq<char>)
    ensures
        index_of_code(languages, code) matches Some(i) ==> 0 <= i < languages.len()
            && languages[i].code@ == code && forall|j: int|
            0 <= j < i ==> languages[j].code@ != code,
        index_of_code(languages, code) is None ==> forall|j: int|
            0 <= j < languages.len() ==> languages[j].code@ != code,
    decreases languages.len(),
{
    if languages.len() > 0 {
        let init = languages.drop_last();
        lemma_index_of_code(init, code);
        assert forall|j: int| 0 <= j < init.len() implies init[j] == languages[j] by {}
    }
}

pub fn find_language_index(languages: &[Language], code: &str) -> (r: Option<usize>)
    ensures
        r matches Some(i) ==> i < languages@.len(),
        r matches Some(i) ==> index_of_code(languages@, code@) == Some(i as int),
        r is None <==> index_of_code(languages@, code@) is None,
{
    let wanted = str_chars(code);
    let mut i: usize = 0;
    while i < languages.len()
        invariant
            i <= languages@.len(),
            wanted@ == code@,
            forall|j: int| 0 <= j < i ==> languages@[j].code@ != code@,
        decreases languages.len() - i,
    {
        if chars_eq(str_chars(languages[i].code.as_str()).as_slice(), wanted.as_slice()) {
            proof {
                lemma_index_of_code(languages@, code@);
                lemma_index_of_code(languages@.subrange(0, i + 1), code@);
                assert(languages@.subrange(0, i + 1).drop_last() =~= languages@.subrange(
                    0,
                    i as int,
                ));
                lemma_first_index_prefix(languages@, code@, i as int);
            }
            return Some(i);
        }
        i = i + 1;
    }
    proof {
        lemma_index_of_code(languages@, code@);
    }
    None
}

proof fn lemma_first_index_prefix(languages: Seq<Language>, code: Seq<char>, i: int)
    requires
        0 <= i < languages.len(),
        languages[i].code@ == code,
        forall|j: int| 0 <= j < i ==> languages[j].code@ != code,
    ensures
        index_of_code(languages, code) == Some(i),
    decreases languages.len(),
{
    lemma_index_of_code(languages, code);
    if languages.len() - 1 > i {
        lemma_first_index_prefix(languages.drop_last(), code, i);
    } else {
        lemma_index_of_code(languages.drop_last(), code);
    }
}

pub fn find_language_by_code<'a>(languages: &'a [Language], code: &str) -> (r: Option<&'a Language>)
    ensures
        r matches Some(l) ==> (index_of_code(languages@, code@) matches Some(i) && *l
            == languages@[i]),
        r is None <==> index_of_code(languages@, code@) is None,
{
    match find_language_index(languages, code) {
        Some(i) => Some(&languages[i]),
        None => None,
    }
}

/// The code names a language that can be picked in that direction.
pub open spec fn selectable(languages: Seq<Language>, code: Seq<char>, source: bool) -> bool {
    match index_of_code(languages, code) {
        Some(i) => available(languages[i], source),
        None => false,
    }
}

pub fn is_language_selectable(languages: &[Language], code: &str, source: bool) -> (r: bool)
    ensures
        r == selectable(languages@, code@, source),
{
    match find_language_index(languages, code) {
        Some(i) => is_language_available(&languages[i], source),
        None => false,
    }
}

/// The index of the first language that can be picked in that direction.
pub open spec fn first_available(languages: Seq<Language>, source: bool) -> Option<int>
    decreases languages.len(),
{
    if languages.len() == 0 {
        None
    } else if available(languages.last(), source) && first_available(languages.drop_last(), source) is None {
        Some(languages.len() - 1)
    } else {
        first_available(languages.drop_last(), source)
    }
}

pub proof fn lemma_first_available(languages: Seq<Language>, source: bool)
    ensures
        first_available(languages, source) matches Some(i) ==> 0 <= i < languages.len()
            && available(languages[i], source) && forall|j: int|
            0 <= j < i ==> !available(languages[j], source),
        first_available(languages, source) is None ==> forall|j: int|
            0 <= j < languages.len() ==> !available(languages[j], source),
    decreases languages.len(),
{
    if languages.len() > 0 {
        let init = languages.drop_last();
        lemma_first_available(init, source);
        assert forall|j: int| 0 <= j < init.len() implies init[j] == languages[j] by {}
    }
}

proof fn lemma_first_available_at(languages: Seq<Language>, source: bool, i: int)
    requires
        0 <= i < languages.len(),
        available(languages[i], source),
        forall|j: int| 0 <= j < i ==> !available(languages[j], source),
    ensures
        first_available(languages, source) == Some(i),
    decreases languages.len(),
{
    lemma_first_available(languages, source);
    if languages.len() - 1 > i {
        lemma_first_available_at(languages.drop_last(), source, i);
    } else {
        lemma_first_available(languages.drop_last(), source);
    }
}

pub fn first_selectable_language(languages: &[Language], source: bool) -> (r: Option<usize>)
    ensures
        r matches Some(i) ==> i < languages@.len(),
        r matches Some(i) ==> first_available(languages@, source) == Some(i as int),
        r is None <==> first_available(languages@, source) is None,
{
    let mut i: usize = 0;
    while i < languages.len()
        invariant
            i <= languages@.len(),
            forall|j: int| 0 <= j < i ==> !available(languages@[j], source),
        decreases languages.len() - i,
    {
        if is_language_available(&languages[i], source) {
            proof {
                lemma_first_available_at(languages@, source, i as int);
            }
            return Some(i);
        }
        i = i + 1;
    }
    proof {
        lemma_first_available(languages@, source);
    }
    None
}

/// What a selection becomes once the list changes: a code that can no
/// longer be picked gives way to the first language that can, if any.
pub open spec fn valid_selection(languages: Seq<Language>, code: Seq<char>, source: bool) -> Seq<
    char,
> {
    if !selectable(languages, code, source) && first_available(languages, source) is Some {
        languages[first_available(languages, source)->0].code@
    } else {
        code
    }
}

/// Replaces a source or target code that can no longer be picked; returns
/// the index of the language that took its place.
pub fn ensure_selection_is_valid(languages: &[Language], code: &mut String, source: bool) -> (r:
    Option<usize>)
    ensures
        final(code)@ == valid_selection(languages@, old(code)@, source),
        r matches Some(i) ==> first_available(languages@, source) == Some(i as int),
        r is None ==> final(code)@ == old(code)@,
{
    if !is_language_selectable(languages, code.as_str(), source) {
        match first_selectable_language(languages, source) {
            Some(i) => {
                *code = languages[i].code.clone();
                return Some(i);
            },
            None => {},
        }
    }
    None
}

/// Codes name languages one to one.
pub open spec fn distinct_codes(languages: Seq<Language>) -> bool {
    forall|i: int, j: int|
        0 <= i < languages.len() && 0 <= j < languages.len() && i != j ==> languages[i].code@
            != languages[j].code@
}

/// After the check, the selection can be picked whenever any language can.
pub proof fn lemma_valid_selection_is_selectable(
    languages: Seq<Language>,
    code: Seq<char>,
    source: bool,
)
    requires
        distinct_codes(languages),
        first_available(languages, source) is Some,
    ensures
        selectable(languages, valid_selection(languages, code, source), source),
{
    lemma_first_available(languages, source);
    if !selectable(languages, code, source) {
        let i = first_available(languages, source)->0;
        let c = languages[i].code@;
        lemma_index_of_code(languages, c);
        let k = index_of_code(languages, c)->0;
        assert(k == i);
    }
}

/// Swapping needs both selected languages to go both ways.
pub open spec fn swap_allowed(languages: Seq<Language>, source: Seq<char>, target: Seq<char>) -> bool {
    match (index_of_code(languages, source), index_of_code(languages, target)) {
        (Some(s), Some(t)) => languages[s].direction == Direction::Both && languages[t].direction
            == Direction::Both,
        _ => false,
    }
}

/// `i` is the position of the first language with this code.
pub open spec fn first_with_code(languages: Seq<Language>, code: Seq<char>, i: int) -> bool {
    &&& 0 <= i < languages.len()
    &&& languages[i].code@ == code
    &&& forall|j: int| 0 <= j < i ==> languages[j].code@ != code
}

/// The language listed under this code goes both ways.
pub open spec fn listed_both_ways(languages: Seq<Language>, code: Seq<char>) -> bool {
    exists|i: int| #[trigger] first_with_code(languages, code, i) && languages[i].direction
        == Direction::Both
}

/// Swapping is offered exactly when the source and the target, each as
/// listed under its code, translate both ways, so that after the swap each
/// can still stand on its new side.
pub proof fn lemma_swap_needs_both_ways(languages: Seq<Language>, source: Seq<char>, target: Seq<char>)
    ensures
        swap_allowed(languages, source, target) == (listed_both_ways(languages, source)
            && listed_both_ways(languages, target)),
{
    lemma_index_of_code(languages, source);
    lemma_index_of_code(languages, target);
    if let Some(s) = index_of_code(languages, source) {
        assert(first_with_code(languages, source, s));
        assert forall|i: int| #[trigger] first_with_code(languages, source, i) implies i == s by {
            if i < s {
                assert(languages[i].code@ != source);
            } else if s < i {
                assert(languages[s].code@ != source);
            }
        }
    } else {
        assert forall|i: int| !#[trigger] first_with_code(languages, source, i) by {
            if 0 <= i < languages.len() {
                assert(languages[i].code@ != source);
            }
        }
    }
    if let Some(t) = index_of_code(languages, target) {
        assert(first_with_code(languages, target, t));
        assert forall|i: int| #[trigger] first_with_code(languages, target, i) implies i == t by {
            if i < t {
                assert(languages[i].code@ != target);
            } else if t < i {
                assert(languages[t].code@ != target);
            }
        }
    } else {
        assert forall|i: int| !#[trigger] first_with_code(languages, target, i) by {
            if 0 <= i < languages.len() {
                assert(languages[i].code@ != target);
            }
        }
    }
}

pub fn swap_enabled(languages: &[Language], source: &str, target: &str) -> (r: bool)
    ensures
        r == swap_allowed(languages@, source@, target@),
        r == (listed_both_ways(languages@, source@) && listed_both_ways(languages@, target@)),
{
    proof {
        lemma_swap_needs_both_ways(languages@, source@, target@);
    }
    match (find_language_index(languages, source), find_language_index(languages, target)) {
        (Some(s), Some(t)) => {
            let a = match languages[s].direction {
                Direction::Both => true,
                _ => false,
            };
            let b = match languages[t].direction {
                Direction::Both => true,
                _ => false,
            };
            a && b
        },
        _ => false,
    }
}

// ---------------------------------------------------------------------------
// The lists the language screens show.
// ---------------------------------------------------------------------------

/// The positions, in order, of the languages `pred` holds for.
pub open spec fn indices_where(languages: Seq<Language>, pred: spec_fn(Language) -> bool) -> Seq<usize>
    decreases languages.len(),
{
    if languages.len() == 0 {
        seq![]
    } else if pred(languages.last()) {
        indices_where(languages.drop_last(), pred).push((languages.len() - 1) as usize)
    } else {
        indices_where(languages.drop_last(), pred)
    }
}

pub proof fn lemma_indices_where(languages: Seq<Language>, pred: spec_fn(Language) -> bool)
    requires
        languages.len() <= usize::MAX,
    ensures
        forall|k: usize| #[trigger] indices_where(languages, pred).contains(k) <==> (k < languages.len()
            && pred(languages[k as int])),
        forall|a: int, b: int|
            0 <= a < b < indices_where(languages, pred).len() ==> indices_where(languages, pred)[a]
                < indices_where(languages, pred)[b],
        forall|a: int|
            0 <= a < indices_where(languages, pred).len() ==> indices_where(languages, pred)[a]
                < languages.len(),
    decreases languages.len(),
{
    if languages.len() > 0 {
        let init = languages.drop_last();
        lemma_indices_where(init, pred);
        assert forall|j: int| 0 <= j < init.len() implies init[j] == languages[j] by {}
        let r = indices_where(init, pred);
        if pred(languages.last()) {
            let n = (languages.len() - 1) as usize;
            assert forall|k: usize| #[trigger] r.push(n).contains(k) <==> (k < languages.len()
                && pred(languages[k as int])) by {
                if r.push(n).contains(k) {
                    let a = choose|a: int| 0 <= a < r.push(n).len() && r.push(n)[a] == k;
                    if a < r.len() {
                        assert(r.contains(k));
                    }
                }
                if k < languages.len() && pred(languages[k as int]) {
                    if k == n {
                        assert(r.push(n)[r.len() as int] == k);
                    } else {
                        assert(r.contains(k));
                        let a = choose|a: int| 0 <= a < r.len() && r[a] == k;
                        assert(r.push(n)[a] == k);
                    }
                }
            }
        } else {
            assert forall|k: usize| #[trigger] r.contains(k) implies k != languages.len() - 1 by {}
        }
    }
}

pub open spec fn is_installed(language: Language) -> bool {
    language.core_installed || language.built_in
}

/// `needle` occurs in `hay` as a run of consecutive characters.
pub open spec fn occurs_in(hay: Seq<char>, needle: Seq<char>) -> bool {
    exists|i: int| 0 <= i <= hay.len() - needle.len() && #[trigger] hay.subrange(i, i + needle.len()) == needle
}

/// The manage screen lists every language while the filter is empty, and
/// otherwise those whose lower-cased name contains it.
pub open spec fn matches_filter(language: Language, filter: Seq<char>) -> bool {
    filter.len() == 0 || occurs_in(lower_text(language.name@), filter)
}

pub open spec fn name_views(languages: Seq<Language>, picked: Seq<usize>) -> Seq<Seq<char>> {
    picked.map_values(|i: usize| languages[i as int].name@)
}

/// What the language screens show, as positions in the language list:
/// installed languages, the ones still to download, the ones the manage
/// screen's filter lets through, the names offered as source and as
/// target, and whether anything but the built-in language is installed.
pub struct LanguageViews {
    pub installed: Vec<usize>,
    pub available: Vec<usize>,
    pub manage: Vec<usize>,
    pub from_names: Vec<String>,
    pub to_names: Vec<String>,
    pub has_languages: bool,
}

pub fn occurs(hay: &[char], needle: &[char]) -> (r: bool)
    ensures
        r == occurs_in(hay@, needle@),
{
    if needle.len() > hay.len() {
        return false;
    }
    let mut i: usize = 0;
    while i <= hay.len() - needle.len()
        invariant
            needle@.len() <= hay@.len(),
            i <= hay@.len() - needle@.len() + 1,
            forall|k: int| 0 <= k < i ==> #[trigger] hay@.subrange(k, k + needle@.len()) != needle@,
        decreases hay.len() - needle.len() + 1 - i,
    {
        let mut j: usize = 0;
        let mut same = true;
        let hay_len = hay.len();
        while j < needle.len()
            invariant
                hay_len == hay@.len(),
                i + needle@.len() <= hay@.len(),
                j <= needle@.len(),
                same == (forall|m: int| 0 <= m < j ==> hay@[i + m] == needle@[m]),
            decreases needle.len() - j,
        {
            if hay[i + j] != needle[j] {
                same = false;
            }
            j = j + 1;
        }
        if same {
            assert(hay@.subrange(i as int, i + needle@.len()) =~= needle@);
            return true;
        }
        proof {
            let m = choose|m: int| 0 <= m < needle@.len() && hay@[i + m] != needle@[m];
            assert(hay@.subrange(i as int, i + needle@.len())[m] != needle@[m]);
        }
        i = i + 1;
    }
    false
}

fn name_matches(language: &Language, filter: &Vec<char>) -> (r: bool)
    ensures
        r == matches_filter(*language, filter@),
{
    if filter.len() == 0 {
        return true;
    }
    let lowered = str_to_lowercase(language.name.as_str());
    occurs(str_chars(lowered.as_str()).as_slice(), filter.as_slice())
}

pub fn language_views(languages: &[Language], manage_filter: &str) -> (r: LanguageViews)
    ensures
        r.installed@ == indices_where(languages@, |l: Language| is_installed(l)),
        r.available@ == indices_where(languages@, |l: Language| !is_installed(l)),
        r.manage@ == indices_where(languages@, |l: Language| matches_filter(l, manage_filter@)),
        r.from_names@.map_values(|n: String| n@) == name_views(
            languages@,
            indices_where(languages@, |l: Language| available(l, true)),
        ),
        r.to_names@.map_values(|n: String| n@) == name_views(
            languages@,
            indices_where(languages@, |l: Language| available(l, false)),
        ),
        r.has_languages == exists|i: int|
            0 <= i < languages@.len() && !languages@[i].built_in && languages@[i].core_installed,
{
    let filter = str_chars(manage_filter);
    let ghost installed_p = |l: Language| is_installed(l);
    let ghost available_p = |l: Language| !is_installed(l);
    let ghost manage_p = |l: Language| matches_filter(l, manage_filter@);
    let ghost from_p = |l: Language| available(l, true);
    let ghost to_p = |l: Language| available(l, false);
    let mut installed: Vec<usize> = Vec::new();
    let mut available_list: Vec<usize> = Vec::new();
    let mut manage: Vec<usize> = Vec::new();
    let mut from_names: Vec<String> = Vec::new();
    let mut to_names: Vec<String> = Vec::new();
    let mut has_languages = false;
    let mut i: usize = 0;
    while i < languages.len()
        invariant
            i <= languages@.len(),
            filter@ == manage_filter@,
            installed_p == (|l: Language| is_installed(l)),
            available_p == (|l: Language| !is_installed(l)),
            manage_p == (|l: Language| matches_filter(l, manage_filter@)),
            from_p == (|l: Language| available(l, true)),
            to_p == (|l: Language| available(l, false)),
            installed@ == indices_where(languages@.subrange(0, i as int), installed_p),
            available_list@ == indices_where(languages@.subrange(0, i as int), available_p),
            manage@ == indices_where(languages@.subrange(0, i as int), manage_p),
            from_names@.map_values(|n: String| n@) == name_views(
                languages@,
                indices_where(languages@.subrange(0, i as int), from_p),
            ),
            to_names@.map_values(|n: String| n@) == name_views(
                languages@,
                indices_where(languages@.subrange(0, i as int), to_p),
            ),
            has_languages == exists|k: int|
                0 <= k < i && !languages@[k].built_in && languages@[k].core_installed,
        decreases languages.len() - i,
    {
        let language = &languages[i];
        let ghost pre = languages@.subrange(0, i + 1);
        proof {
            assert(pre.drop_last() =~= languages@.subrange(0, i as int));
            assert(pre.last() == languages@[i as int]);
        }
        if language.core_installed || language.built_in {
            installed.push(i);
        } else {
            available_list.push(i);
        }
        if name_matches(language, &filter) {
            manage.push(i);
        }
        if is_language_available(language, true) {
            let ghost before = from_names@;
            from_names.push(language.name.clone());
            proof {
                let old_idx = indices_where(languages@.subrange(0, i as int), from_p);
                assert(from_names@.map_values(|n: String| n@) =~= before.map_values(
                    |n: String| n@,
                ).push(languages@[i as int].name@));
                assert(name_views(languages@, old_idx.push(i)) =~= name_views(
                    languages@,
                    old_idx,
                ).push(languages@[i as int].name@));
            }
        }
        if is_language_available(language, false) {
            let ghost before = to_names@;
            to_names.push(language.name.clone());
            proof {
                let old_idx = indices_where(languages@.subrange(0, i as int), to_p);
                assert(to_names@.map_values(|n: String| n@) =~= before.map_values(|n: String| n@).push(
                    languages@[i as int].name@,
                ));
                assert(name_views(languages@, old_idx.push(i)) =~= name_views(
                    languages@,
                    old_idx,
                ).push(languages@[i as int].name@));
            }
        }
        if !language.built_in && language.core_installed {
            has_languages = true;
        }
        i = i + 1;
    }
    assert(languages@.subrange(0, languages@.len() as int) =~= languages@);
    LanguageViews {
        installed,
        available: available_list,
        manage,
        from_names,
        to_names,
        has_languages,
    }
}

/// Every language is listed exactly once across the installed and the
/// to-download lists.
pub proof fn lemma_installed_and_available_partition(languages: Seq<Language>, k: usize)
    requires
        languages.len() <= usize::MAX,
        k < languages.len(),
    ensures
        indices_where(languages, |l: Language| is_installed(l)).contains(k) != indices_where(
            languages,
            |l: Language| !is_installed(l),
        ).contains(k),
{
    lemma_indices_where(languages, |l: Language| is_installed(l));
    lemma_indices_where(languages, |l: Language| !is_installed(l));
}

// ---------------------------------------------------------------------------
// The card offered for a detected language.
// ---------------------------------------------------------------------------

/// What the detected-language card shows: which language it is about (a
/// position in the list), whether that language is installed, and whether
/// the card is shown at all.
#[derive(Clone, Copy, Debug, PartialEq, Eq, Structural)]
pub struct DetectedCard {
    pub language: Option<usize>,
    pub installed: bool,
    pub show_card: bool,
}

/// The card is shown while detection is on, for a language that can be a
/// source and is not the current source.
pub open spec fn detected_card(
    languages: Seq<Language>,
    detected_code: Seq<char>,
    source_code: Seq<char>,
    disable_auto_detect: bool,
) -> DetectedCard {
    match index_of_code(languages, detected_code) {
        Some(i) => DetectedCard {
            language: Some(i as usize),
            installed: is_installed(languages[i]),
            show_card: !disable_auto_detect && detected_code.len() > 0 && languages[i].direction
                != Direction::ToOnly && languages[i].code@ != source_code,
        },
        None => DetectedCard { language: None, installed: false, show_card: false },
    }
}

/// The card finds the first language listed under the detected code, and
/// calls it installed exactly when it is usable without a download: built
/// in, or with its core models installed.
pub proof fn lemma_detected_card_installed(
    languages: Seq<Language>,
    detected_code: Seq<char>,
    source_code: Seq<char>,
    disable_auto_detect: bool,
)
    requires
        languages.len() <= usize::MAX,
    ensures
        ({
            let card = detected_card(languages, detected_code, source_code, disable_auto_detect);
            &&& card.language matches Some(i) ==> first_with_code(languages, detected_code, i as int)
                && card.installed == (languages[i as int].core_installed
                || languages[i as int].built_in)
            &&& card.language matches Some(i) ==> card.show_card == (!disable_auto_detect
                && detected_code.len() > 0 && languages[i as int].direction != Direction::ToOnly
                && languages[i as int].code@ != source_code)
            &&& card.language is None ==> !card.installed && !card.show_card && forall|j: int|
                0 <= j < languages.len() ==> languages[j].code@ != detected_code
        }),
{
    lemma_index_of_code(languages, detected_code);
}

pub fn refresh_detected_language(
    languages: &[Language],
    detected_code: &str,
    source_code: &str,
    disable_auto_detect: bool,
) -> (r: DetectedCard)
    ensures
        r == detected_card(languages@, detected_code@, source_code@, disable_auto_detect),
        r.language matches Some(i) ==> first_with_code(languages@, detected_code@, i as int)
            && r.installed == (languages@[i as int].core_installed
            || languages@[i as int].built_in),
        r.language matches Some(i) ==> r.show_card == (!disable_auto_detect && detected_code@.len()
            > 0 && languages@[i as int].direction != Direction::ToOnly && languages@[i as int].code@
            != source_code@),
        r.language is None ==> !r.installed && !r.show_card && forall|j: int|
            0 <= j < languages@.len() ==> languages@[j].code@ != detected_code@,
{
    let count = languages.len();
    proof {
        assert(languages@.len() == count);
        lemma_detected_card_installed(languages@, detected_code@, source_code@, disable_auto_detect);
    }
    let visible = !disable_auto_detect && !detected_code.is_empty();
    match find_language_index(languages, detected_code) {
        Some(i) => {
            let language = &languages[i];
            let to_only = match language.direction {
                Direction::ToOnly => true,
                _ => false,
            };
            let is_source = chars_eq(
                str_chars(language.code.as_str()).as_slice(),
                str_chars(source_code).as_slice(),
            );
            DetectedCard {
                language: Some(i),
                installed: language.core_installed || language.built_in,
                show_card: visible && !to_only && !is_source,
            }
        },
        None => DetectedCard { language: None, installed: false, show_card: false },
    }
}

/// What the card's button does.
#[derive(Clone, Copy, Debug, PartialEq, Eq, Structural)]
pub enum MissingLanguageAction {
    Nothing,
    /// The language is installed: make it the source.
    SelectSource(usize),
    /// The language is not installed yet: download its models.
    Download(usize),
}

pub open spec fn missing_language_action_for(languages: Seq<Language>, detected_code: Seq<char>) -> MissingLanguageAction {
    if detected_code.len() == 0 {
        MissingLanguageAction::Nothing
    } else {
        match index_of_code(languages, detected_code) {
            Some(i) => if is_installed(languages[i]) {
                MissingLanguageAction::SelectSource(i as usize)
            } else {
                MissingLanguageAction::Download(i as usize)
            },
            None => MissingLanguageAction::Nothing,
        }
    }
}

pub fn missing_language_action(languages: &[Language], detected_code: &str) -> (r: MissingLanguageAction)
    ensures
        r == missing_language_action_for(languages@, detected_code@),
{
    if detected_code.is_empty() {
        return MissingLanguageAction::Nothing;
    }
    match find_language_index(languages, detected_code) {
        Some(i) => {
            if languages[i].core_installed || languages[i].built_in {
                MissingLanguageAction::SelectSource(i)
            } else {
                MissingLanguageAction::Download(i)
            }
        },
        None => MissingLanguageAction::Nothing,
    }
}

/// A camera launch request is honoured only with OCR on and a language
/// installed; otherwise it is dropped.
pub fn camera_intent_allowed(disable_ocr: bool, has_languages: bool) -> (r: bool)
    ensures
        r == (!disable_ocr && has_languages),
{
    !disable_ocr && has_languages
}

} // verus!
