use vstd::prelude::*;
use crate::languages::{
    available, find_language_index, first_available, first_selectable_language, index_of_code,
    is_language_selectable, selectable,
};
use crate::model::{FeatureKind, Language};
use crate::text::{chars_eq, str_chars, string_from_chars};

verus! {

// ---------------------------------------------------------------------------
// The source and target languages the user picked, by the names the UI
// shows.
// ---------------------------------------------------------------------------

/// `i` is the first language called `name`.
pub open spec fn first_named(languages: Seq<Language>, name: Seq<char>, i: int) -> bool {
    &&& 0 <= i < languages.len()
    &&& languages[i].name@ == name
    &&& forall|j: int| 0 <= j < i ==> languages[j].name@ != name
}

/// The index of the first language called `name`.
pub open spec fn index_of_name(languages: Seq<Language>, name: Seq<char>) -> Option<int> {
    if exists|i: int| first_named(languages, name, i) {
        Some(choose|i: int| first_named(languages, name, i))
    } else {
        None
    }
}

proof fn lemma_first_named_unique(languages: Seq<Language>, name: Seq<char>, i: int)
    requires
        first_named(languages, name, i),
    ensures
        index_of_name(languages, name) == Some(i),
{
    let k = choose|k: int| first_named(languages, name, k);
    assert(first_named(languages, name, k));
    if k < i {
        assert(languages[k].name@ != name);
    } else if k > i {
        assert(languages[i].name@ != name);
    }
}

pub fn find_language_by_name(languages: &[Language], name: &str) -> (r: Option<usize>)
    ensures
        r matches Some(i) ==> index_of_name(languages@, name@) == Some(i as int),
        r is None <==> index_of_name(languages@, name@) is None,
{
    let wanted = str_chars(name);
    let mut i: usize = 0;
    while i < languages.len()
        invariant
            i <= languages@.len(),
            wanted@ == name@,
            forall|j: int| 0 <= j < i ==> languages@[j].name@ != name@,
        decreases languages.len() - i,
    {
        if chars_eq(str_chars(languages[i].name.as_str()).as_slice(), wanted.as_slice()) {
            proof {
                lemma_first_named_unique(languages@, name@, i as int);
            }
            return Some(i);
        }
        i = i + 1;
    }
    None
}

/// The picked pair: each side's code and the name shown for it.
#[derive(Clone, Debug)]
pub struct LanguageSelection {
    pub source_code: String,
    pub source_name: String,
    pub target_code: String,
    pub target_name: String,
}

/// The selection after picking `name` on one side: the first language of
/// that name takes the side; an unknown name changes nothing.
pub open spec fn picked(
    languages: Seq<Language>,
    name: Seq<char>,
    code_before: Seq<char>,
    name_before: Seq<char>,
) -> (Seq<char>, Seq<char>) {
    match index_of_name(languages, name) {
        Some(i) => (languages[i].code@, languages[i].name@),
        None => (code_before, name_before),
    }
}

/// The selection a side keeps when the list changes: a language that can no
/// longer be picked there gives way to the first that can, if any.
pub open spec fn kept(
    languages: Seq<Language>,
    code: Seq<char>,
    name: Seq<char>,
    source: bool,
) -> (Seq<char>, Seq<char>) {
    if !selectable(languages, code, source) && first_available(languages, source) is Some {
        let i = first_available(languages, source)->0;
        (languages[i].code@, languages[i].name@)
    } else {
        (code, name)
    }
}

impl Default for LanguageSelection {
    fn default() -> (r: Self)
        ensures
            r.source_code@ == "en"@ && r.target_code@ == "en"@,
            r.source_name@ == "English"@ && r.target_name@ == "English"@,
    {
        LanguageSelection::new()
    }
}

impl LanguageSelection {
    /// English on both sides until the list and the settings say otherwise.
    pub fn new() -> (r: Self)
        ensures
            r.source_code@ == "en"@ && r.target_code@ == "en"@,
            r.source_name@ == "English"@ && r.target_name@ == "English"@,
    {
        LanguageSelection {
            source_code: string_from_chars(&str_chars("en")),
            source_name: string_from_chars(&str_chars("English")),
            target_code: string_from_chars(&str_chars("en")),
            target_name: string_from_chars(&str_chars("English")),
        }
    }

    /// Picks the source language by its shown name; returns whether a
    /// language of that name exists.
    pub fn set_source_by_name(&mut self, languages: &[Language], name: &str) -> (found: bool)
        ensures
            found == (index_of_name(languages@, name@) is Some),
            (final(self).source_code@, final(self).source_name@) == picked(
                languages@,
                name@,
                old(self).source_code@,
                old(self).source_name@,
            ),
            final(self).target_code == old(self).target_code,
            final(self).target_name == old(self).target_name,
    {
        match find_language_by_name(languages, name) {
            Some(i) => {
                self.source_code = languages[i].code.clone();
                self.source_name = languages[i].name.clone();
                true
            },
            None => false,
        }
    }

    /// Picks the target language by its shown name; returns whether a
    /// language of that name exists.
    pub fn set_target_by_name(&mut self, languages: &[Language], name: &str) -> (found: bool)
        ensures
            found == (index_of_name(languages@, name@) is Some),
            (final(self).target_code@, final(self).target_name@) == picked(
                languages@,
                name@,
                old(self).target_code@,
                old(self).target_name@,
            ),
            final(self).source_code == old(self).source_code,
            final(self).source_name == old(self).source_name,
    {
        match find_language_by_name(languages, name) {
            Some(i) => {
                self.target_code = languages[i].code.clone();
                self.target_name = languages[i].name.clone();
                true
            },
            None => false,
        }
    }

    /// Swaps the two sides by name: the source becomes the old target's
    /// language and the target the old source's.
    pub fn swap(&mut self, languages: &[Language])
        ensures
            (final(self).source_code@, final(self).source_name@) == picked(
                languages@,
                old(self).target_name@,
                old(self).source_code@,
                old(self).source_name@,
            ),
            (final(self).target_code@, final(self).target_name@) == picked(
                languages@,
                old(self).source_name@,
                old(self).target_code@,
                old(self).target_name@,
            ),
    {
        let source = self.source_name.clone();
        let target = self.target_name.clone();
        self.set_source_by_name(languages, target.as_str());
        self.set_target_by_name(languages, source.as_str());
    }

    /// Restores the pair saved in the settings: each saved code that names a
    /// language picks that language by its name; an unknown code leaves its
    /// side alone.
    pub fn apply_saved_pair(&mut self, languages: &[Language], from_code: &str, to_code: &str)
        ensures
            (final(self).source_code@, final(self).source_name@) == (match index_of_code(
                languages@,
                from_code@,
            ) {
                Some(i) => picked(
                    languages@,
                    languages@[i].name@,
                    old(self).source_code@,
                    old(self).source_name@,
                ),
                None => (old(self).source_code@, old(self).source_name@),
            }),
            (final(self).target_code@, final(self).target_name@) == (match index_of_code(
                languages@,
                to_code@,
            ) {
                Some(i) => picked(
                    languages@,
                    languages@[i].name@,
                    old(self).target_code@,
                    old(self).target_name@,
                ),
                None => (old(self).target_code@, old(self).target_name@),
            }),
    {
        match find_language_index(languages, from_code) {
            Some(i) => {
                let name = languages[i].name.clone();
                self.set_source_by_name(languages, name.as_str());
            },
            None => {},
        }
        match find_language_index(languages, to_code) {
            Some(i) => {
                let name = languages[i].name.clone();
                self.set_target_by_name(languages, name.as_str());
            },
            None => {},
        }
    }

    /// Replaces a side that can no longer be picked with the first language
    /// that can, name and all.
    pub fn ensure_valid(&mut self, languages: &[Language])
        ensures
            (final(self).source_code@, final(self).source_name@) == kept(
                languages@,
                old(self).source_code@,
                old(self).source_name@,
                true,
            ),
            (final(self).target_code@, final(self).target_name@) == kept(
                languages@,
                old(self).target_code@,
                old(self).target_name@,
                false,
            ),
    {
        if !is_language_selectable(languages, self.source_code.as_str(), true) {
            match first_selectable_language(languages, true) {
                Some(i) => {
                    self.source_code = languages[i].code.clone();
                    self.source_name = languages[i].name.clone();
                },
                None => {},
            }
        }
        if !is_language_selectable(languages, self.target_code.as_str(), false) {
            match first_selectable_language(languages, false) {
                Some(i) => {
                    self.target_code = languages[i].code.clone();
                    self.target_name = languages[i].name.clone();
                },
                None => {},
            }
        }
    }
}

/// Names name languages one to one.
pub open spec fn distinct_names(languages: Seq<Language>) -> bool {
    forall|i: int, j: int|
        0 <= i < languages.len() && 0 <= j < languages.len() && i != j ==> languages[i].name@
            != languages[j].name@
}

/// With names that tell languages apart, a selection whose names are
/// listed swaps its codes exactly, and swapping twice restores it.
pub proof fn lemma_swap_twice_restores(
    languages: Seq<Language>,
    source_code: Seq<char>,
    source_name: Seq<char>,
    target_code: Seq<char>,
    target_name: Seq<char>,
)
    requires
        distinct_names(languages),
        index_of_name(languages, source_name) matches Some(s) && languages[s].code@ == source_code,
        index_of_name(languages, target_name) matches Some(t) && languages[t].code@ == target_code,
    ensures
        ({
            let (sc1, sn1) = picked(languages, target_name, source_code, source_name);
            let (tc1, tn1) = picked(languages, source_name, target_code, target_name);
            &&& sc1 == target_code && sn1 == target_name
            &&& tc1 == source_code && tn1 == source_name
            &&& picked(languages, tn1, sc1, sn1) == (source_code, source_name)
            &&& picked(languages, sn1, tc1, tn1) == (target_code, target_name)
        }),
{
    let s = index_of_name(languages, source_name)->0;
    let t = index_of_name(languages, target_name)->0;
    lemma_first_named_unique(languages, source_name, s);
    lemma_first_named_unique(languages, target_name, t);
    let ks = choose|i: int| first_named(languages, source_name, i);
    let kt = choose|i: int| first_named(languages, target_name, i);
    assert(first_named(languages, source_name, ks));
    assert(first_named(languages, target_name, kt));
}

// ---------------------------------------------------------------------------
// Downloading or deleting every part of a language at once.
// ---------------------------------------------------------------------------

/// The parts a "download all" requests, in order: each part that exists
/// and is not installed yet.
pub open spec fn download_all_plan(language: Language) -> Seq<FeatureKind> {
    (if language.core_size_bytes > 0 && !language.core_installed {
        seq![FeatureKind::Core]
    } else {
        seq![]
    }) + (if language.dictionary_size_bytes > 0 && !language.dictionary_installed {
        seq![FeatureKind::Dictionary]
    } else {
        seq![]
    }) + (if language.tts_size_bytes > 0 && !language.tts_installed {
        seq![FeatureKind::Tts]
    } else {
        seq![]
    })
}

/// The parts a "delete all" removes, speech first and the core last: each
/// part that exists and is installed.
pub open spec fn delete_all_plan(language: Language) -> Seq<FeatureKind> {
    (if language.tts_size_bytes > 0 && language.tts_installed {
        seq![FeatureKind::Tts]
    } else {
        seq![]
    }) + (if language.dictionary_size_bytes > 0 && language.dictionary_installed {
        seq![FeatureKind::Dictionary]
    } else {
        seq![]
    }) + (if language.core_size_bytes > 0 && language.core_installed {
        seq![FeatureKind::Core]
    } else {
        seq![]
    })
}

pub fn features_to_download(language: &Language) -> (r: Vec<FeatureKind>)
    ensures
        r@ == download_all_plan(*language),
{
    let mut r: Vec<FeatureKind> = Vec::new();
    if language.core_size_bytes > 0 && !language.core_installed {
        r.push(FeatureKind::Core);
    }
    if language.dictionary_size_bytes > 0 && !language.dictionary_installed {
        r.push(FeatureKind::Dictionary);
    }
    if language.tts_size_bytes > 0 && !language.tts_installed {
        r.push(FeatureKind::Tts);
    }
    assert(r@ =~= download_all_plan(*language));
    r
}

pub fn features_to_delete(language: &Language) -> (r: Vec<FeatureKind>)
    ensures
        r@ == delete_all_plan(*language),
{
    let mut r: Vec<FeatureKind> = Vec::new();
    if language.tts_size_bytes > 0 && language.tts_installed {
        r.push(FeatureKind::Tts);
    }
    if language.dictionary_size_bytes > 0 && language.dictionary_installed {
        r.push(FeatureKind::Dictionary);
    }
    if language.core_size_bytes > 0 && language.core_installed {
        r.push(FeatureKind::Core);
    }
    assert(r@ =~= delete_all_plan(*language));
    r
}

/// A part is never both downloaded and deleted by the two "all" actions.
pub proof fn lemma_download_and_delete_disjoint(language: Language, feature: FeatureKind)
    ensures
        !(download_all_plan(language).contains(feature) && delete_all_plan(language).contains(
            feature,
        )),
{
    let d = download_all_plan(language);
    let x = delete_all_plan(language);
    if d.contains(feature) && x.contains(feature) {
        let i = choose|i: int| 0 <= i < d.len() && d[i] == feature;
        let j = choose|j: int| 0 <= j < x.len() && x[j] == feature;
        assert(d[i] == feature);
        assert(x[j] == feature);
    }
}

// ---------------------------------------------------------------------------
// Which rows of the language manager are expanded.
// ---------------------------------------------------------------------------

/// The codes of the expanded rows, each once.
#[derive(Clone, Debug)]
pub struct ExpandedRows {
    codes: Vec<String>,
}

impl Default for ExpandedRows {
    fn default() -> (r: Self)
        ensures
            r.wf(),
            r.view_set() == Set::<Seq<char>>::empty(),
    {
        ExpandedRows::new()
    }
}

impl ExpandedRows {
    pub closed spec fn wf(&self) -> bool {
        forall|i: int, j: int|
            0 <= i < self.codes@.len() && 0 <= j < self.codes@.len() && i != j
                ==> self.codes@[i]@ != self.codes@[j]@
    }

    /// The codes of the expanded rows.
    pub closed spec fn view_set(&self) -> Set<Seq<char>> {
        Set::new(|c: Seq<char>| exists|i: int| 0 <= i < self.codes@.len() && self.codes@[i]@ == c)
    }

    pub fn new() -> (r: Self)
        ensures
            r.wf(),
            r.view_set() == Set::<Seq<char>>::empty(),
    {
        let r = ExpandedRows { codes: Vec::new() };
        assert(r.view_set() =~= Set::<Seq<char>>::empty());
        r
    }

    fn position(&self, code: &str) -> (r: Option<usize>)
        ensures
            r matches Some(i) ==> i < self.codes@.len() && self.codes@[i as int]@ == code@,
            r is None ==> forall|i: int| 0 <= i < self.codes@.len() ==> self.codes@[i]@ != code@,
    {
        let wanted = str_chars(code);
        let mut i: usize = 0;
        while i < self.codes.len()
            invariant
                i <= self.codes@.len(),
                wanted@ == code@,
                forall|j: int| 0 <= j < i ==> self.codes@[j]@ != code@,
            decreases self.codes.len() - i,
        {
            if chars_eq(str_chars(self.codes[i].as_str()).as_slice(), wanted.as_slice()) {
                return Some(i);
            }
            i = i + 1;
        }
        None
    }

    pub fn contains(&self, code: &str) -> (r: bool)
        ensures
            r == self.view_set().contains(code@),
    {
        match self.position(code) {
            Some(i) => {
                assert(self.view_set().contains(code@));
                true
            },
            None => false,
        }
    }

    /// Expands a collapsed row or collapses an expanded one; returns whether
    /// the row is now expanded.
    pub fn toggle(&mut self, code: &str) -> (expanded: bool)
        requires
            old(self).wf(),
        ensures
            final(self).wf(),
            expanded == !old(self).view_set().contains(code@),
            expanded ==> final(self).view_set() == old(self).view_set().insert(code@),
            !expanded ==> final(self).view_set() == old(self).view_set().remove(code@),
    {
        let ghost before = self.view_set();
        match self.position(code) {
            Some(i) => {
                assert(before.contains(code@));
                let ghost old_codes = self.codes@;
                self.codes.remove(i);
                assert(self.view_set() =~= before.remove(code@)) by {
                    assert forall|c: Seq<char>| #[trigger] self.view_set().contains(c) == before.remove(code@).contains(c) by {
                        if self.view_set().contains(c) {
                            let k = choose|k: int| 0 <= k < self.codes@.len() && self.codes@[k]@ == c;
                            if k < i {
                                assert(old_codes[k] == self.codes@[k]);
                                assert(k != i as int);
                            } else {
                                assert(old_codes[k + 1] == self.codes@[k]);
                                assert(k + 1 != i as int);
                            }
                        }
                        if before.remove(code@).contains(c) {
                            let k = choose|k: int| 0 <= k < old_codes.len() && old_codes[k]@ == c;
                            assert(k != i as int);
                            if k < i {
                                assert(self.codes@[k] == old_codes[k]);
                            } else {
                                assert(self.codes@[k - 1] == old_codes[k]);
                            }
                        }
                    }
                }
                false
            },
            None => {
                assert(!before.contains(code@));
                let ghost old_codes = self.codes@;
                self.codes.push(string_from_chars(&str_chars(code)));
                assert(self.view_set() =~= before.insert(code@)) by {
                    assert forall|c: Seq<char>| #[trigger] self.view_set().contains(c) == before.insert(code@).contains(c) by {
                        if self.view_set().contains(c) {
                            let k = choose|k: int| 0 <= k < self.codes@.len() && self.codes@[k]@ == c;
                            if k < old_codes.len() {
                                assert(old_codes[k] == self.codes@[k]);
                            }
                        }
                        if before.insert(code@).contains(c) {
                            if c == code@ {
                                assert(self.codes@[old_codes.len() as int]@ == c);
                            } else {
                                let k = choose|k: int| 0 <= k < old_codes.len() && old_codes[k]@ == c;
                                assert(self.codes@[k] == old_codes[k]);
                            }
                        }
                    }
                }
                true
            },
        }
    }
}

/// Toggling a row twice leaves the expanded rows as they were.
pub proof fn lemma_toggle_twice(rows: Set<Seq<char>>, code: Seq<char>)
    ensures
        !rows.contains(code) ==> rows.insert(code).remove(code) == rows,
        rows.contains(code) ==> rows.remove(code).insert(code) == rows,
{
    assert(!rows.contains(code) ==> rows.insert(code).remove(code) =~= rows);
    assert(rows.contains(code) ==> rows.remove(code).insert(code) =~= rows);
}

} // verus!
