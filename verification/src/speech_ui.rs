use vstd::prelude::*;
use crate::languages::{find_language_index, index_of_code};
use crate::model::{Language, TtsVoicePackOption, TtsVoicePickerRegion, TtsVoiceSelection};
use crate::text::{char_is_whitespace, chars_eq, str_chars, string_from_chars, white_space};
use crate::text_map::TextMap;
use crate::voices::PackDownloadState;

verus! {

// ---------------------------------------------------------------------------
// What the speech controls of the UI decide.
// ---------------------------------------------------------------------------

/// A copy of a voice choice, field by field.
pub fn copy_selection(selection: &TtsVoiceSelection) -> (r: TtsVoiceSelection)
    ensures
        r == *selection,
{
    let speaker = match &selection.speaker {
        Some(name) => Some(name.clone()),
        None => None,
    };
    TtsVoiceSelection { pack_id: selection.pack_id.clone(), speaker }
}

/// Nothing but whitespace, as `str::trim` would leave it empty.
pub open spec fn blank(text: Seq<char>) -> bool {
    forall|i: int| 0 <= i < text.len() ==> white_space(#[trigger] text[i])
}

pub fn is_blank(text: &str) -> (r: bool)
    ensures
        r == blank(text@),
{
    let chars = str_chars(text);
    let mut i: usize = 0;
    while i < chars.len()
        invariant
            i <= chars@.len(),
            chars@ == text@,
            forall|j: int| 0 <= j < i ==> white_space(#[trigger] chars@[j]),
        decreases chars.len() - i,
    {
        if !char_is_whitespace(chars[i]) {
            return false;
        }
        i = i + 1;
    }
    true
}

/// What the speaker button does.
#[derive(Clone, Debug)]
pub enum SpeakDecision {
    /// Speech is loading or playing: stop it.
    Stop,
    /// Nothing to say, or no voice for the target language.
    Ignore,
    /// Speak the output in the target language, with the stored voice.
    Speak { language_code: String, text: String, voice: Option<TtsVoiceSelection> },
}

pub fn speak_decision(
    loading: bool,
    playing: bool,
    output_text: String,
    tts_available: bool,
    target_code: &str,
    voices: &TextMap<TtsVoiceSelection>,
) -> (r: SpeakDecision)
    requires
        voices.wf(),
    ensures
        loading || playing ==> r is Stop,
        !(loading || playing) && (blank(output_text@) || !tts_available) ==> r is Ignore,
        !(loading || playing) && !blank(output_text@) && tts_available ==> {
            &&& r matches SpeakDecision::Speak { language_code, text, voice }
            &&& language_code@ == target_code@
            &&& text == output_text
            &&& voice == (if voices.spec_map().contains_key(target_code@) {
                Some(voices.spec_map()[target_code@])
            } else {
                None
            })
        },
{
    if loading || playing {
        return SpeakDecision::Stop;
    }
    if is_blank(output_text.as_str()) || !tts_available {
        return SpeakDecision::Ignore;
    }
    let voice = match voices.get(target_code) {
        Some(selection) => Some(copy_selection(selection)),
        None => None,
    };
    SpeakDecision::Speak {
        language_code: string_from_chars(&str_chars(target_code)),
        text: output_text,
        voice,
    }
}

/// Whether the target language has a voice installed.
pub open spec fn speech_installed(languages: Seq<Language>, code: Seq<char>) -> bool {
    match index_of_code(languages, code) {
        Some(i) => languages[i].tts_installed,
        None => false,
    }
}

pub fn tts_available_for(languages: &[Language], code: &str) -> (r: bool)
    ensures
        r == speech_installed(languages@, code@),
{
    match find_language_index(languages, code) {
        Some(i) => languages[i].tts_installed,
        None => false,
    }
}

/// The language whose speech model was last loaded ahead of use.
#[derive(Clone, Debug)]
pub struct SpeechWarmup {
    pub prewarmed: String,
}

impl Default for SpeechWarmup {
    fn default() -> (r: Self)
        ensures
            r.prewarmed@.len() == 0,
    {
        SpeechWarmup::new()
    }
}

impl SpeechWarmup {
    pub fn new() -> (r: Self)
        ensures
            r.prewarmed@.len() == 0,
    {
        SpeechWarmup { prewarmed: String::new() }
    }

    /// Forgets the loaded model, so the next refresh loads it again.
    pub fn clear(&mut self)
        ensures
            final(self).prewarmed@.len() == 0,
    {
        self.prewarmed = String::new();
    }

    /// Loads the target language's model once per language while speech is
    /// available; returns the language to load, if any.
    pub fn refresh(&mut self, tts_available: bool, target_code: &str) -> (warm: Option<String>)
        ensures
            !tts_available || target_code@.len() == 0 ==> warm is None
                && final(self).prewarmed@.len() == 0,
            tts_available && target_code@.len() != 0 && old(self).prewarmed@ == target_code@
                ==> warm is None && final(self).prewarmed == old(self).prewarmed,
            tts_available && target_code@.len() != 0 && old(self).prewarmed@ != target_code@ ==> (
            warm matches Some(code) && code@ == target_code@ && final(self).prewarmed@
                == target_code@),
    {
        if !tts_available || target_code.is_empty() {
            self.prewarmed = String::new();
            return None;
        }
        if chars_eq(str_chars(self.prewarmed.as_str()).as_slice(), str_chars(target_code).as_slice()) {
            return None;
        }
        self.prewarmed = string_from_chars(&str_chars(target_code));
        Some(string_from_chars(&str_chars(target_code)))
    }
}

/// Every voice pack of a language, region after region.
pub open spec fn all_voices(regions: Seq<TtsVoicePickerRegion>) -> Seq<TtsVoicePackOption>
    decreases regions.len(),
{
    if regions.len() == 0 {
        seq![]
    } else {
        all_voices(regions.drop_last()) + regions.last().voices@
    }
}

/// What asking for a language's speech does.
#[derive(Clone, Debug)]
pub enum VoicePackAction {
    /// Download the language's speech: its default pack, or the one pack.
    Download { pack_id: Option<String> },
    /// Let the user choose among the packs.
    OpenPicker,
}

pub open spec fn voice_pack_action_for(voices: Seq<TtsVoicePackOption>) -> Option<Option<Seq<char>>> {
    if voices.len() == 0 {
        Some(None)
    } else if voices.len() == 1 && !voices[0].installed {
        Some(Some(voices[0].pack_id@))
    } else {
        None
    }
}

/// No pack listed: download the default; exactly one, not installed:
/// download it; otherwise open the picker.
pub fn voice_pack_action(language: &Language) -> (r: VoicePackAction)
    ensures
        match voice_pack_action_for(all_voices(language.tts_voice_picker_regions@)) {
            Some(None) => r matches VoicePackAction::Download { pack_id: None },
            Some(Some(id)) => r matches VoicePackAction::Download { pack_id: Some(p) } && p@ == id,
            None => r is OpenPicker,
        },
{
    let regions = &language.tts_voice_picker_regions;
    let mut count: usize = 0;
    let mut first_region: usize = 0;
    let mut i: usize = 0;
    while i < regions.len()
        invariant
            i <= regions@.len(),
            count <= 2,
            count == (if all_voices(regions@.subrange(0, i as int)).len() >= 2 {
                2
            } else {
                all_voices(regions@.subrange(0, i as int)).len()
            }),
            count >= 1 ==> first_region < i && regions@[first_region as int].voices@.len() >= 1
                && all_voices(regions@.subrange(0, i as int))[0] == regions@[first_region as int].voices@[0],
        decreases regions.len() - i,
    {
        let n = regions[i].voices.len();
        proof {
            let pre = regions@.subrange(0, i as int);
            let ext = regions@.subrange(0, i + 1);
            assert(ext.drop_last() =~= pre);
            assert(all_voices(ext) == all_voices(pre) + regions@[i as int].voices@);
        }
        if count == 0 && n >= 1 {
            first_region = i;
        }
        if n >= 2 || count + n >= 2 {
            count = 2;
        } else {
            count = count + n;
        }
        i = i + 1;
    }
    assert(regions@.subrange(0, regions@.len() as int) =~= regions@);
    if count == 0 {
        VoicePackAction::Download { pack_id: None }
    } else if count == 1 && !regions[first_region].voices[0].installed {
        VoicePackAction::Download { pack_id: Some(regions[first_region].voices[0].pack_id.clone()) }
    } else {
        VoicePackAction::OpenPicker
    }
}

/// What deleting a voice pack from the picker involves.
#[derive(Clone, Copy, Debug)]
pub struct PackDeletion {
    /// The pack belongs to the target language and speech is active.
    pub stop_speech: bool,
    /// The stored voice of the language was in the pack and is forgotten.
    pub selection_dropped: bool,
}

/// Deletes a voice pack of the picker's language: speech of that language
/// stops first, and a stored voice inside the pack is forgotten so the
/// first remaining voice takes over. Without a picker language nothing
/// happens.
pub fn delete_pack(
    voices: &mut TextMap<TtsVoiceSelection>,
    picker_code: &str,
    pack_id: &str,
    target_code: &str,
    busy: bool,
) -> (r: Option<PackDeletion>)
    requires
        old(voices).wf(),
    ensures
        final(voices).wf(),
        picker_code@.len() == 0 ==> r is None && final(voices).spec_map() == old(
            voices,
        ).spec_map(),
        picker_code@.len() != 0 ==> {
            let stored = old(voices).spec_map().contains_key(picker_code@) && old(
                voices,
            ).spec_map()[picker_code@].pack_id@ == pack_id@;
            &&& r matches Some(d)
            &&& d.stop_speech == (picker_code@ == target_code@ && busy)
            &&& d.selection_dropped == stored
            &&& final(voices).spec_map() == (if stored {
                old(voices).spec_map().remove(picker_code@)
            } else {
                old(voices).spec_map()
            })
        },
{
    if picker_code.is_empty() {
        return None;
    }
    let stop_speech = busy && chars_eq(
        str_chars(picker_code).as_slice(),
        str_chars(target_code).as_slice(),
    );
    let in_pack = match voices.get(picker_code) {
        Some(selection) => chars_eq(
            str_chars(selection.pack_id.as_str()).as_slice(),
            str_chars(pack_id).as_slice(),
        ),
        None => false,
    };
    if in_pack {
        voices.remove(picker_code);
    }
    Some(PackDeletion { stop_speech, selection_dropped: in_pack })
}

/// Queues a pack picked for download, while the picker has a language;
/// returns whether it was queued.
pub fn queue_pack_download<P>(
    downloads: &mut TextMap<PackDownloadState<P>>,
    picker_code: &str,
    pack_id: String,
) -> (queued: bool)
    requires
        old(downloads).wf(),
    ensures
        final(downloads).wf(),
        queued == (picker_code@.len() != 0),
        queued ==> final(downloads).spec_map() == old(downloads).spec_map().insert(
            pack_id@,
            PackDownloadState::Queued,
        ),
        !queued ==> final(downloads).spec_map() == old(downloads).spec_map(),
{
    if picker_code.is_empty() {
        return false;
    }
    downloads.insert(pack_id, PackDownloadState::Queued);
    true
}

/// Records a download report for a pack: its progress while it runs, and
/// nothing once it has ended.
pub fn record_pack_progress<P>(
    downloads: &mut TextMap<PackDownloadState<P>>,
    pack_id: String,
    running: Option<P>,
)
    requires
        old(downloads).wf(),
    ensures
        final(downloads).wf(),
        running matches Some(p) ==> final(downloads).spec_map() == old(downloads).spec_map().insert(
            pack_id@,
            PackDownloadState::Running(p),
        ),
        running is None ==> final(downloads).spec_map() == old(downloads).spec_map().remove(
            pack_id@,
        ),
{
    match running {
        Some(p) => downloads.insert(pack_id, PackDownloadState::Running(p)),
        None => {
            downloads.remove(pack_id.as_str());
        },
    }
}

} // verus!
