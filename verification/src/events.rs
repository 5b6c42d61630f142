use vstd::prelude::*;
use crate::document::{document_output_path, output_path};
use crate::image_ocr::{resolve_local_path, resolved_local_path};
use crate::model::FeatureKind;
use crate::text::{push_all, str_chars, string_from_chars};

verus! {

// ---------------------------------------------------------------------------
// The I/O event loop. The UI posts requests on a bus; one thread takes them
// in order and does the slow work (downloads, translation, speech, documents).
// What that thread decides for each request is stated here; the work itself
// is done by whoever runs the loop.
// ---------------------------------------------------------------------------

/// Where the app keeps its configuration and its downloaded data.
#[derive(Clone, Debug, PartialEq, Eq)]
pub struct AppPaths {
    pub config: String,
    pub data: String,
}

/// A request on the bus. A speak request's playback speed travels beside it.
#[derive(Clone, Debug)]
pub enum IoEvent {
    DownloadRequest { code: String, feature: FeatureKind, selected_tts_pack_id: Option<String> },
    DeleteLanguage { code: String, feature: FeatureKind },
    SetAppPaths(AppPaths),
    TranslationRequest { text: String, from: String, to: String },
    ImageTranslationRequest {
        image_path: String,
        from: String,
        to: String,
        min_confidence: u32,
        max_image_size: u32,
        background_mode: String,
    },
    DocumentTranslationRequest {
        input_path: String,
        from: String,
        to: String,
        translate_pdf_images: bool,
    },
    CancelDocumentTranslation,
    RefreshTtsVoices { language_code: String, selected_voice_name: String },
    WarmTtsModel { language_code: String },
    SpeakRequest { language_code: String, text: String, voice_name: String },
    DeleteTtsPack { pack_id: String },
    StopTts,
    Shutdown,
}

/// What the loop remembers between requests: the app's directories once
/// they are known, and whether a document job was started since the last
/// cancel.
#[derive(Clone, Debug)]
pub struct EventLoopState {
    pub app_paths: Option<AppPaths>,
    pub document_job: bool,
}

/// What the loop does for one request.
#[derive(Clone, Debug)]
pub enum LoopStep {
    /// Create both directories, reload the catalog and publish the languages.
    PrepareDirectories { data: String, config: String },
    /// A download before the directories are known is dropped.
    SkipDownload { code: String },
    /// Plan and run the download into `data_dir`, then reload and publish.
    Download { code: String, feature: FeatureKind, selected_tts_pack_id: Option<String>, data_dir: String },
    /// Delete the feature and publish the languages.
    Delete { code: String, feature: FeatureKind },
    /// Report the detected language of `text`, translate it and show the result.
    Translate { text: String, from: String, to: String },
    /// Load the voices of a language, with the stored voice when one is named.
    LoadVoices { language_code: String, selected_voice_name: Option<String> },
    /// Load the speech model of a language ahead of use.
    WarmVoice { language_code: String },
    /// Speak a text, with the named voice when one is named.
    Speak { language_code: String, text: String, voice_name: Option<String> },
    /// Stop speaking and show speech as idle.
    StopSpeaking,
    /// Delete an installed voice pack and publish the languages.
    DeletePack { pack_id: String },
    /// Translate an image file.
    TranslateImage {
        image_path: String,
        from: String,
        to: String,
        min_confidence: u32,
        max_image_size: u32,
        background_mode: String,
    },
    /// Start a document job writing to `output_path`.
    StartDocument {
        input_path: String,
        output_path: String,
        from: String,
        to: String,
        translate_pdf_images: bool,
    },
    /// Report a document job that cannot start.
    FailDocument { message: String },
    /// Signal the running document job to stop and cancel the session's work.
    CancelDocument,
    /// Nothing to do.
    Idle,
    /// Stop speaking and leave the loop.
    Exit,
}

impl EventLoopState {
    pub fn new() -> (r: Self)
        ensures
            r.app_paths is None,
            !r.document_job,
    {
        EventLoopState { app_paths: None, document_job: false }
    }
}

/// An empty name means "none".
pub open spec fn named(name: String) -> Option<String> {
    if name@.len() == 0 {
        None
    } else {
        Some(name)
    }
}

/// The message of a document request that comes before the directories.
pub open spec fn no_paths_message() -> Seq<char> {
    "app paths not initialized"@
}

/// The loop's decision for one request, and the state it leaves.
pub open spec fn handled(state: EventLoopState, event: IoEvent, next: EventLoopState, step: LoopStep) -> bool {
    match event {
        IoEvent::SetAppPaths(paths) => {
            &&& next.app_paths == Some(paths)
            &&& next.document_job == state.document_job
            &&& step == LoopStep::PrepareDirectories { data: paths.data, config: paths.config }
        },
        IoEvent::DownloadRequest { code, feature, selected_tts_pack_id } => {
            &&& next == state
            &&& match state.app_paths {
                None => step == LoopStep::SkipDownload { code },
                Some(paths) => step == LoopStep::Download {
                    code,
                    feature,
                    selected_tts_pack_id,
                    data_dir: paths.data,
                },
            }
        },
        IoEvent::DeleteLanguage { code, feature } => next == state && step == LoopStep::Delete {
            code,
            feature,
        },
        IoEvent::TranslationRequest { text, from, to } => next == state && step
            == LoopStep::Translate { text, from, to },
        IoEvent::RefreshTtsVoices { language_code, selected_voice_name } => next == state && step
            == LoopStep::LoadVoices {
            language_code,
            selected_voice_name: named(selected_voice_name),
        },
        IoEvent::WarmTtsModel { language_code } => next == state && step == LoopStep::WarmVoice {
            language_code,
        },
        IoEvent::SpeakRequest { language_code, text, voice_name } => next == state && step
            == LoopStep::Speak { language_code, text, voice_name: named(voice_name) },
        IoEvent::StopTts => next == state && step == LoopStep::StopSpeaking,
        IoEvent::DeleteTtsPack { pack_id } => next == state && step == LoopStep::DeletePack {
            pack_id,
        },
        IoEvent::ImageTranslationRequest {
            image_path,
            from,
            to,
            min_confidence,
            max_image_size,
            background_mode,
        } => next == state && step == LoopStep::TranslateImage {
            image_path,
            from,
            to,
            min_confidence,
            max_image_size,
            background_mode,
        },
        IoEvent::DocumentTranslationRequest { input_path, from, to, translate_pdf_images } => {
            match state.app_paths {
                None => {
                    &&& next == state
                    &&& step matches LoopStep::FailDocument { message }
                    &&& message@ == no_paths_message()
                },
                Some(paths) => {
                    &&& next.app_paths == state.app_paths
                    &&& next.document_job
                    &&& step matches LoopStep::StartDocument {
                        input_path: i,
                        output_path: o,
                        from: f,
                        to: t,
                        translate_pdf_images: images,
                    }
                    &&& i == input_path && f == from && t == to && images == translate_pdf_images
                    &&& o@ == output_path(paths.data@, input_path@, from@, to@)
                },
            }
        },
        IoEvent::CancelDocumentTranslation => {
            &&& next.app_paths == state.app_paths
            &&& !next.document_job
            &&& step == (if state.document_job {
                LoopStep::CancelDocument
            } else {
                LoopStep::Idle
            })
        },
        IoEvent::Shutdown => next == state && step == LoopStep::Exit,
    }
}

fn optional_name(name: String) -> (r: Option<String>)
    ensures
        r == named(name),
{
    if name.as_str().is_empty() {
        None
    } else {
        Some(name)
    }
}

/// Requests keep their language pair: the text, image or document goes from
/// the request's source language to its target language, never the other
/// way round, and the text or file is the request's own.
pub proof fn lemma_requests_keep_their_pair(
    state: EventLoopState,
    event: IoEvent,
    next: EventLoopState,
    step: LoopStep,
)
    requires
        handled(state, event, next, step),
    ensures
        event matches IoEvent::TranslationRequest { text, from, to } ==> (step matches LoopStep::Translate {
            text: t,
            from: f,
            to: o,
        } && t == text && f == from && o == to),
        event matches IoEvent::ImageTranslationRequest { image_path, from, to, .. } ==> (
        step matches LoopStep::TranslateImage { image_path: p, from: f, to: o, .. } && p
            == image_path && f == from && o == to),
        event matches IoEvent::DocumentTranslationRequest { input_path, from, to, .. } ==> (
        step matches LoopStep::StartDocument { input_path: p, from: f, to: o, .. } ==> p
            == input_path && f == from && o == to),
        event matches IoEvent::DownloadRequest { code, feature, selected_tts_pack_id } ==> (
        step matches LoopStep::Download { code: c, feature: f, selected_tts_pack_id: t, .. } ==> c
            == code && f == feature && t == selected_tts_pack_id),
        event matches IoEvent::DeleteLanguage { code, feature } ==> (step matches LoopStep::Delete {
            code: c,
            feature: f,
        } && c == code && f == feature),
        event matches IoEvent::SpeakRequest { language_code, text, .. } ==> (
        step matches LoopStep::Speak { language_code: l, text: t, .. } && l == language_code && t
            == text),
        event matches IoEvent::DeleteTtsPack { pack_id } ==> (step matches LoopStep::DeletePack {
            pack_id: p,
        } && p == pack_id),
{
}

/// Decides what to do with one request and records what the loop must
/// remember for the next.
pub fn handle_event(state: &mut EventLoopState, event: IoEvent) -> (step: LoopStep)
    ensures
        handled(*old(state), event, *final(state), step),
        event matches IoEvent::TranslationRequest { text, from, to } ==> (step matches LoopStep::Translate {
            text: t,
            from: f,
            to: o,
        } && t == text && f == from && o == to),
        event matches IoEvent::ImageTranslationRequest { image_path, from, to, .. } ==> (
        step matches LoopStep::TranslateImage { image_path: p, from: f, to: o, .. } && p
            == image_path && f == from && o == to),
        event matches IoEvent::DocumentTranslationRequest { input_path, from, to, .. } ==> (
        step matches LoopStep::StartDocument { input_path: p, from: f, to: o, .. } ==> p
            == input_path && f == from && o == to),
        event matches IoEvent::DownloadRequest { code, feature, selected_tts_pack_id } ==> (
        step matches LoopStep::Download { code: c, feature: f, selected_tts_pack_id: t, .. } ==> c
            == code && f == feature && t == selected_tts_pack_id),
        event matches IoEvent::DeleteLanguage { code, feature } ==> (step matches LoopStep::Delete {
            code: c,
            feature: f,
        } && c == code && f == feature),
        event matches IoEvent::SpeakRequest { language_code, text, .. } ==> (
        step matches LoopStep::Speak { language_code: l, text: t, .. } && l == language_code && t
            == text),
        event matches IoEvent::DeleteTtsPack { pack_id } ==> (step matches LoopStep::DeletePack {
            pack_id: p,
        } && p == pack_id),
{
    match event {
        IoEvent::SetAppPaths(paths) => {
            let data = paths.data.clone();
            let config = paths.config.clone();
            state.app_paths = Some(paths);
            LoopStep::PrepareDirectories { data, config }
        },
        IoEvent::DownloadRequest { code, feature, selected_tts_pack_id } => {
            match &state.app_paths {
                None => LoopStep::SkipDownload { code },
                Some(paths) => LoopStep::Download {
                    code,
                    feature,
                    selected_tts_pack_id,
                    data_dir: paths.data.clone(),
                },
            }
        },
        IoEvent::DeleteLanguage { code, feature } => LoopStep::Delete { code, feature },
        IoEvent::TranslationRequest { text, from, to } => LoopStep::Translate { text, from, to },
        IoEvent::RefreshTtsVoices { language_code, selected_voice_name } => {
            LoopStep::LoadVoices {
                language_code,
                selected_voice_name: optional_name(selected_voice_name),
            }
        },
        IoEvent::WarmTtsModel { language_code } => LoopStep::WarmVoice { language_code },
        IoEvent::SpeakRequest { language_code, text, voice_name } => LoopStep::Speak {
            language_code,
            text,
            voice_name: optional_name(voice_name),
        },
        IoEvent::StopTts => LoopStep::StopSpeaking,
        IoEvent::DeleteTtsPack { pack_id } => LoopStep::DeletePack { pack_id },
        IoEvent::ImageTranslationRequest {
            image_path,
            from,
            to,
            min_confidence,
            max_image_size,
            background_mode,
        } => LoopStep::TranslateImage {
            image_path,
            from,
            to,
            min_confidence,
            max_image_size,
            background_mode,
        },
        IoEvent::DocumentTranslationRequest { input_path, from, to, translate_pdf_images } => {
            match &state.app_paths {
                None => LoopStep::FailDocument {
                    message: string_from_chars(&str_chars("app paths not initialized")),
                },
                Some(paths) => {
                    let output_path = document_output_path(
                        paths.data.as_str(),
                        input_path.as_str(),
                        from.as_str(),
                        to.as_str(),
                    );
                    state.document_job = true;
                    LoopStep::StartDocument {
                        input_path,
                        output_path,
                        from,
                        to,
                        translate_pdf_images,
                    }
                },
            }
        },
        IoEvent::CancelDocumentTranslation => {
            if state.document_job {
                state.document_job = false;
                LoopStep::CancelDocument
            } else {
                LoopStep::Idle
            }
        },
        IoEvent::Shutdown => LoopStep::Exit,
    }
}

// ---------------------------------------------------------------------------
// Answers the loop turns into what the UI shows.
// ---------------------------------------------------------------------------

/// A failure reported by the translation service: whether it is a missing
/// installed asset, and its message.
#[derive(Clone, Debug)]
pub struct ServiceError {
    pub missing_asset: bool,
    pub message: String,
}

pub open spec fn missing_pair_message(from: Seq<char>, to: Seq<char>) -> Seq<char> {
    "Missing installed language pair "@ + from + "->"@ + to
}

/// What the user is told when a request for the pair `from`, `to` failed:
/// a missing asset means the pair is not installed; anything else is shown
/// as the service worded it.
pub open spec fn failure_text(from: Seq<char>, to: Seq<char>, error: ServiceError) -> Seq<char> {
    if error.missing_asset {
        missing_pair_message(from, to)
    } else {
        error.message@
    }
}

pub fn translation_failure_text(from: &str, to: &str, error: ServiceError) -> (r: String)
    ensures
        r@ == failure_text(from@, to@, error),
{
    if error.missing_asset {
        let mut out = str_chars("Missing installed language pair ");
        push_all(&mut out, str_chars(from).as_slice());
        push_all(&mut out, str_chars("->").as_slice());
        push_all(&mut out, str_chars(to).as_slice());
        string_from_chars(&out)
    } else {
        error.message
    }
}

/// The text shown in the output pane after a translation request: the
/// translation, or what went wrong.
pub fn translation_output(from: &str, to: &str, result: Result<String, ServiceError>) -> (r: String)
    ensures
        r@ == match result {
            Ok(text) => text@,
            Err(error) => failure_text(from@, to@, error),
        },
{
    match result {
        Ok(text) => text,
        Err(error) => translation_failure_text(from, to, error),
    }
}

/// One entry of the voice menu: the name the synthesizer knows it by and
/// the name shown.
#[derive(Clone, Debug)]
pub struct VoiceEntry {
    pub name: String,
    pub display_name: String,
}

/// The voices of a language as the speech service lists them.
#[derive(Clone, Debug)]
pub struct LoadedVoices {
    pub available: bool,
    pub voices: Vec<VoiceEntry>,
    pub selected_voice_name: String,
    pub selected_voice_display_name: String,
}

/// What the voice menu shows.
#[derive(Clone, Debug)]
pub struct VoiceMenu {
    pub available: bool,
    pub items: Vec<VoiceEntry>,
    pub selected_name: String,
    pub selected_display_name: String,
}

pub open spec fn entry_view(entry: VoiceEntry) -> (Seq<char>, Seq<char>) {
    (entry.name@, entry.display_name@)
}

pub open spec fn entry_views(entries: Seq<VoiceEntry>) -> Seq<(Seq<char>, Seq<char>)> {
    entries.map_values(|e: VoiceEntry| entry_view(e))
}

/// The entry that leaves the choice to the synthesizer.
pub open spec fn default_entry() -> (Seq<char>, Seq<char>) {
    (seq![], "Default"@)
}

fn default_voice_entry() -> (r: VoiceEntry)
    ensures
        entry_view(r) == default_entry(),
{
    VoiceEntry { name: String::new(), display_name: string_from_chars(&str_chars("Default")) }
}

/// The voice menu after loading a language's voices: the default entry
/// leads the listed voices; when loading failed, speech is unavailable, the
/// menu is empty and the default is shown as selected.
pub fn voice_menu(result: Result<LoadedVoices, String>) -> (r: VoiceMenu)
    ensures
        match result {
            Ok(loaded) => {
                &&& r.available == loaded.available
                &&& entry_views(r.items@) == seq![default_entry()] + entry_views(loaded.voices@)
                &&& r.selected_name == loaded.selected_voice_name
                &&& r.selected_display_name == loaded.selected_voice_display_name
            },
            Err(_) => {
                &&& !r.available
                &&& r.items@.len() == 0
                &&& r.selected_name@.len() == 0
                &&& r.selected_display_name@ == "Default"@
            },
        },
{
    match result {
        Ok(loaded) => {
            let mut items: Vec<VoiceEntry> = Vec::new();
            items.push(default_voice_entry());
            let mut voices = loaded.voices;
            items.append(&mut voices);
            assert(entry_views(items@) =~= seq![default_entry()] + entry_views(loaded.voices@));
            VoiceMenu {
                available: loaded.available,
                items,
                selected_name: loaded.selected_voice_name,
                selected_display_name: loaded.selected_voice_display_name,
            }
        },
        Err(_) => VoiceMenu {
            available: false,
            items: Vec::new(),
            selected_name: String::new(),
            selected_display_name: string_from_chars(&str_chars("Default")),
        },
    }
}

// ---------------------------------------------------------------------------
// Download progress: reported at most once per mebibyte.
// ---------------------------------------------------------------------------

/// How many more bytes must arrive before progress is reported again.
pub const PROGRESS_STEP_BYTES: usize = 1048576;

/// The download size progress is measured against; an empty plan counts
/// as one byte so the fraction is always defined.
pub fn progress_total(plan_total: u64) -> (r: usize)
    ensures
        r == (if plan_total == 0 {
            1
        } else {
            plan_total
        }) as usize,
{
    let total = if plan_total == 0 {
        1
    } else {
        plan_total
    };
    total as usize
}

/// The byte count last reported.
pub struct ProgressThrottle {
    pub last_update: usize,
}

impl ProgressThrottle {
    pub fn new() -> (r: Self)
        ensures
            r.last_update == 0,
    {
        ProgressThrottle { last_update: 0 }
    }

    /// Whether `current` downloaded bytes are worth reporting: at least a
    /// step past the last report. A report moves the mark to `current`.
    pub fn observe(&mut self, current: usize) -> (report: bool)
        ensures
            report == (current >= old(self).last_update + PROGRESS_STEP_BYTES),
            final(self).last_update == (if report {
                current
            } else {
                old(self).last_update
            }),
    {
        let gained = current.saturating_sub(self.last_update);
        if gained >= PROGRESS_STEP_BYTES {
            self.last_update = current;
            true
        } else {
            false
        }
    }
}

// ---------------------------------------------------------------------------
// Picking an image or a file, and the requests that follow.
// ---------------------------------------------------------------------------

/// The OCR settings as the settings screen stores them.
#[derive(Clone, Debug)]
pub struct OcrSettings {
    pub min_confidence: i32,
    pub max_image_size: i32,
    pub background_mode: String,
}

/// A setting below zero counts as zero.
pub open spec fn clamped(value: i32) -> u32 {
    if value < 0 {
        0
    } else {
        value as u32
    }
}

fn clamp_to_u32(value: i32) -> (r: u32)
    ensures
        r == clamped(value),
{
    if value < 0 {
        0
    } else {
        value as u32
    }
}

/// The request to translate an image under the current settings.
pub fn image_request(image_path: String, from: String, to: String, ocr: &OcrSettings) -> (r: IoEvent)
    ensures
        r matches IoEvent::ImageTranslationRequest {
            image_path: p,
            from: f,
            to: t,
            min_confidence,
            max_image_size,
            background_mode,
        } && p == image_path && f == from && t == to && min_confidence == clamped(ocr.min_confidence)
            && max_image_size == clamped(ocr.max_image_size) && background_mode
            == ocr.background_mode,
{
    IoEvent::ImageTranslationRequest {
        image_path,
        from,
        to,
        min_confidence: clamp_to_u32(ocr.min_confidence),
        max_image_size: clamp_to_u32(ocr.max_image_size),
        background_mode: ocr.background_mode.clone(),
    }
}

/// What becomes of a picked image or file.
#[derive(Clone, Debug)]
pub enum Pick {
    /// Nothing was picked.
    Ignored,
    /// The pick is refused with a message for the output pane.
    Refused { message: String },
    /// The local path to work on.
    Path(String),
}

pub open spec fn ocr_disabled_message() -> Seq<char> {
    "OCR is disabled in settings"@
}

pub open spec fn unreadable_image_message() -> Seq<char> {
    "Couldn't open the selected image"@
}

pub open spec fn unreadable_file_message() -> Seq<char> {
    "Couldn't open the selected file"@
}

/// The pick of `url` when its path cannot be had is refused with
/// `unreadable`; an empty pick is ignored.
pub open spec fn picked_path(url: Seq<char>, unreadable: Seq<char>, r: Pick) -> bool {
    if url.len() == 0 {
        r is Ignored
    } else {
        match resolved_local_path(url) {
            Some(path) => r matches Pick::Path(p) && p@ == path,
            None => r matches Pick::Refused { message } && message@ == unreadable,
        }
    }
}

fn pick_path(url: &str, unreadable: &str) -> (r: Pick)
    ensures
        picked_path(url@, unreadable@, r),
{
    if url.is_empty() {
        return Pick::Ignored;
    }
    match resolve_local_path(url) {
        Some(path) => Pick::Path(path),
        None => Pick::Refused { message: string_from_chars(&str_chars(unreadable)) },
    }
}

/// An image picked for OCR: refused while OCR is disabled in the settings.
pub fn pick_image(disable_ocr: bool, url: &str) -> (r: Pick)
    ensures
        disable_ocr ==> (r matches Pick::Refused { message } && message@ == ocr_disabled_message()),
        !disable_ocr ==> picked_path(url@, unreadable_image_message(), r),
{
    if disable_ocr {
        return Pick::Refused { message: string_from_chars(&str_chars("OCR is disabled in settings")) };
    }
    pick_path(url, "Couldn't open the selected image")
}

/// A file picked for translation; whether it is a document or an image is
/// decided by its path.
pub fn pick_file(url: &str) -> (r: Pick)
    ensures
        picked_path(url@, unreadable_file_message(), r),
{
    pick_path(url, "Couldn't open the selected file")
}

} // verus!
