use vstd::prelude::*;

verus! {

/// Which way a language can be translated relative to the English pivot.
#[derive(Clone, Copy, Debug, PartialEq, Eq, Structural)]
pub enum Direction {
    FromOnly,
    ToOnly,
    Both,
}

impl Default for Direction {
    fn default() -> (r: Self)
        ensures
            r == Direction::Both,
    {
        Direction::Both
    }
}

/// One downloadable part of a language pack.
#[derive(Clone, Copy, Debug, PartialEq, Eq, Structural)]
pub enum FeatureKind {
    Core,
    Dictionary,
    Tts,
}

/// The number a feature kind travels under between the UI and the library.
pub open spec fn feature_code(kind: FeatureKind) -> i32 {
    match kind {
        FeatureKind::Core => 0,
        FeatureKind::Dictionary => 1,
        FeatureKind::Tts => 2,
    }
}

impl FeatureKind {
    pub fn from_i32(value: i32) -> (r: Option<Self>)
        ensures
            r matches Some(kind) ==> feature_code(kind) == value,
            r is None <==> !(0 <= value <= 2),
    {
        match value {
            0 => Some(FeatureKind::Core),
            1 => Some(FeatureKind::Dictionary),
            2 => Some(FeatureKind::Tts),
            _ => None,
        }
    }

    pub fn as_i32(self) -> (r: i32)
        ensures
            r == feature_code(self),
    {
        match self {
            FeatureKind::Core => 0,
            FeatureKind::Dictionary => 1,
            FeatureKind::Tts => 2,
        }
    }
}

/// The screens the app moves between.
#[derive(Clone, Copy, Debug, PartialEq, Eq, Structural)]
pub enum Screen {
    NoLanguages,
    Translation,
    Settings,
    ManageLanguages,
}

/// The number a screen travels under to the UI.
pub open spec fn screen_code(screen: Screen) -> i32 {
    match screen {
        Screen::NoLanguages => 0,
        Screen::Translation => 1,
        Screen::Settings => 2,
        Screen::ManageLanguages => 3,
    }
}

impl Screen {
    pub fn as_i32(self) -> (r: i32)
        ensures
            r == screen_code(self),
    {
        match self {
            Screen::NoLanguages => 0,
            Screen::Translation => 1,
            Screen::Settings => 2,
            Screen::ManageLanguages => 3,
        }
    }
}

impl Default for Screen {
    fn default() -> (r: Self)
        ensures
            r == Screen::NoLanguages,
    {
        Screen::NoLanguages
    }
}

/// One downloadable text-to-speech voice pack.
#[derive(Clone, Debug, Default)]
pub struct TtsVoicePackOption {
    pub pack_id: String,
    pub display_name: String,
    pub quality: Option<String>,
    pub size_bytes: u64,
    pub installed: bool,
}

/// The voice packs of one region of a language.
#[derive(Clone, Debug, Default)]
pub struct TtsVoicePickerRegion {
    pub code: String,
    pub display_name: String,
    pub voices: Vec<TtsVoicePackOption>,
}

/// The voice the user picked for a language: a pack, and within a
/// multi-speaker pack the speaker's name.
#[derive(Clone, Debug, PartialEq, Eq)]
pub struct TtsVoiceSelection {
    pub pack_id: String,
    pub speaker: Option<String>,
}

/// A language as the app shows it: what can be installed for it and what
/// is.
#[derive(Clone, Debug, Default)]
pub struct Language {
    pub code: String,
    pub name: String,
    pub dictionary_code: String,
    pub direction: Direction,
    pub built_in: bool,
    pub core_size_bytes: u64,
    pub core_installed: bool,
    pub dictionary_size_bytes: u64,
    pub dictionary_installed: bool,
    pub tts_size_bytes: u64,
    pub tts_installed: bool,
    pub tts_voice_picker_regions: Vec<TtsVoicePickerRegion>,
}

/// Which shell the app runs under. Only Ubuntu Touch has content-hub and a
/// phone-shaped screen; everything else is a desktop.
#[derive(Clone, Copy, PartialEq, Eq, Debug, Structural)]
pub enum Platform {
    Desktop,
    UbuntuTouch,
}

impl Platform {
    pub fn is_desktop(self) -> (r: bool)
        ensures
            r == (self == Platform::Desktop),
    {
        match self {
            Platform::Desktop => true,
            Platform::UbuntuTouch => false,
        }
    }
}

} // verus!
