use vstd::prelude::*;
use crate::document::text_of;
use crate::model::{screen_code, Screen};
use crate::text::{parse_i32, parsed_i32};

verus! {

// ---------------------------------------------------------------------------
// Moving between screens, and the voice-pack picker that lives on the
// language-management screen.
// ---------------------------------------------------------------------------

/// The screen shown (as the number the UI knows it by, which a start-up
/// override may set to any value), the screen that opened the language
/// manager, and the voice-pack picker with the language it was opened for.
#[derive(Clone, Debug)]
pub struct Navigation {
    pub current_screen: i32,
    pub previous_screen: Screen,
    pub tts_picker_open: bool,
    pub tts_picker_language_code: String,
}

/// The picker closed, with no language.
pub open spec fn picker_closed(before: Navigation, after: Navigation) -> bool {
    &&& !after.tts_picker_open
    &&& after.tts_picker_language_code@.len() == 0
}

/// The state after showing `screen`: leaving the language manager closes the
/// voice-pack picker.
pub open spec fn shown(before: Navigation, after: Navigation, screen: Screen) -> bool {
    &&& after.current_screen == screen_code(screen)
    &&& after.previous_screen == before.previous_screen
    &&& if screen == Screen::ManageLanguages {
        after.tts_picker_open == before.tts_picker_open && after.tts_picker_language_code
            == before.tts_picker_language_code
    } else {
        picker_closed(before, after)
    }
}

/// Where leaving the language manager goes: back to the settings when they
/// opened it, else to translation once a language is installed, else to the
/// first-run screen.
pub open spec fn manage_exit(previous: Screen, has_languages: bool) -> Screen {
    if previous == Screen::Settings {
        Screen::Settings
    } else if has_languages {
        Screen::Translation
    } else {
        Screen::NoLanguages
    }
}

impl Default for Navigation {
    /// The first-run screen, nothing opened yet.
    fn default() -> (r: Self)
        ensures
            r.current_screen == screen_code(Screen::NoLanguages),
            r.previous_screen == Screen::Translation,
            !r.tts_picker_open,
            r.tts_picker_language_code@.len() == 0,
    {
        Navigation::new(Screen::NoLanguages.as_i32())
    }
}

impl Navigation {
    /// Starts on `start_screen`; the language manager, until opened from the
    /// settings, returns to translation.
    pub fn new(start_screen: i32) -> (r: Self)
        ensures
            r.current_screen == start_screen,
            r.previous_screen == Screen::Translation,
            !r.tts_picker_open,
            r.tts_picker_language_code@.len() == 0,
    {
        Navigation {
            current_screen: start_screen,
            previous_screen: Screen::Translation,
            tts_picker_open: false,
            tts_picker_language_code: String::new(),
        }
    }

    /// Closes the voice-pack picker and forgets its language.
    pub fn close_tts_picker(&mut self)
        ensures
            picker_closed(*old(self), *final(self)),
            final(self).current_screen == old(self).current_screen,
            final(self).previous_screen == old(self).previous_screen,
    {
        self.tts_picker_open = false;
        self.tts_picker_language_code = String::new();
    }

    /// Opens the voice-pack picker for a language.
    pub fn open_tts_picker(&mut self, code: String)
        ensures
            final(self).tts_picker_open,
            final(self).tts_picker_language_code == code,
            final(self).current_screen == old(self).current_screen,
            final(self).previous_screen == old(self).previous_screen,
    {
        self.tts_picker_language_code = code;
        self.tts_picker_open = true;
    }

    pub fn set_current_screen(&mut self, screen: Screen)
        ensures
            shown(*old(self), *final(self), screen),
    {
        self.current_screen = screen.as_i32();
        match screen {
            Screen::ManageLanguages => {},
            _ => self.close_tts_picker(),
        }
    }

    pub fn show_settings(&mut self)
        ensures
            shown(*old(self), *final(self), Screen::Settings),
    {
        self.set_current_screen(Screen::Settings);
    }

    pub fn back_from_settings(&mut self)
        ensures
            shown(*old(self), *final(self), Screen::Translation),
    {
        self.set_current_screen(Screen::Translation);
    }

    /// Opens the language manager from the settings, which it returns to.
    pub fn show_manage_languages(&mut self)
        ensures
            final(self).current_screen == screen_code(Screen::ManageLanguages),
            final(self).previous_screen == Screen::Settings,
            final(self).tts_picker_open == old(self).tts_picker_open,
            final(self).tts_picker_language_code == old(self).tts_picker_language_code,
    {
        self.previous_screen = Screen::Settings;
        self.set_current_screen(Screen::ManageLanguages);
    }

    pub fn back_from_manage_languages(&mut self, has_languages: bool)
        ensures
            shown(*old(self), *final(self), manage_exit(old(self).previous_screen, has_languages)),
    {
        if self.previous_screen == Screen::Settings {
            self.set_current_screen(Screen::Settings);
        } else if has_languages {
            self.set_current_screen(Screen::Translation);
        } else {
            self.set_current_screen(Screen::NoLanguages);
        }
    }

    /// Leaves the first-run screen once a language is installed.
    pub fn finish_language_setup(&mut self, has_languages: bool)
        ensures
            has_languages ==> shown(*old(self), *final(self), Screen::Translation),
            !has_languages ==> *final(self) == *old(self),
    {
        if has_languages {
            self.set_current_screen(Screen::Translation);
        }
    }

    /// A fresh language list arrived: the first-run screen gives way to
    /// translation as soon as a language is installed.
    pub fn languages_loaded(&mut self, has_languages: bool)
        ensures
            old(self).current_screen == screen_code(Screen::NoLanguages) && has_languages ==> shown(
                *old(self),
                *final(self),
                Screen::Translation,
            ),
            !(old(self).current_screen == screen_code(Screen::NoLanguages) && has_languages)
                ==> *final(self) == *old(self),
    {
        if self.current_screen == Screen::NoLanguages.as_i32() && has_languages {
            self.set_current_screen(Screen::Translation);
        }
    }
}

/// The screen to start on: a number set for start-up when it reads as one,
/// otherwise the first-run screen.
pub open spec fn start_screen_for(value: Option<Seq<char>>) -> i32 {
    match value {
        Some(v) => if v.len() == 0 {
            screen_code(Screen::NoLanguages)
        } else {
            match parsed_i32(v) {
                Some(n) => n,
                None => screen_code(Screen::NoLanguages),
            }
        },
        None => screen_code(Screen::NoLanguages),
    }
}

pub fn start_screen(value: Option<String>) -> (r: i32)
    ensures
        r == start_screen_for(text_of(value)),
{
    match value {
        Some(v) => {
            if v.as_str().is_empty() {
                Screen::NoLanguages.as_i32()
            } else {
                match parse_i32(v.as_str()) {
                    Some(n) => n,
                    None => Screen::NoLanguages.as_i32(),
                }
            }
        },
        None => Screen::NoLanguages.as_i32(),
    }
}

/// Opening the language manager from the settings and leaving it returns to
/// the settings, whatever is installed, and closes the voice-pack picker.
pub proof fn lemma_manager_returns_to_settings(
    opened: Navigation,
    left: Navigation,
    has_languages: bool,
)
    requires
        opened.previous_screen == Screen::Settings,
        opened.current_screen == screen_code(Screen::ManageLanguages),
        shown(opened, left, manage_exit(opened.previous_screen, has_languages)),
    ensures
        left.current_screen == screen_code(Screen::Settings),
        !left.tts_picker_open,
        left.tts_picker_language_code@.len() == 0,
{
}

} // verus!
