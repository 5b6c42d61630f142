use vstd::prelude::*;
use crate::document::text_of;

verus! {

/// What `cld2::detect_language` reports for a text in plain-text format:
/// the code of the language it guessed, if any, and whether it rates the
/// guess reliable.
pub uninterp spec fn cld2_detection(text: Seq<char>) -> (Option<Seq<char>>, bool);

/// Calls `cld2::detect_language` on plain text; the language comes back as
/// its code.
#[verifier::external_body]
fn detect(text: &str) -> (r: (Option<String>, bool))
    ensures
        (text_of(r.0), r.1) == cld2_detection(text@),
{
    let (lang, reliability) = cld2::detect_language(text, cld2::Format::Text);
    let code = match lang {
        Some(cld2::Lang(code)) => Some(code.to_string()),
        None => None,
    };
    let reliable = match reliability {
        cld2::Reliable => true,
        cld2::Unreliable => false,
    };
    (code, reliable)
}

/// The code the UI is told: the detected language's code when the guess is
/// reliable, otherwise empty.
pub open spec fn reported_code(detection: (Option<Seq<char>>, bool)) -> Seq<char> {
    match detection {
        (Some(code), true) => code,
        _ => seq![],
    }
}

pub fn code_from_detection(detected: Option<String>, reliable: bool) -> (r: String)
    ensures
        r@ == reported_code((text_of(detected), reliable)),
{
    match detected {
        Some(code) => {
            if reliable {
                code
            } else {
                String::new()
            }
        },
        None => String::new(),
    }
}

/// The language code to show for a text the user typed.
pub fn detected_language_code(text: &str) -> (r: String)
    ensures
        r@ == reported_code(cld2_detection(text@)),
{
    let (detected, reliable) = detect(text);
    code_from_detection(detected, reliable)
}

} // verus!
