//! Input events and the translation of captured navigation events
//! into them.
//!
//! The host extracts the event name, the button number and the
//! pointer coordinates from the capture pipeline and hands them over
//! as plain values; coordinates are canvas pixels.  The decision
//! tables here — which names mean what, and how device buttons map to
//! the window system's button codes — are the translation logic, and
//! they are total: every input yields either an event or one of the
//! translation errors.

use vstd::prelude::*;

use crate::text::str_eq;

verus! {

/// Whether a button is down or up.
#[derive(Debug, Clone, Copy, PartialEq, Eq, Structural)]
pub enum ButtonState {
    Pressed,
    Released,
}

/// One input event, in canvas pixels.
#[derive(Debug, Clone, Copy, PartialEq, Eq, Structural)]
pub enum Event {
    Button { state: ButtonState, button: u32, pointer_x: u32, pointer_y: u32 },
    Move { pointer_x: u32, pointer_y: u32 },
}

/// Why a captured navigation event could not be translated.
#[derive(Debug, PartialEq)]
pub enum EventTranslationError {
    /// The event structure lacks the named field.
    MissingFieldError(&'static str),
    /// The named field holds a value of the wrong type.
    FieldWrongTypeError(&'static str),
    /// The event name is none of the known navigation events.
    UnknownEventType(String),
    /// The device button has no window-system counterpart.
    UnknownButtonType(i32),
}

/// The description a translation error renders as.
pub open spec fn spec_translation_error_message(e: EventTranslationError) -> Seq<char> {
    match e {
        EventTranslationError::MissingFieldError(f) => "event structure misses field "@ + f@,
        EventTranslationError::FieldWrongTypeError(f) => "event field has the wrong type: "@ + f@,
        EventTranslationError::UnknownEventType(s) => "unknown event type "@ + s@,
        EventTranslationError::UnknownButtonType(b) => "unknown button type "@
            + crate::text::spec_i32_digits(b),
    }
}

impl EventTranslationError {
    /// Render the error for a log line.
    pub fn message(&self) -> (r: String)
        ensures
            r@ == spec_translation_error_message(*self),
    {
        let mut buf: Vec<char> = Vec::new();
        match self {
            EventTranslationError::MissingFieldError(f) => {
                crate::text::push_str_chars("event structure misses field ", &mut buf);
                crate::text::push_str_chars(f, &mut buf);
            },
            EventTranslationError::FieldWrongTypeError(f) => {
                crate::text::push_str_chars("event field has the wrong type: ", &mut buf);
                crate::text::push_str_chars(f, &mut buf);
            },
            EventTranslationError::UnknownEventType(s) => {
                crate::text::push_str_chars("unknown event type ", &mut buf);
                crate::text::push_str_chars(s.as_str(), &mut buf);
            },
            EventTranslationError::UnknownButtonType(b) => {
                crate::text::push_str_chars("unknown button type ", &mut buf);
                crate::text::push_i32_chars(*b, &mut buf);
            },
        }
        crate::text::chars_to_string(&buf)
    }
}

/// The window-system code of a device button: left is `0x110`,
/// right is `0x111`; nothing else is mapped.
pub open spec fn spec_button_code(button: i32) -> Option<u32> {
    if button == 1 {
        Some(0x110u32)
    } else if button == 3 {
        Some(0x111u32)
    } else {
        None
    }
}

/// Map a device button number to its window-system button code.
pub fn translate_button(button: i32) -> (r: Result<u32, EventTranslationError>)
    ensures
        match spec_button_code(button) {
            Some(code) => r == Ok::<u32, EventTranslationError>(code),
            None => r == Err::<u32, EventTranslationError>(
                EventTranslationError::UnknownButtonType(button),
            ),
        },
{
    if button == 1 {
        Ok(0x110)
    } else if button == 3 {
        Ok(0x111)
    } else {
        Err(EventTranslationError::UnknownButtonType(button))
    }
}

/// What a translated event must be, given the captured name, button
/// and coordinates.  Pointer motion and touch motion become moves;
/// button and touch transitions become button events, a touch always
/// standing for the left button.
pub open spec fn spec_translate_ok(
    name: Seq<char>,
    button: i32,
    x: u32,
    y: u32,
    r: Result<Event, EventTranslationError>,
) -> bool {
    if name == "mouse-move"@ || name == "touch-motion"@ {
        r == Ok::<Event, EventTranslationError>(Event::Move { pointer_x: x, pointer_y: y })
    } else if name == "touch-down"@ || name == "touch-up"@ {
        r == Ok::<Event, EventTranslationError>(
            Event::Button {
                state: if name == "touch-down"@ {
                    ButtonState::Pressed
                } else {
                    ButtonState::Released
                },
                button: 0x110u32,
                pointer_x: x,
                pointer_y: y,
            },
        )
    } else if name == "mouse-button-press"@ || name == "mouse-button-release"@ {
        match spec_button_code(button) {
            Some(code) => r == Ok::<Event, EventTranslationError>(
                Event::Button {
                    state: if name == "mouse-button-press"@ {
                        ButtonState::Pressed
                    } else {
                        ButtonState::Released
                    },
                    button: code,
                    pointer_x: x,
                    pointer_y: y,
                },
            ),
            None => r == Err::<Event, EventTranslationError>(
                EventTranslationError::UnknownButtonType(button),
            ),
        }
    } else {
        r matches Err(EventTranslationError::UnknownEventType(s)) && s@ == name
    }
}

/// Translate one captured navigation event.  `button` is read only
/// for mouse button transitions, exactly as the capture format
/// populates it.
pub fn translate_event(name: &str, button: i32, x: u32, y: u32) -> (r: Result<
    Event,
    EventTranslationError,
>)
    ensures
        spec_translate_ok(name@, button, x, y, r),
{
    if str_eq(name, "mouse-move") || str_eq(name, "touch-motion") {
        Ok(Event::Move { pointer_x: x, pointer_y: y })
    } else if str_eq(name, "touch-down") || str_eq(name, "touch-up") {
        Ok(
            Event::Button {
                state: if str_eq(name, "touch-down") {
                    ButtonState::Pressed
                } else {
                    ButtonState::Released
                },
                button: 0x110,
                pointer_x: x,
                pointer_y: y,
            },
        )
    } else if str_eq(name, "mouse-button-press") || str_eq(name, "mouse-button-release") {
        match translate_button(button) {
            Ok(code) => Ok(
                Event::Button {
                    state: if str_eq(name, "mouse-button-press") {
                        ButtonState::Pressed
                    } else {
                        ButtonState::Released
                    },
                    button: code,
                    pointer_x: x,
                    pointer_y: y,
                },
            ),
            Err(e) => Err(e),
        }
    } else {
        Err(EventTranslationError::UnknownEventType(name.to_owned()))
    }
}

} // verus!
