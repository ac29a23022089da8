use swall_core::events::{translate_button, translate_event, ButtonState, Event, EventTranslationError};

#[test]
fn test_translate_moves() {
    assert_eq!(
        translate_event("mouse-move", 0, 15, 25),
        Ok(Event::Move { pointer_x: 15, pointer_y: 25 })
    );
    assert_eq!(
        translate_event("touch-motion", 0, 1, 2),
        Ok(Event::Move { pointer_x: 1, pointer_y: 2 })
    );
}

#[test]
fn test_translate_mouse_buttons() {
    assert_eq!(
        translate_event("mouse-button-press", 1, 5, 6),
        Ok(Event::Button { state: ButtonState::Pressed, button: 0x110, pointer_x: 5, pointer_y: 6 })
    );
    assert_eq!(
        translate_event("mouse-button-release", 3, 5, 6),
        Ok(Event::Button {
            state: ButtonState::Released,
            button: 0x111,
            pointer_x: 5,
            pointer_y: 6,
        })
    );
}

#[test]
fn test_translate_touch_is_left_button() {
    assert_eq!(
        translate_event("touch-down", 99, 7, 8),
        Ok(Event::Button { state: ButtonState::Pressed, button: 0x110, pointer_x: 7, pointer_y: 8 })
    );
    assert_eq!(
        translate_event("touch-up", 99, 7, 8),
        Ok(Event::Button {
            state: ButtonState::Released,
            button: 0x110,
            pointer_x: 7,
            pointer_y: 8,
        })
    );
}

#[test]
fn test_translate_unknown_button() {
    assert_eq!(
        translate_event("mouse-button-press", 2, 0, 0),
        Err(EventTranslationError::UnknownButtonType(2))
    );
    assert_eq!(translate_button(2), Err(EventTranslationError::UnknownButtonType(2)));
    assert_eq!(translate_button(1), Ok(0x110));
    assert_eq!(translate_button(3), Ok(0x111));
}

#[test]
fn test_translate_unknown_event_type() {
    assert_eq!(
        translate_event("wheel", 0, 0, 0),
        Err(EventTranslationError::UnknownEventType("wheel".to_string()))
    );
}

#[test]
fn test_translation_error_messages() {
    assert_eq!(
        EventTranslationError::MissingFieldError("pointer_x").message(),
        "event structure misses field pointer_x"
    );
    assert_eq!(
        EventTranslationError::FieldWrongTypeError("button").message(),
        "event field has the wrong type: button"
    );
    assert_eq!(
        EventTranslationError::UnknownEventType("wheel".to_string()).message(),
        "unknown event type wheel"
    );
    assert_eq!(
        EventTranslationError::UnknownButtonType(-7).message(),
        "unknown button type -7"
    );
    assert_eq!(
        EventTranslationError::UnknownButtonType(i32::MIN).message(),
        "unknown button type -2147483648"
    );
}
