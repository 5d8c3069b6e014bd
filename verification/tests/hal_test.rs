use boppo_core::hal::ButtonCounts;
use boppo_core::{Button, Buttons};

#[test]
fn counts_follow_press_and_release_events() {
    let mut counts = ButtonCounts::default();
    assert!(counts.currently_pressed().is_empty());
    counts.update_for_event(Button::B3, true);
    assert!(counts.is_pressed(Button::B3));
    assert!(!counts.is_pressed(Button::B4));
    counts.update_for_event(Button::B7, true);
    assert_eq!(counts.currently_pressed(), Buttons::from_indices(&[3, 7]));
    counts.update_for_event(Button::B3, false);
    assert_eq!(counts.currently_pressed(), Buttons::from_index(7));
    // A missed release: a second press keeps the button pressed.
    counts.update_for_event(Button::B7, true);
    assert!(counts.is_pressed(Button::B7));
    // A release of a released button keeps it released.
    counts.update_for_event(Button::B3, false);
    assert!(!counts.is_pressed(Button::B3));
}

#[test]
fn counts_wrap_around() {
    let mut counts = ButtonCounts::default();
    for _ in 0..40_000 {
        counts.update_for_event(Button::B0, true);
        counts.update_for_event(Button::B0, false);
    }
    assert!(!counts.is_pressed(Button::B0));
    counts.update_for_event(Button::B0, true);
    assert!(counts.is_pressed(Button::B0));
}
