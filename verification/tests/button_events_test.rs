use boppo_core::{Button, ButtonEvent, Buttons, EventFilter};

#[test]
fn test_new_and_accessors() {
    {
        let button = Button::B0;
        let pressed = true;
        let currently_pressed = Buttons::none();
        let evt = ButtonEvent::new(button, pressed, currently_pressed);
        assert_eq!(evt.button(), button);
        assert_eq!(evt.is_pressed(), pressed);
        assert_eq!(evt.all_currently_pressed(), currently_pressed);
    }
    {
        let button = Button::B9;
        let pressed = true;
        let currently_pressed = Buttons::none();
        let evt = ButtonEvent::new(button, pressed, currently_pressed);
        assert_eq!(evt.button(), button);
        assert_eq!(evt.is_pressed(), pressed);
        assert_eq!(evt.all_currently_pressed(), currently_pressed);
    }
    {
        let button = Button::B0;
        let pressed = false;
        let currently_pressed = Buttons::all();
        let evt = ButtonEvent::new(button, pressed, currently_pressed);
        assert_eq!(evt.button(), button);
        assert_eq!(evt.is_pressed(), pressed);
        assert_eq!(evt.all_currently_pressed(), currently_pressed);
    }
}

#[test]
fn button_event_u16_round_trip_preserves_fields() {
    let changed = Button::from_index(3);
    let currently_pressed = Buttons::from_bitset(0b10_0101);
    let event = ButtonEvent::new(changed, true, currently_pressed);
    let round_tripped = ButtonEvent::from_u16(event.as_u16());
    assert_eq!(round_tripped, event);
    assert_eq!(round_tripped.button(), changed);
    assert!(round_tripped.is_pressed());
    assert!(!round_tripped.is_released());
    assert_eq!(
        round_tripped.all_currently_pressed().as_bitset(),
        currently_pressed.as_bitset()
    );
}

#[test]
fn event_bit_layout() {
    let event = ButtonEvent::new(Button::B5, true, Buttons::from_indices(&[1, 5]));
    assert_eq!(event.as_u16(), 5 | (0b10_0010 << 4) | (1 << 14));
    let release = ButtonEvent::new(Button::B9, false, Buttons::none());
    assert_eq!(release.as_u16(), 9);
    assert!(release.is_released());
}

#[test]
fn filter_reports_by_button_and_kind() {
    let press = ButtonEvent::new(Button::B1, true, Buttons::from_index(1));
    let release = ButtonEvent::new(Button::B1, false, Buttons::none());
    let other = ButtonEvent::new(Button::B8, true, Buttons::from_index(8));
    let mut filter = EventFilter::new();
    assert_eq!(filter.handle_raw(press, 0), Some(press));
    assert_eq!(filter.handle_raw(release, 0), Some(release));
    assert_eq!(filter.handle_raw(press, 0), Some(press));
    filter.only_report_press_events();
    assert_eq!(filter.handle_raw(release, 0), None);
    assert_eq!(filter.handle_raw(press, 0), Some(press));
    filter.only_report_release_events();
    assert_eq!(filter.handle_raw(press, 0), None);
    assert_eq!(filter.handle_raw(release, 0), Some(release));
    filter.report_press_and_release_events();
    filter.filter_by_buttons(Buttons::from_index(1));
    assert_eq!(filter.handle_raw(other, 0), None);
    assert_eq!(filter.handle_raw(press, 0), Some(press));
    filter.remove_button_filter();
    assert_eq!(filter.handle_raw(other, 0), Some(other));
}

#[test]
fn peeked_event_is_kept_until_taken() {
    let event = ButtonEvent::new(Button::B0, false, Buttons::none());
    let mut filter = EventFilter::new();
    filter.set_peeked(Some(event));
    assert_eq!(filter.peeked(), Some(event));
    assert_eq!(filter.peeked(), Some(event));
    assert_eq!(filter.take_peeked(), Some(event));
    assert_eq!(filter.take_peeked(), None);
}

#[test]
fn filter_changes_drop_a_peeked_event_they_exclude() {
    let release = ButtonEvent::new(Button::B2, false, Buttons::none());
    let mut filter = EventFilter::new();
    filter.set_peeked(Some(release));
    filter.only_report_release_events();
    assert_eq!(filter.peeked(), Some(release));
    filter.only_report_press_events();
    assert_eq!(filter.peeked(), None);
    filter.report_press_and_release_events();
    filter.set_peeked(Some(release));
    filter.filter_by_buttons(Buttons::from_index(3));
    assert_eq!(filter.peeked(), None);
}

#[test]
fn presses_within_the_window_are_not_reported() {
    let press = ButtonEvent::new(Button::B3, true, Buttons::from_index(3));
    let release = ButtonEvent::new(Button::B3, false, Buttons::none());
    let other = ButtonEvent::new(Button::B4, true, Buttons::from_index(4));
    let mut filter = EventFilter::new();
    filter.set_peeked(Some(release));
    filter.ignore_presses_within(100);
    assert_eq!(filter.peeked(), None);
    assert_eq!(filter.handle_raw(press, 1_000), Some(press));
    assert_eq!(filter.handle_raw(press, 1_050), None);
    assert_eq!(filter.handle_raw(release, 1_060), Some(release));
    assert_eq!(filter.handle_raw(other, 1_120), None);
    assert_eq!(filter.handle_raw(press, 1_300), Some(press));
    filter.remove_press_within_filter();
    assert_eq!(filter.handle_raw(press, 1_301), Some(press));

    let mut filter = EventFilter::new();
    filter.ignore_presses_within(100);
    filter.filter_by_buttons(Buttons::from_index(4));
    assert_eq!(filter.handle_raw(press, 0), None);
    assert_eq!(filter.handle_raw(other, 10), Some(other));
    assert_eq!(filter.handle_raw(other, 20), None);
}
