//! Events that occur when a top button is pressed or released.
use vstd::prelude::*;

use crate::bits::set16;
use crate::button::Button;
use crate::buttons::Buttons;

verus! {

/// A notification that a top button has been pressed or released.
#[derive(Debug, Copy, Clone, PartialEq, Eq, Structural)]
pub struct ButtonEvent {
    // From least significant:
    // 4 bits: the button index of the changed button
    // 10 bits: the currently pressed bits (same as Buttons)
    // 1 bit: if the changed button is pressed
    // 1 bit: unused
    data: u16,
}

/// The index of the changed button, as an event's bits hold it.
pub open spec fn event_button_index(data: u16) -> u16 {
    data & 0xf
}

/// Whether an event's bits mark a press.
pub open spec fn event_is_press(data: u16) -> bool {
    data & 0x4000 != 0
}

/// The buttons pressed at the time of an event, as the event's bits hold them.
pub open spec fn event_pressed_bits(data: u16) -> u16 {
    (data >> 4) & 0x3ff
}

proof fn lemma_event_packing(index: u16, pressed: u16, current: u16)
    by (bit_vector)
    requires
        index < 10,
        pressed < 2,
        current < 1024,
    ensures
        ((index | (pressed << 14) | (current << 4)) & 0xf) == index,
        ((index | (pressed << 14) | (current << 4)) & 0x4000 != 0) == (pressed == 1),
        (((index | (pressed << 14) | (current << 4)) >> 4) & 0x3ff) == current,
        (index | (pressed << 14) | (current << 4)) < 0x8000,
{
}

proof fn lemma_event_fields(data: u16)
    by (bit_vector)
    ensures
        ((data >> 4) & 0x3ff) < 1024,
        (data & 0xf) < 16,
{
}

impl ButtonEvent {
    /// The bits of this event, as [`ButtonEvent::as_u16`] returns them.
    pub closed spec fn spec_data(self) -> u16 {
        self.data
    }

    /// An event for `changed` being pressed (`pressed == true`) or released, at a time when the
    /// buttons of `currently_pressed` are held down.
    #[must_use]
    pub fn new(changed: Button, pressed: bool, currently_pressed: Buttons) -> (e: ButtonEvent)
        ensures
            event_button_index(e.spec_data()) == changed.spec_index(),
            event_is_press(e.spec_data()) == pressed,
            set16(event_pressed_bits(e.spec_data()), 10) == currently_pressed@,
            event_pressed_bits(e.spec_data()) == currently_pressed.spec_bits(),
            e.spec_data() < 0x8000,
    {
        let index = changed.index() as u16;
        let flag: u16 = if pressed {
            1
        } else {
            0
        };
        let current = currently_pressed.as_bitset();
        proof {
            lemma_event_packing(index, flag, current);
        }
        let data = index | flag << 14 | current << 4;
        ButtonEvent { data }
    }

    /// The button whose state changed (i.e. was pressed or released).
    ///
    /// Not defined when the low four bits of the event hold no button index (which only
    /// [`ButtonEvent::from_u16`] can produce): `requires` rules it out.
    #[must_use]
    pub fn button(&self) -> (b: Button)
        requires
            event_button_index(self.spec_data()) < 10,
        ensures
            b.spec_index() == event_button_index(self.spec_data()),
    {
        let index = self.data & 0b1111;
        Button::from_index(index as usize)
    }

    /// Is this event a press event?
    #[must_use]
    pub fn is_pressed(&self) -> (b: bool)
        ensures
            b == event_is_press(self.spec_data()),
    {
        assert(1u16 << 14u16 == 0x4000u16) by (bit_vector);
        (self.data & (1u16 << 14u16)) != 0
    }

    /// Is this event a release event?
    #[must_use]
    pub fn is_released(&self) -> (b: bool)
        ensures
            b == !event_is_press(self.spec_data()),
    {
        !self.is_pressed()
    }

    /// All buttons that were pressed at the time of the event.
    #[must_use]
    pub fn all_currently_pressed(&self) -> (s: Buttons)
        ensures
            s@ == set16(event_pressed_bits(self.spec_data()), 10),
            s.spec_bits() == event_pressed_bits(self.spec_data()),
    {
        proof {
            lemma_event_fields(self.data);
        }
        Buttons::from_bitset((self.data >> 4) & 0b0011_1111_1111)
    }

    /// Represent this event as an u16 value.
    ///
    /// This is useful for making ButtonEvents cross FFIs.
    #[must_use]
    pub fn as_u16(&self) -> (data: u16)
        ensures
            data == self.spec_data(),
    {
        self.data
    }

    /// Make a Button event from a u16 value.
    ///
    /// This is useful for making ButtonEvents cross FFIs.
    pub fn from_u16(data: u16) -> (e: Self)
        ensures
            e.spec_data() == data,
    {
        Self { data }
    }
}

/// An event reports back what it was made from: for an event `e` made by [`ButtonEvent::new`]
/// from `changed`, `pressed` and `current`, the button `b` that [`ButtonEvent::button`] finds is
/// `changed`, the selection `s` that [`ButtonEvent::all_currently_pressed`] finds holds the
/// buttons of `current`, and the event `f` made again from its `u16` form is `e` with the same
/// press flag.
pub proof fn lemma_event_round_trip(
    changed: Button,
    pressed: bool,
    current: Buttons,
    e: ButtonEvent,
    b: Button,
    s: Buttons,
    f: ButtonEvent,
)
    requires
        event_button_index(e.spec_data()) == changed.spec_index(),
        event_is_press(e.spec_data()) == pressed,
        set16(event_pressed_bits(e.spec_data()), 10) == current@,
        b.spec_index() == event_button_index(e.spec_data()),
        s@ == set16(event_pressed_bits(e.spec_data()), 10),
        f.spec_data() == e.spec_data(),
    ensures
        b == changed,
        s@ == current@,
        f == e,
        event_is_press(f.spec_data()) == pressed,
{
}

/// Which kinds of events are reported.
#[derive(Debug, Copy, Clone, PartialEq, Eq, Structural)]
pub enum EventTypeFilter {
    /// Only press events.
    Press,
    /// Only release events.
    Release,
    /// Both press and release events.
    Both,
}

/// Whether `filter` lets an event through whose press flag is `is_press`.
pub open spec fn type_passes(filter: EventTypeFilter, is_press: bool) -> bool {
    match filter {
        EventTypeFilter::Press => is_press,
        EventTypeFilter::Release => !is_press,
        EventTypeFilter::Both => true,
    }
}

/// The decisions of a stream of button events: which events are reported, and the event that was
/// peeked at but not yet consumed.
///
/// The stream itself (receiving raw events, waiting, the clock) belongs to the device layer, which
/// hands each raw event to [`EventFilter::handle_raw`] together with the time it is handled, in
/// nanoseconds on a clock of its choice that does not go back.
pub struct EventFilter {
    peeked_event: Option<ButtonEvent>,
    /// Only report events for buttons that are included
    buttons_filter: Buttons,
    /// only report events that match
    event_type_filter: EventTypeFilter,
    /// Presses that follow a press within this many nanoseconds are not reported.
    press_window: Option<u128>,
    /// When the last press of a button in `buttons_filter` was handled.
    last_press: Option<u128>,
}

impl EventFilter {
    /// The event peeked at and not yet consumed.
    pub closed spec fn spec_peeked(&self) -> Option<ButtonEvent> {
        self.peeked_event
    }

    /// The buttons whose events are reported.
    pub closed spec fn spec_buttons(&self) -> Set<int> {
        self.buttons_filter@
    }

    /// The kinds of events reported.
    pub closed spec fn spec_event_type(&self) -> EventTypeFilter {
        self.event_type_filter
    }

    /// How long after a press further presses are not reported, in nanoseconds, if at all.
    pub closed spec fn spec_press_window(&self) -> Option<u128> {
        self.press_window
    }

    /// When the last press of a reported button was handled, if one was.
    pub closed spec fn spec_last_press(&self) -> Option<u128> {
        self.last_press
    }

    /// Whether `event` passes the button and the press/release filters.
    pub open spec fn reports(&self, event: ButtonEvent) -> bool {
        &&& self.spec_buttons().contains(event_button_index(event.spec_data()) as int)
        &&& type_passes(self.spec_event_type(), event_is_press(event.spec_data()))
    }

    /// Whether a press handled at `now` follows the last press within the press window.
    pub open spec fn within_press_window(&self, now: u128) -> bool {
        &&& self.spec_press_window() is Some
        &&& self.spec_last_press() is Some
        &&& now < self.spec_last_press()->0 + self.spec_press_window()->0
    }

    /// The filter settings and the peeked event are those of `other`.
    pub open spec fn same_settings(&self, other: &EventFilter) -> bool {
        &&& self.spec_buttons() == other.spec_buttons()
        &&& self.spec_event_type() == other.spec_event_type()
        &&& self.spec_press_window() == other.spec_press_window()
        &&& self.spec_last_press() == other.spec_last_press()
    }

    /// Reports every event of every button, and nothing is peeked.
    pub fn new() -> (f: EventFilter)
        ensures
            f.spec_peeked() is None,
            f.spec_buttons() == Set::new(|i: int| 0 <= i < 10),
            f.spec_event_type() == EventTypeFilter::Both,
            f.spec_press_window() is None,
            f.spec_last_press() is None,
    {
        EventFilter {
            peeked_event: None,
            buttons_filter: Buttons::all(),
            event_type_filter: EventTypeFilter::Both,
            press_window: None,
            last_press: None,
        }
    }

    /// Decides on a raw event handled at time `now` (in nanoseconds): returns it when it is to be
    /// reported, `None` when it is filtered out. An event is reported when its button and its
    /// kind pass the filters, unless it is a press that follows the last press within the press
    /// window; release events are never held back by the window. A press of a button that passes
    /// the button filter becomes the last press, whether it is reported or not.
    pub fn handle_raw(&mut self, event: ButtonEvent, now: u128) -> (r: Option<ButtonEvent>)
        requires
            event_button_index(event.spec_data()) < 10,
        ensures
            r is Some <==> old(self).reports(event) && !(event_is_press(event.spec_data())
                && old(self).within_press_window(now)),
            r matches Some(e) ==> e == event,
            final(self).spec_last_press() == if old(self).spec_buttons().contains(
                event_button_index(event.spec_data()) as int,
            ) && event_is_press(event.spec_data()) {
                Some(now)
            } else {
                old(self).spec_last_press()
            },
            final(self).spec_peeked() == old(self).spec_peeked(),
            final(self).spec_buttons() == old(self).spec_buttons(),
            final(self).spec_event_type() == old(self).spec_event_type(),
            final(self).spec_press_window() == old(self).spec_press_window(),
    {
        if !self.buttons_filter.contains(event.button()) {
            return None;
        }
        let is_press = event.is_pressed();
        if is_press {
            let within = match (self.press_window, self.last_press) {
                (Some(window), Some(last)) => now < last || now - last < window,
                _ => false,
            };
            self.last_press = Some(now);
            if within {
                return None;
            }
        }
        match self.event_type_filter {
            EventTypeFilter::Both => Some(event),
            EventTypeFilter::Press => {
                if is_press {
                    Some(event)
                } else {
                    None
                }
            },
            EventTypeFilter::Release => {
                if is_press {
                    None
                } else {
                    Some(event)
                }
            },
        }
    }

    /// Takes the peeked event, if any, to be consumed.
    pub fn take_peeked(&mut self) -> (r: Option<ButtonEvent>)
        ensures
            r == old(self).spec_peeked(),
            final(self).spec_peeked() is None,
            final(self).same_settings(old(self)),
    {
        self.peeked_event.take()
    }

    /// The peeked event, if any, left in place.
    pub fn peeked(&self) -> (r: Option<ButtonEvent>)
        ensures
            r == self.spec_peeked(),
    {
        self.peeked_event
    }

    /// Keeps `event` as the peeked event.
    pub fn set_peeked(&mut self, event: Option<ButtonEvent>)
        ensures
            final(self).spec_peeked() == event,
            final(self).same_settings(old(self)),
    {
        self.peeked_event = event;
    }

    /// Only press events will be reported; a peeked release event is dropped.
    pub fn only_report_press_events(&mut self)
        ensures
            final(self).spec_event_type() == EventTypeFilter::Press,
            final(self).spec_buttons() == old(self).spec_buttons(),
            final(self).spec_press_window() == old(self).spec_press_window(),
            final(self).spec_last_press() == old(self).spec_last_press(),
            final(self).spec_peeked() == match old(self).spec_peeked() {
                Some(e) => if event_is_press(e.spec_data()) {
                    Some(e)
                } else {
                    None
                },
                None => None,
            },
    {
        if let Some(event) = self.peeked_event {
            if event.is_released() {
                self.peeked_event = None;
            }
        }
        self.event_type_filter = EventTypeFilter::Press;
    }

    /// Report both press and release events.
    pub fn report_press_and_release_events(&mut self)
        ensures
            final(self).spec_event_type() == EventTypeFilter::Both,
            final(self).spec_buttons() == old(self).spec_buttons(),
            final(self).spec_press_window() == old(self).spec_press_window(),
            final(self).spec_last_press() == old(self).spec_last_press(),
            final(self).spec_peeked() == old(self).spec_peeked(),
    {
        self.event_type_filter = EventTypeFilter::Both;
    }

    /// Only release events will be reported; a peeked press event is dropped.
    pub fn only_report_release_events(&mut self)
        ensures
            final(self).spec_event_type() == EventTypeFilter::Release,
            final(self).spec_buttons() == old(self).spec_buttons(),
            final(self).spec_press_window() == old(self).spec_press_window(),
            final(self).spec_last_press() == old(self).spec_last_press(),
            final(self).spec_peeked() == match old(self).spec_peeked() {
                Some(e) => if event_is_press(e.spec_data()) {
                    None
                } else {
                    Some(e)
                },
                None => None,
            },
    {
        if let Some(event) = self.peeked_event {
            if event.is_pressed() {
                self.peeked_event = None;
            }
        }
        self.event_type_filter = EventTypeFilter::Release;
    }

    /// If one or more press events (not release events) follow a press event within
    /// `window_nanos` nanoseconds, they are not reported. The peeked event is dropped.
    pub fn ignore_presses_within(&mut self, window_nanos: u128)
        ensures
            final(self).spec_press_window() == Some(window_nanos),
            final(self).spec_peeked() is None,
            final(self).spec_buttons() == old(self).spec_buttons(),
            final(self).spec_event_type() == old(self).spec_event_type(),
            final(self).spec_last_press() == old(self).spec_last_press(),
    {
        self.peeked_event = None;
        self.press_window = Some(window_nanos);
    }

    /// Back to reporting presses however soon they follow each other.
    pub fn remove_press_within_filter(&mut self)
        ensures
            final(self).spec_press_window() is None,
            final(self).spec_peeked() == old(self).spec_peeked(),
            final(self).spec_buttons() == old(self).spec_buttons(),
            final(self).spec_event_type() == old(self).spec_event_type(),
            final(self).spec_last_press() == old(self).spec_last_press(),
    {
        self.press_window = None;
    }

    /// Only events of buttons in `buttons` will be reported; a peeked event of another button is
    /// dropped.
    pub fn filter_by_buttons(&mut self, buttons: Buttons)
        requires
            old(self).spec_peeked() matches Some(e) ==> event_button_index(e.spec_data()) < 10,
        ensures
            final(self).spec_buttons() == buttons@,
            final(self).spec_event_type() == old(self).spec_event_type(),
            final(self).spec_press_window() == old(self).spec_press_window(),
            final(self).spec_last_press() == old(self).spec_last_press(),
            final(self).spec_peeked() == match old(self).spec_peeked() {
                Some(e) => if buttons@.contains(event_button_index(e.spec_data()) as int) {
                    Some(e)
                } else {
                    None
                },
                None => None,
            },
    {
        if let Some(event) = self.peeked_event {
            if !buttons.contains(event.button()) {
                self.peeked_event = None;
            }
        }
        self.buttons_filter = buttons;
    }

    /// Stop filtering by button. This is the same as `filter_by_buttons(Buttons::all())`.
    pub fn remove_button_filter(&mut self)
        requires
            old(self).spec_peeked() matches Some(e) ==> event_button_index(e.spec_data()) < 10,
        ensures
            final(self).spec_buttons() == Set::new(|i: int| 0 <= i < 10),
            final(self).spec_event_type() == old(self).spec_event_type(),
            final(self).spec_press_window() == old(self).spec_press_window(),
            final(self).spec_last_press() == old(self).spec_last_press(),
            final(self).spec_peeked() == old(self).spec_peeked(),
    {
        self.filter_by_buttons(Buttons::all());
    }
}

/// Filtering by buttons and then reporting only presses reports exactly the presses of those
/// buttons: for a filter `f1` left by [`EventFilter::filter_by_buttons`] with `buttons`, and `f2`
/// left by [`EventFilter::only_report_press_events`] on `f1`, an event is reported by `f2`'s
/// filters exactly when its button is in `buttons` and it is a press.
pub proof fn lemma_button_and_press_filters(
    f1: EventFilter,
    f2: EventFilter,
    buttons: Buttons,
    event: ButtonEvent,
)
    requires
        f1.spec_buttons() == buttons@,
        f2.spec_buttons() == f1.spec_buttons(),
        f2.spec_event_type() == EventTypeFilter::Press,
    ensures
        f2.reports(event) <==> buttons@.contains(event_button_index(event.spec_data()) as int)
            && event_is_press(event.spec_data()),
{
}

/// With events filtered by `buttons` and only presses reported, and no press window, the event
/// `r` that [`EventFilter::handle_raw`] returns for a raw event is that event exactly when its
/// button is in `buttons` and it is a press, and nothing otherwise: other events are skipped.
pub proof fn lemma_filtered_presses_reported(
    f: EventFilter,
    buttons: Buttons,
    event: ButtonEvent,
    now: u128,
    r: Option<ButtonEvent>,
)
    requires
        f.spec_buttons() == buttons@,
        f.spec_event_type() == EventTypeFilter::Press,
        f.spec_press_window() is None,
        r is Some <==> f.reports(event) && !(event_is_press(event.spec_data())
            && f.within_press_window(now)),
        r matches Some(e) ==> e == event,
    ensures
        r is Some <==> buttons@.contains(event_button_index(event.spec_data()) as int)
            && event_is_press(event.spec_data()),
        r matches Some(e) ==> e == event,
{
}

/// A release event is never held back by a press window: when its button and its kind pass the
/// filters, the event `r` that [`EventFilter::handle_raw`] returns for it is the release itself,
/// whatever presses came before and whenever it is handled.
pub proof fn lemma_release_passes_window(
    f: EventFilter,
    event: ButtonEvent,
    now: u128,
    r: Option<ButtonEvent>,
)
    requires
        !event_is_press(event.spec_data()),
        f.reports(event),
        r is Some <==> f.reports(event) && !(event_is_press(event.spec_data())
            && f.within_press_window(now)),
        r matches Some(e) ==> e == event,
    ensures
        r == Some(event),
{
}

} // verus!
