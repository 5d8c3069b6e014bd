//! Pieces for device and framework implementers: the button press counts that the device keeps.
use vstd::prelude::*;

use crate::button::Button;
use crate::buttons::Buttons;

verus! {

/// Counts button presses with wrapping. Used to detect press changes.
///
/// An odd count means the button is pressed, an even count that it is released. `u16` is small
/// enough that wrapping has to be considered.
#[derive(Debug, Copy, Clone)]
pub struct ButtonCounts {
    counts: [u16; 10],
}

/// Odd counts are press. Even counts are released.
pub open spec fn is_press_count(count: u16) -> bool {
    count % 2 == 1
}

proof fn lemma_odd(count: u16)
    by (bit_vector)
    ensures
        (count & 1 == 1) == (count % 2 == 1),
{
}

/// Odd counts are press. Even counts are released.
fn count_is_press(count: u16) -> (b: bool)
    ensures
        b == is_press_count(count),
{
    proof {
        lemma_odd(count);
    }
    count & 1 == 1
}

impl View for ButtonCounts {
    type V = Seq<u16>;

    /// The count of each button, by index.
    closed spec fn view(&self) -> Seq<u16> {
        self.counts@
    }
}

impl Default for ButtonCounts {
    /// All counts at zero: every button released.
    fn default() -> (c: ButtonCounts)
        ensures
            c@ == Seq::new(10, |i: int| 0u16),
    {
        let c = ButtonCounts { counts: [0u16; 10] };
        assert(c@ =~= Seq::new(10, |i: int| 0u16));
        c
    }
}

impl ButtonCounts {
    /// Increment the count for `button`, once more if needed so that it is odd for a press and
    /// even for a release.
    pub fn update_for_event(&mut self, button: Button, is_press: bool)
        ensures
            final(self)@.len() == 10,
            is_press_count(final(self)@[button.spec_index()]) == is_press,
            final(self)@[button.spec_index()] == (old(self)@[button.spec_index()] + 1) % 0x10000
                || final(self)@[button.spec_index()] == (old(self)@[button.spec_index()] + 2)
                % 0x10000,
            forall|i: int|
                0 <= i < 10 && i != button.spec_index() ==> #[trigger] final(self)@[i] == old(
                    self,
                )@[i],
    {
        let i = button.index();
        let mut count = self.counts[i];
        count = count.wrapping_add(1);
        let count_is_press = count_is_press(count);
        if is_press != count_is_press {
            count = count.wrapping_add(1);
        }
        self.counts[i] = count;
    }

    /// Return true if `button` is currently pressed according to the counts.
    #[must_use]
    pub fn is_pressed(&self, button: Button) -> (b: bool)
        ensures
            b == is_press_count(self@[button.spec_index()]),
    {
        count_is_press(self.counts[button.index()])
    }

    /// Return all `Buttons` currently pressed according to the counts.
    #[must_use]
    pub fn currently_pressed(&self) -> (s: Buttons)
        ensures
            s@ == Set::new(|i: int| 0 <= i < 10 && is_press_count(self@[i])),
    {
        let mut is_presses = [false; 10];
        let mut i: usize = 0;
        while i < 10
            invariant
                i <= 10,
                forall|j: int| 0 <= j < i ==> #[trigger] is_presses[j] == is_press_count(self@[j]),
            decreases 10 - i,
        {
            let pressed = count_is_press(self.counts[i]);
            is_presses[i] = pressed;
            i = i + 1;
        }
        let s = Buttons::from_slice(&is_presses);
        assert(s@ =~= Set::new(|i: int| 0 <= i < 10 && is_press_count(self@[i])));
        s
    }
}

/// After an event is counted, the counts report the button as pressed exactly when the event was
/// a press, and every other button as before.
pub proof fn lemma_counts_follow_events(
    before: Seq<u16>,
    after: Seq<u16>,
    button: Button,
    is_press: bool,
)
    requires
        before.len() == 10,
        after.len() == 10,
        is_press_count(after[button.spec_index()]) == is_press,
        forall|i: int| 0 <= i < 10 && i != button.spec_index() ==> #[trigger] after[i] == before[i],
    ensures
        Set::new(|i: int| 0 <= i < 10 && is_press_count(after[i])) == if is_press {
            Set::new(|i: int| 0 <= i < 10 && is_press_count(before[i])).insert(button.spec_index())
        } else {
            Set::new(|i: int| 0 <= i < 10 && is_press_count(before[i])).remove(button.spec_index())
        },
{
    let a = Set::new(|i: int| 0 <= i < 10 && is_press_count(after[i]));
    let b = Set::new(|i: int| 0 <= i < 10 && is_press_count(before[i]));
    if is_press {
        assert(a =~= b.insert(button.spec_index()));
    } else {
        assert(a =~= b.remove(button.spec_index()));
    }
}

} // verus!
