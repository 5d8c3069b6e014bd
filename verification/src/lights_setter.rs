//! The colors set on the lights and when they are to be flushed to the hardware.
//!
//! A [`LightsSetter`] keeps the colors last set on each light and whether changes are flushed at
//! once. Each operation returns what has to be sent to the hardware (if anything); the device
//! layer holds the setter, shares it and performs those sends.
use vstd::prelude::*;

use crate::bits::{bit64, set64};
use crate::color::{Color, RGB};
use crate::framebuffer::Framebuffer;
use crate::lights::Lights;

verus! {

/// Low level control over setting the color of lights.
///
/// By default light changes are flushed to the hardware as soon as they are made: each operation
/// then returns the colors to send. Automatic flushing can be disabled via
/// [`pause_auto_flush`][`LightsSetter::pause_auto_flush`] and
/// [`set_auto_flush`][`LightsSetter::set_auto_flush`].
pub struct LightsSetter {
    buffer: Framebuffer<RGB>,
    auto_flush: bool,
}

/// Pauses auto flushing until the guard is released with [`PauseAutoFlushGuard::release`].
pub struct PauseAutoFlushGuard {
    should_reenable: bool,
}

impl PauseAutoFlushGuard {
    /// Whether releasing the guard turns auto flushing back on.
    pub closed spec fn spec_should_reenable(&self) -> bool {
        self.should_reenable
    }

    /// Ends the pause: turns auto flushing back on if it was on when the pause began, and returns
    /// the colors to flush, as all pending light changes are flushed now.
    pub fn release(self, setter: &mut LightsSetter) -> (flush: [RGB; 40])
        ensures
            final(setter).spec_colors() == old(setter).spec_colors(),
            final(setter).spec_auto_flush() == (old(setter).spec_auto_flush()
                || self.spec_should_reenable()),
            flush@ == old(setter).spec_colors(),
    {
        if self.should_reenable {
            setter.set_auto_flush(true);
        }
        setter.flush()
    }
}

impl LightsSetter {
    /// The color currently set on each light, by light index.
    pub closed spec fn spec_colors(&self) -> Seq<RGB> {
        self.buffer.colors@
    }

    /// A setter holds a color for each of the 40 lights.
    pub proof fn lemma_colors_len(&self)
        ensures
            self.spec_colors().len() == 40,
    {
    }

    /// Whether changes are flushed as soon as they are made.
    pub closed spec fn spec_auto_flush(&self) -> bool {
        self.auto_flush
    }

    /// The colors to send after a change: all of them when flushing automatically.
    pub open spec fn flush_after(&self, flush: Option<[RGB; 40]>) -> bool {
        if self.spec_auto_flush() {
            flush matches Some(colors) && colors@ == self.spec_colors()
        } else {
            flush is None
        }
    }

    /// A setter with every light off and automatic flushing on.
    pub fn new() -> (s: LightsSetter)
        ensures
            s.spec_colors() == Seq::new(40, |i: int| RGB::spec_off()),
            s.spec_auto_flush(),
    {
        let s = LightsSetter { buffer: Framebuffer::new(), auto_flush: true };
        assert(s.spec_colors() =~= Seq::new(40, |i: int| RGB::spec_off()));
        s
    }

    /// Sets the color of the specified lights to the given color; returns the colors to flush.
    pub fn set_color(&mut self, selection: Lights, color: RGB) -> (flush: Option<[RGB; 40]>)
        ensures
            final(self).spec_auto_flush() == old(self).spec_auto_flush(),
            final(self).spec_colors().len() == 40,
            forall|i: int|
                0 <= i < 40 ==> #[trigger] final(self).spec_colors()[i] == if selection@.contains(
                    i,
                ) {
                    color
                } else {
                    old(self).spec_colors()[i]
                },
            final(self).flush_after(flush),
    {
        self.buffer.set_color(selection, color);
        self.flush_if_auto()
    }

    /// Sets the color of all the lights to the given colors; returns the colors to flush.
    pub fn set_all_colors(&mut self, colors: &[RGB; 40]) -> (flush: Option<[RGB; 40]>)
        ensures
            final(self).spec_auto_flush() == old(self).spec_auto_flush(),
            final(self).spec_colors() == colors@,
            final(self).flush_after(flush),
    {
        self.buffer.set_all_colors(colors);
        self.flush_if_auto()
    }

    /// Sets colors from the provided array, ignoring any color that is not part of `selection`;
    /// returns the colors to flush.
    pub fn set_colors_on_selection(&mut self, selection: Lights, colors: &[RGB; 40]) -> (flush:
        Option<[RGB; 40]>)
        ensures
            final(self).spec_auto_flush() == old(self).spec_auto_flush(),
            final(self).spec_colors().len() == 40,
            forall|i: int|
                0 <= i < 40 ==> #[trigger] final(self).spec_colors()[i] == if selection@.contains(
                    i,
                ) {
                    colors[i]
                } else {
                    old(self).spec_colors()[i]
                },
            final(self).flush_after(flush),
    {
        let bits = selection.as_bitset();
        let mut i: u64 = 0;
        while i < 40
            invariant
                i <= 40,
                set64(bits, 40) == selection@,
                self.auto_flush == old(self).auto_flush,
                forall|j: int|
                    0 <= j < 40 ==> #[trigger] self.buffer.colors[j] == if j < i
                        && selection@.contains(j) {
                        colors[j]
                    } else {
                        old(self).buffer.colors[j]
                    },
            decreases 40 - i,
        {
            if (bits >> i) & 1 == 1 {
                self.buffer.colors[i as usize] = colors[i as usize];
            }
            proof {
                assert(selection@.contains(i as int) == bit64(bits, i as int));
            }
            i = i + 1;
        }
        self.flush_if_auto()
    }

    /// Set each light in `selection` to the corresponding color in `colors`: the lowest light in
    /// `selection` gets `colors[0]`, the next `colors[1]`, up to `selection.len().min(colors.len())`;
    /// returns the colors to flush.
    pub fn set_colors_on(&mut self, selection: Lights, colors: &[RGB]) -> (flush: Option<[RGB; 40]>)
        ensures
            final(self).spec_auto_flush() == old(self).spec_auto_flush(),
            final(self).spec_colors().len() == 40,
            forall|k: int|
                0 <= k < selection.index_seq().len() && k < colors.len()
                    ==> #[trigger] final(self).spec_colors()[selection.index_seq()[k]] == colors[k],
            forall|i: int|
                0 <= i < 40 && !(exists|k: int|
                    0 <= k < selection.index_seq().len() && k < colors.len()
                        && selection.index_seq()[k] == i) ==> #[trigger] final(self).spec_colors()[i]
                    == old(self).spec_colors()[i],
            final(self).flush_after(flush),
    {
        let mut it = selection.indices();
        let count = selection.len() as usize;
        let ghost order = selection.index_seq();
        let mut k: usize = 0;
        proof {
            selection.lemma_view_facts();
        }
        while k < colors.len() && k < count
            invariant
                k <= colors.len(),
                k <= count,
                count == order.len(),
                order == selection.index_seq(),
                order.no_duplicates(),
                forall|l: int| 0 <= l < order.len() ==> 0 <= #[trigger] order[l] < 40,
                it@ == order.subrange(k as int, order.len() as int),
                self.auto_flush == old(self).auto_flush,
                forall|l: int| 0 <= l < k ==> #[trigger] self.buffer.colors[order[l]] == colors[l],
                forall|i: int|
                    0 <= i < 40 && !(exists|l: int| 0 <= l < k && order[l] == i) ==> #[trigger] self.buffer.colors[i]
                        == old(self).buffer.colors[i],
            decreases colors.len() - k,
        {
            let ghost target = order[k as int];
            if let Some(light_idx) = it.next() {
                assert(light_idx == target);
                self.buffer.colors[light_idx] = colors[k];
                proof {
                    assert(it@ =~= order.subrange(k + 1, order.len() as int));
                    assert forall|l: int| 0 <= l < k + 1 implies #[trigger] self.buffer.colors[order[l]]
                        == colors[l] by {
                        if l < k {
                            assert(order[l] != order[k as int]);
                        }
                    }
                    assert forall|i: int|
                        0 <= i < 40 && !(exists|l: int| 0 <= l < k + 1 && order[l] == i) implies #[trigger] self.buffer.colors[i]
                        == old(self).buffer.colors[i] by {
                        assert(order[k as int] != i);
                        if exists|l: int| 0 <= l < k && order[l] == i {
                            let l = choose|l: int| 0 <= l < k && order[l] == i;
                            assert(0 <= l < k + 1 && order[l] == i);
                        }
                    }
                }
            }
            k = k + 1;
        }
        self.flush_if_auto()
    }

    /// Sets each light to what `blend_fn` makes of the light's index, its color currently set and
    /// the color of `rhs` at that light, with auto flushing paused meanwhile, and returns the
    /// colors to flush: all of them, once, whatever the auto-flush setting, which is left as it
    /// was.
    pub fn flush_blend<D: Color, W: Fn(usize, RGB, D) -> RGB>(
        &mut self,
        rhs: &Framebuffer<D>,
        blend_fn: W,
    ) -> (flush: [RGB; 40])
        requires
            forall|i: usize|
                i < 40 ==> #[trigger] blend_fn.requires(
                    (i, old(self).spec_colors()[i as int], rhs.colors[i as int]),
                ),
        ensures
            final(self).spec_auto_flush() == old(self).spec_auto_flush(),
            final(self).spec_colors().len() == 40,
            forall|i: usize|
                i < 40 ==> #[trigger] blend_fn.ensures(
                    (i, old(self).spec_colors()[i as int], rhs.colors[i as int]),
                    final(self).spec_colors()[i as int],
                ),
            flush@ == final(self).spec_colors(),
    {
        let current = self.get_currently_set();
        let combined = current.combine(rhs, blend_fn);
        let guard = self.pause_auto_flush();
        let _ = self.set_all_colors(&combined.colors);
        guard.release(self)
    }

    /// The colors to send to the hardware to flush all pending color changes.
    pub fn flush(&self) -> (colors: [RGB; 40])
        ensures
            colors@ == self.spec_colors(),
    {
        self.buffer.colors
    }

    fn flush_if_auto(&self) -> (flush: Option<[RGB; 40]>)
        ensures
            self.flush_after(flush),
    {
        if self.auto_flush {
            Some(self.flush())
        } else {
            None
        }
    }

    /// Enable or disable auto flushing of color changes to the hardware.
    pub fn set_auto_flush(&mut self, v: bool)
        ensures
            final(self).spec_auto_flush() == v,
            final(self).spec_colors() == old(self).spec_colors(),
    {
        self.auto_flush = v;
    }

    /// Return the currently set colors.
    ///
    /// These colors may or may not have been flushed to the hardware.
    pub fn get_currently_set(&self) -> (fb: Framebuffer<RGB>)
        ensures
            fb.colors@ == self.spec_colors(),
    {
        Framebuffer { colors: self.buffer.colors }
    }

    /// Turn off auto flushing until the returned guard is released. When the guard is released all
    /// pending light changes are flushed. If autoflush was on when this function was called it
    /// will be reenabled unconditionally.
    #[must_use]
    pub fn pause_auto_flush(&mut self) -> (guard: PauseAutoFlushGuard)
        ensures
            !final(self).spec_auto_flush(),
            final(self).spec_colors() == old(self).spec_colors(),
            guard.spec_should_reenable() == old(self).spec_auto_flush(),
    {
        let should_reenable = self.auto_flush;
        self.auto_flush = false;
        PauseAutoFlushGuard { should_reenable }
    }
}

/// While auto flushing is paused, each setter operation (all of them keep the setting and return
/// what [`LightsSetter::flush_after`] says) returns nothing to flush, and the pause goes on; so no
/// change reaches the hardware until the guard is released, which flushes once (see
/// [`lemma_pause_restores`]).
pub proof fn lemma_paused_setter_does_not_flush(
    before: LightsSetter,
    after: LightsSetter,
    flush: Option<[RGB; 40]>,
)
    requires
        !before.spec_auto_flush(),
        after.spec_auto_flush() == before.spec_auto_flush(),
        after.flush_after(flush),
    ensures
        flush is None,
        !after.spec_auto_flush(),
{
}

/// Pausing auto flushing and later releasing the guard, with auto flushing left off in between,
/// turns it back to what it was before the pause; the release flushes the colors set by then.
pub proof fn lemma_pause_restores(
    before: LightsSetter,
    guard: PauseAutoFlushGuard,
    at_release: LightsSetter,
    after: LightsSetter,
    flushed: Seq<RGB>,
)
    requires
        guard.spec_should_reenable() == before.spec_auto_flush(),
        !at_release.spec_auto_flush(),
        after.spec_auto_flush() == (at_release.spec_auto_flush() || guard.spec_should_reenable()),
        after.spec_colors() == at_release.spec_colors(),
        flushed == at_release.spec_colors(),
    ensures
        after.spec_auto_flush() == before.spec_auto_flush(),
        flushed == after.spec_colors(),
{
}

} // verus!
