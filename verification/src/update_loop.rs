//! The [`Updatable`] trait and ways to combine [`Updatable`s][Updatable]: in series, in parallel,
//! or waiting a while.
use vstd::prelude::*;

use std::time::Duration;

use crate::color::{Color, RGB};
use crate::lights::Lights;
use crate::lights_setter::{LightsSetter, PauseAutoFlushGuard};

verus! {

/// Represents control flow for Update loops in the `run` function.
#[derive(PartialEq, Eq, Debug, Clone, Copy, Structural)]
pub enum LoopControlFlow {
    /// Updatable should be called again after the next time delta.
    Continue,
    /// Updatable is complete and should not be called again.
    Break,
}

/// An `Updatable` expects to have `update` called at a desired fixed (but not guaranteed) "frame"
/// rate, until it returns [`LoopControlFlow::Break`].
pub trait Updatable {
    /// Called each interval (e.g. frame) to update the object.
    ///
    /// `delta_time` is the actual time that has passed since the previous update was called. It
    /// might be longer than the frame rate if, for example, the CPU has been very busy or if
    /// updates have been paused.
    ///
    /// The flow returned is one that [`Updatable::update_allows`] allows for `delta_time`.
    fn update(&mut self, delta_time: Duration) -> (flow: LoopControlFlow)
        ensures
            old(self).update_allows(delta_time, flow),
    ;

    /// Whether updating this updatable by `delta_time` may return `flow`: the flows its `update`
    /// can give after that much time. The updatables of this library say what their updates
    /// return; an implementation that says nothing allows every flow.
    open spec fn update_allows(&self, delta_time: Duration, flow: LoopControlFlow) -> bool {
        true
    }
}

impl Updatable for Box<dyn Updatable> {
    /// Updates the boxed updatable.
    fn update(&mut self, delta_time: Duration) -> (flow: LoopControlFlow) {
        (**self).update(delta_time)
    }

    /// What the boxed updatable's update may return.
    open spec fn update_allows(&self, delta_time: Duration, flow: LoopControlFlow) -> bool {
        (**self).update_allows(delta_time, flow)
    }
}

/// Run Updatables in series.
pub struct InSeries<U: Updatable = Box<dyn Updatable>> {
    // Executes last to first
    updatables: Vec<U>,
}

impl<U: Updatable> InSeries<U> {
    /// The updatables still to run, the one running now last.
    pub closed spec fn spec_pending(&self) -> Seq<U> {
        self.updatables@
    }

    /// Run each updatable one after the other, moving to the next when `LoopControlFlow::Break`
    /// is returned.
    #[must_use]
    pub fn new(updatables: Vec<U>) -> (s: InSeries<U>)
        ensures
            s.spec_pending() == updatables@.reverse(),
    {
        let ghost given = updatables@;
        let mut rest = updatables;
        let mut reversed: Vec<U> = Vec::new();
        while rest.len() > 0
            invariant
                given == rest@ + reversed@.reverse(),
            decreases rest.len(),
        {
            let ghost before_rest = rest@;
            let ghost before_rev = reversed@;
            let u = rest.pop().unwrap();
            proof {
                assert(before_rest =~= rest@.push(u));
            }
            reversed.push(u);
            proof {
                assert(reversed@.reverse() =~= seq![u] + before_rev.reverse());
                assert(given =~= rest@ + reversed@.reverse());
            }
        }
        proof {
            assert(given =~= reversed@.reverse());
            assert(reversed@ =~= given.reverse());
        }
        InSeries { updatables: reversed }
    }
}

impl<U: Updatable> InSeries<U> {
    /// Settles the updatable `running`, taken off the end of the pending list and updated, by the
    /// flow `flow` it returned: it goes back to the end of the list to run again when it
    /// continues, and is dropped, so that the next one runs, when it breaks. The series itself
    /// continues.
    pub fn settle(&mut self, running: U, flow: LoopControlFlow) -> (r: LoopControlFlow)
        ensures
            r == LoopControlFlow::Continue,
            flow == LoopControlFlow::Continue ==> final(self).spec_pending() == old(self).spec_pending().push(running),
            flow == LoopControlFlow::Break ==> final(self).spec_pending() == old(self).spec_pending(),
    {
        match flow {
            LoopControlFlow::Continue => {
                self.updatables.push(running);
            },
            LoopControlFlow::Break => {},
        }
        LoopControlFlow::Continue
    }
}

impl<U: Updatable> Updatable for InSeries<U> {
    /// Updates the updatable running now (the last pending one) and settles it with
    /// [`InSeries::settle`]: it stays when it continues and is dropped when it breaks. Breaks once
    /// none is left.
    fn update(&mut self, delta_time: Duration) -> (flow: LoopControlFlow)
        ensures
            old(self).spec_pending().len() == 0 ==> flow == LoopControlFlow::Break
                && final(self).spec_pending() == old(self).spec_pending(),
            old(self).spec_pending().len() > 0 ==> flow == LoopControlFlow::Continue,
            old(self).spec_pending().len() > 0 ==> exists|f: LoopControlFlow|
                #[trigger] old(self).spec_pending().last().update_allows(delta_time, f) && (f
                    == LoopControlFlow::Continue ==> final(self).spec_pending().len() == old(
                    self).spec_pending().len() && final(self).spec_pending().drop_last() == old(
                    self).spec_pending().drop_last()) && (f == LoopControlFlow::Break ==> final(
                    self).spec_pending() == old(self).spec_pending().drop_last()),
    {
        let ghost before = self.updatables@;
        if self.updatables.len() == 0 {
            return LoopControlFlow::Break;
        }
        let mut running = self.updatables.pop().unwrap();
        let res = running.update(delta_time);
        let r = self.settle(running, res);
        proof {
            assert(before.drop_last() =~= self.updatables@.drop_last() || res
                == LoopControlFlow::Break);
            assert(before.last().update_allows(delta_time, res));
        }
        r
    }

    /// An empty series breaks at once; otherwise it continues.
    open spec fn update_allows(&self, delta_time: Duration, flow: LoopControlFlow) -> bool {
        (flow == LoopControlFlow::Break) == (self.spec_pending().len() == 0)
    }
}

/// Run Updatables in parallel.
pub struct InParallel<U: Updatable = Box<dyn Updatable>> {
    updatables: Vec<U>,
}

impl<U: Updatable> InParallel<U> {
    /// The updatables still running, in the order they are updated.
    pub closed spec fn spec_running(&self) -> Seq<U> {
        self.updatables@
    }

    /// Run all updatables at the same time. For each frame they are run in order. An updatable is
    /// removed after it returns Break.
    #[must_use]
    pub fn new(updatables: Vec<U>) -> (p: InParallel<U>)
        ensures
            p.spec_running() == updatables@,
    {
        InParallel { updatables }
    }
}

/// The entries of `us` whose flow in `flows` (at the same position) is
/// [`LoopControlFlow::Continue`], in their order.
pub open spec fn continuing<U>(us: Seq<U>, flows: Seq<LoopControlFlow>) -> Seq<U>
    decreases us.len(),
{
    if us.len() == 0 {
        Seq::empty()
    } else {
        let rest = continuing(us.drop_last(), flows.take(us.len() - 1));
        if flows[us.len() - 1] == LoopControlFlow::Continue {
            rest.push(us.last())
        } else {
            rest
        }
    }
}

/// The entries kept are never more than those given.
pub proof fn lemma_continuing_len<U>(us: Seq<U>, flows: Seq<LoopControlFlow>)
    ensures
        continuing(us, flows).len() <= us.len(),
    decreases us.len(),
{
    if us.len() > 0 {
        lemma_continuing_len(us.drop_last(), flows.take(us.len() - 1));
    }
}

/// Keeps, in order, the `updatables` whose flow in `flows` (at the same position) is
/// [`LoopControlFlow::Continue`], and drops those that returned [`LoopControlFlow::Break`].
pub fn keep_continuing<U>(updatables: Vec<U>, flows: Vec<LoopControlFlow>) -> (kept: Vec<U>)
    requires
        updatables.len() == flows.len(),
    ensures
        kept@ == continuing(updatables@, flows@),
{
    let ghost us = updatables@;
    let ghost fs = flows@;
    let n: usize = updatables.len();
    let mut src = updatables;
    let mut rest: Vec<U> = Vec::new();
    while src.len() > 0
        invariant
            us == src@ + rest@.reverse(),
        decreases src.len(),
    {
        let ghost before_src = src@;
        let ghost before_rest = rest@;
        let u = src.pop().unwrap();
        proof {
            assert(before_src =~= src@.push(u));
        }
        rest.push(u);
        proof {
            assert(rest@.reverse() =~= seq![u] + before_rest.reverse());
            assert(us =~= src@ + rest@.reverse());
        }
    }
    proof {
        assert(us =~= rest@.reverse());
    }
    let mut kept: Vec<U> = Vec::new();
    let mut i: usize = 0;
    while rest.len() > 0
        invariant
            i + rest.len() == us.len(),
            us.len() == n,
            fs.len() == us.len(),
            flows@ == fs,
            forall|k: int| 0 <= k < rest.len() ==> #[trigger] rest@[k] == us[us.len() - 1 - k],
            kept@ == continuing(us.take(i as int), fs.take(i as int)),
        decreases rest.len(),
    {
        let ghost before_rest = rest@;
        let u = rest.pop().unwrap();
        proof {
            assert(u == before_rest[before_rest.len() - 1]);
            assert(u == us[i as int]);
            assert forall|k: int| 0 <= k < rest.len() implies #[trigger] rest@[k] == us[us.len() - 1
                - k] by {
                assert(rest@[k] == before_rest[k]);
            }
        }
        let ghost before_kept = kept@;
        if flows[i] == LoopControlFlow::Continue {
            kept.push(u);
        }
        proof {
            let t = us.take(i + 1);
            assert(t.drop_last() =~= us.take(i as int));
            assert(fs.take(i + 1).take(i as int) =~= fs.take(i as int));
            assert(t.last() == us[i as int]);
            assert(fs.take(i + 1)[i as int] == fs[i as int]);
        }
        i = i + 1;
    }
    proof {
        assert(us.take(i as int) =~= us);
        assert(fs.take(i as int) =~= fs);
    }
    kept
}

impl<U: Updatable> Updatable for InParallel<U> {
    /// Updates every updatable in order and keeps, in order, those that continue (with
    /// [`keep_continuing`]); breaks once none is left.
    ///
    /// What each updatable becomes and returns is up to its own `update`, so the contract says
    /// that the updatables left are those of the updated list whose flow was Continue, in order.
    fn update(&mut self, delta_time: Duration) -> (flow: LoopControlFlow)
        ensures
            exists|updated: Seq<U>, flows: Seq<LoopControlFlow>|
                #![trigger continuing(updated, flows)]
                updated.len() == old(self).spec_running().len() && flows.len()
                    == updated.len() && (forall|i: int|
                    0 <= i < flows.len() ==> #[trigger] old(self).spec_running()[i].update_allows(
                        delta_time,
                        flows[i],
                    )) && final(self).spec_running() == continuing(updated, flows),
            final(self).spec_running().len() <= old(self).spec_running().len(),
            (flow == LoopControlFlow::Break) == (final(self).spec_running().len() == 0),
    {
        let ghost olds = self.updatables@;
        let ghost n = self.updatables.len();
        let mut rest: Vec<U> = Vec::new();
        while self.updatables.len() > 0
            invariant
                olds == self.updatables@ + rest@.reverse(),
                n == olds.len(),
            decreases self.updatables.len(),
        {
            let ghost before_src = self.updatables@;
            let ghost before_rest = rest@;
            let u = self.updatables.pop().unwrap();
            proof {
                assert(before_src =~= self.updatables@.push(u));
            }
            rest.push(u);
            proof {
                assert(rest@.reverse() =~= seq![u] + before_rest.reverse());
                assert(olds =~= self.updatables@ + rest@.reverse());
            }
        }
        proof {
            assert(olds =~= rest@.reverse());
        }
        let mut updated: Vec<U> = Vec::new();
        let mut flows: Vec<LoopControlFlow> = Vec::new();
        while rest.len() > 0
            invariant
                updated.len() == flows.len(),
                updated.len() + rest.len() == n,
                n == olds.len(),
                forall|k: int| 0 <= k < rest.len() ==> #[trigger] rest@[k] == olds[n - 1 - k],
                forall|j: int|
                    0 <= j < flows.len() ==> #[trigger] olds[j].update_allows(
                        delta_time,
                        flows@[j],
                    ),
            decreases rest.len(),
        {
            let ghost before_rest = rest@;
            let ghost i = updated.len() as int;
            let mut u = rest.pop().unwrap();
            proof {
                assert(u == olds[i]);
                assert forall|k: int| 0 <= k < rest.len() implies #[trigger] rest@[k] == olds[n - 1
                    - k] by {
                    assert(rest@[k] == before_rest[k]);
                }
            }
            let f = u.update(delta_time);
            updated.push(u);
            flows.push(f);
        }
        let ghost us = updated@;
        let ghost fs = flows@;
        let kept = keep_continuing(updated, flows);
        proof {
            lemma_continuing_len(us, fs);
            assert(kept@ == continuing(us, fs));
        }
        self.updatables = kept;
        if self.updatables.len() == 0 {
            LoopControlFlow::Break
        } else {
            LoopControlFlow::Continue
        }
    }

    /// With nothing running, it breaks at once.
    open spec fn update_allows(&self, delta_time: Duration, flow: LoopControlFlow) -> bool {
        self.spec_running().len() == 0 ==> flow == LoopControlFlow::Break
    }
}

/// The total number of whole nanoseconds in `d`, as `Duration::as_nanos` returns it: a function
/// of `d` alone.
pub uninterp spec fn duration_nanos(d: Duration) -> u128;

/// The length of `d` in whole nanoseconds, from `Duration::as_nanos`; the contract names the
/// result [`duration_nanos`] of `d`.
#[verifier::external_body]
fn duration_as_nanos(d: &Duration) -> (n: u128)
    ensures
        n == duration_nanos(*d),
{
    d.as_nanos()
}

/// Returns [`LoopControlFlow::Break`] after a specified time has elapsed when run.
/// Does not provide precise timing.
///
/// The time left is kept in whole nanoseconds, the precision of a `Duration`, so taking time off
/// it is exact.
pub struct DoNothingFor {
    remaining_nanos: u128,
}

impl DoNothingFor {
    /// The time left, in nanoseconds.
    pub closed spec fn spec_remaining(&self) -> nat {
        self.remaining_nanos as nat
    }

    /// Returns a [`DoNothingFor`] that will return [`LoopControlFlow::Break`] after at least
    /// `time` has elapsed.
    #[must_use]
    pub fn new(time: Duration) -> (w: DoNothingFor)
        ensures
            w.spec_remaining() == duration_nanos(time),
    {
        DoNothingFor::from_nanos(duration_as_nanos(&time))
    }

    /// Returns a [`DoNothingFor`] that will return [`LoopControlFlow::Break`] after at least
    /// `nanos` nanoseconds have elapsed.
    #[must_use]
    pub fn from_nanos(nanos: u128) -> (w: DoNothingFor)
        ensures
            w.spec_remaining() == nanos,
    {
        DoNothingFor { remaining_nanos: nanos }
    }

    /// The time left, in nanoseconds.
    #[must_use]
    pub fn remaining_nanos(&self) -> (n: u128)
        ensures
            n == self.spec_remaining(),
    {
        self.remaining_nanos
    }

    /// Takes `elapsed_nanos` off the time left (stopping at zero), and breaks once none is left.
    pub fn advance(&mut self, elapsed_nanos: u128) -> (flow: LoopControlFlow)
        ensures
            final(self).spec_remaining() == if elapsed_nanos < old(self).spec_remaining() {
                old(self).spec_remaining() - elapsed_nanos
            } else {
                0
            },
            (flow == LoopControlFlow::Break) == (final(self).spec_remaining() == 0),
    {
        self.remaining_nanos = self.remaining_nanos.saturating_sub(elapsed_nanos);
        if self.remaining_nanos == 0 {
            LoopControlFlow::Break
        } else {
            LoopControlFlow::Continue
        }
    }
}

impl Updatable for DoNothingFor {
    /// Takes `delta_time` off the remaining time (stopping at zero) and breaks once none is left.
    fn update(&mut self, delta_time: Duration) -> (flow: LoopControlFlow)
        ensures
            final(self).spec_remaining() == if duration_nanos(delta_time) < old(
                self,
            ).spec_remaining() {
                old(self).spec_remaining() - duration_nanos(delta_time)
            } else {
                0
            },
            (flow == LoopControlFlow::Break) == (final(self).spec_remaining() == 0),
    {
        let elapsed = duration_as_nanos(&delta_time);
        self.advance(elapsed)
    }

    /// It breaks exactly when `delta_time` uses up the time left.
    open spec fn update_allows(&self, delta_time: Duration, flow: LoopControlFlow) -> bool {
        (flow == LoopControlFlow::Break) == (self.spec_remaining() <= duration_nanos(delta_time))
    }
}

/// A series passes its delta time to the updatable running now: when that is a wait
/// ([`DoNothingFor`]) which `delta_time` uses up, it is dropped and the next one runs; otherwise
/// it stays. `before`, `after` and `flow` are a series with something pending, the series after
/// [`Updatable::update`] by `delta_time`, and what that returned.
pub proof fn lemma_series_passes_delta_time(
    before: InSeries<DoNothingFor>,
    after: InSeries<DoNothingFor>,
    delta_time: Duration,
    flow: LoopControlFlow,
)
    requires
        before.spec_pending().len() > 0,
        flow == LoopControlFlow::Continue,
        exists|f: LoopControlFlow|
            #[trigger] before.spec_pending().last().update_allows(delta_time, f) && (f
                == LoopControlFlow::Continue ==> after.spec_pending().len()
                == before.spec_pending().len() && after.spec_pending().drop_last()
                == before.spec_pending().drop_last()) && (f == LoopControlFlow::Break
                ==> after.spec_pending() == before.spec_pending().drop_last()),
    ensures
        before.spec_pending().last().spec_remaining() <= duration_nanos(delta_time)
            ==> after.spec_pending() == before.spec_pending().drop_last(),
        before.spec_pending().last().spec_remaining() > duration_nanos(delta_time)
            ==> after.spec_pending().len() == before.spec_pending().len()
            && after.spec_pending().drop_last() == before.spec_pending().drop_last(),
{
    let f = choose|f: LoopControlFlow|
        #[trigger] before.spec_pending().last().update_allows(delta_time, f) && (f
            == LoopControlFlow::Continue ==> after.spec_pending().len()
            == before.spec_pending().len() && after.spec_pending().drop_last()
            == before.spec_pending().drop_last()) && (f == LoopControlFlow::Break
            ==> after.spec_pending() == before.spec_pending().drop_last());
    assert(before.spec_pending().last().update_allows(delta_time, f));
}

/// Keeping the entries whose flow is Continue keeps all of them when every flow is Continue, and
/// none when every flow is Break.
pub proof fn lemma_continuing_all<U>(us: Seq<U>, flows: Seq<LoopControlFlow>)
    requires
        flows.len() == us.len(),
    ensures
        (forall|i: int| 0 <= i < flows.len() ==> #[trigger] flows[i] == LoopControlFlow::Continue)
            ==> continuing(us, flows) == us,
        (forall|i: int| 0 <= i < flows.len() ==> #[trigger] flows[i] == LoopControlFlow::Break)
            ==> continuing(us, flows).len() == 0,
    decreases us.len(),
{
    if us.len() > 0 {
        let fs = flows.take(us.len() - 1);
        lemma_continuing_all(us.drop_last(), fs);
        if forall|i: int| 0 <= i < flows.len() ==> #[trigger] flows[i] == LoopControlFlow::Continue {
            assert forall|i: int| 0 <= i < fs.len() implies #[trigger] fs[i]
                == LoopControlFlow::Continue by {
                assert(fs[i] == flows[i]);
            }
            assert(us.drop_last().push(us.last()) =~= us);
        }
        if forall|i: int| 0 <= i < flows.len() ==> #[trigger] flows[i] == LoopControlFlow::Break {
            assert forall|i: int| 0 <= i < fs.len() implies #[trigger] fs[i]
                == LoopControlFlow::Break by {
                assert(fs[i] == flows[i]);
            }
        }
    }
}

/// Running waits in parallel passes the delta time to each of them: when `delta_time` uses up
/// every wait, all of them are removed and the group breaks; when it uses up none, all of them
/// stay. `before`, `after` and `flow` are a group, the group after [`Updatable::update`] by
/// `delta_time`, and what that returned.
pub proof fn lemma_parallel_passes_delta_time(
    before: InParallel<DoNothingFor>,
    after: InParallel<DoNothingFor>,
    delta_time: Duration,
    flow: LoopControlFlow,
)
    requires
        exists|updated: Seq<DoNothingFor>, flows: Seq<LoopControlFlow>|
            #![trigger continuing(updated, flows)]
            updated.len() == before.spec_running().len() && flows.len() == updated.len() && (forall|i: int|
                0 <= i < flows.len() ==> #[trigger] before.spec_running()[i].update_allows(
                    delta_time,
                    flows[i],
                )) && after.spec_running() == continuing(updated, flows),
        (flow == LoopControlFlow::Break) == (after.spec_running().len() == 0),
    ensures
        (forall|i: int|
            0 <= i < before.spec_running().len() ==> #[trigger] before.spec_running()[i].spec_remaining()
                <= duration_nanos(delta_time)) ==> after.spec_running().len() == 0 && flow
            == LoopControlFlow::Break,
        (forall|i: int|
            0 <= i < before.spec_running().len() ==> #[trigger] before.spec_running()[i].spec_remaining()
                > duration_nanos(delta_time)) ==> after.spec_running().len()
            == before.spec_running().len(),
{
    let (updated, flows) = choose|updated: Seq<DoNothingFor>, flows: Seq<LoopControlFlow>|
        #![trigger continuing(updated, flows)]
        updated.len() == before.spec_running().len() && flows.len() == updated.len() && (forall|i: int|
            0 <= i < flows.len() ==> #[trigger] before.spec_running()[i].update_allows(
                delta_time,
                flows[i],
            )) && after.spec_running() == continuing(updated, flows);
    lemma_continuing_all(updated, flows);
    if forall|i: int|
        0 <= i < before.spec_running().len() ==> #[trigger] before.spec_running()[i].spec_remaining()
            <= duration_nanos(delta_time) {
        assert forall|i: int| 0 <= i < flows.len() implies #[trigger] flows[i]
            == LoopControlFlow::Break by {
            assert(before.spec_running()[i].update_allows(delta_time, flows[i]));
        }
    }
    if forall|i: int|
        0 <= i < before.spec_running().len() ==> #[trigger] before.spec_running()[i].spec_remaining()
            > duration_nanos(delta_time) {
        assert forall|i: int| 0 <= i < flows.len() implies #[trigger] flows[i]
            == LoopControlFlow::Continue by {
            assert(before.spec_running()[i].update_allows(delta_time, flows[i]));
        }
    }
}

/// The time between two frames at `frames_per_second`, in whole milliseconds: `1000 /
/// frames_per_second` rounded down, and the longest time there is when the rate is zero.
#[must_use]
pub fn frame_delay_millis(frames_per_second: u64) -> (delay: u64)
    ensures
        delay == if frames_per_second == 0 {
            u64::MAX
        } else {
            1000u64 / frames_per_second
        },
{
    if frames_per_second == 0 {
        u64::MAX
    } else {
        1000 / frames_per_second
    }
}

/// How long to wait before the next frame, in nanoseconds, when a frame should last
/// `delay_nanos` and `elapsed_nanos` have passed since the last one began: the rest of the delay,
/// or nothing once it has passed.
#[must_use]
pub fn frame_wait_nanos(delay_nanos: u128, elapsed_nanos: u128) -> (wait: u128)
    ensures
        wait == if elapsed_nanos <= delay_nanos {
            delay_nanos - elapsed_nanos
        } else {
            0
        },
{
    if elapsed_nanos <= delay_nanos {
        delay_nanos - elapsed_nanos
    } else {
        0
    }
}

/// Begins a frame of an update loop: pauses auto flushing until the returned guard is released,
/// so that the changes of the frame are flushed together, and turns every light off first when
/// `clear_lights_each_frame` is set.
pub fn begin_frame(setter: &mut LightsSetter, clear_lights_each_frame: bool) -> (guard:
    PauseAutoFlushGuard)
    ensures
        !final(setter).spec_auto_flush(),
        guard.spec_should_reenable() == old(setter).spec_auto_flush(),
        final(setter).spec_colors().len() == 40,
        forall|i: int|
            0 <= i < 40 ==> #[trigger] final(setter).spec_colors()[i] == if clear_lights_each_frame {
                RGB::spec_off()
            } else {
                old(setter).spec_colors()[i]
            },
{
    proof {
        setter.lemma_colors_len();
    }
    let guard = setter.pause_auto_flush();
    if clear_lights_each_frame {
        let _ = setter.set_color(Lights::all(), RGB::off());
    }
    guard
}

} // verus!
