//! Bounded, starvation-safe collection of cross-thread platform events.
//!
//! The collector drains the channel without blocking, up to a hard
//! per-tick cap, and defers any remainder to the next tick rather than
//! stalling pacing. A shutdown signal or a producer-side disconnect both
//! end the loop cleanly.

use crate::input::event::InputEvent;
use crate::platform_bridge::interface::PlatformEvent;
use vstd::prelude::*;

verus! {

/// Hard cap on the events drained from the channel in one tick.
pub const MAX_EVENTS_PER_TICK: u64 = 100;

/// Update loop control signal.
#[derive(Debug, Clone, Copy, PartialEq, Eq, Structural)]
pub enum TickControl {
    /// Keep ticking.
    Continue,
    /// Finish the current phase and stop: the platform signaled shutdown
    /// or disconnected.
    Exit,
}

/// The outcome of one nonblocking poll of the platform channel.
enum RecvPoll {
    /// A platform event arrived.
    Event(PlatformEvent),
    /// The channel was empty.
    Empty,
    /// The producer side has disconnected.
    Disconnected,
}

#[verifier::external_type_specification]
#[verifier::external_body]
#[verifier::reject_recursive_types(T)]
pub struct ExReceiver<T>(crossbeam_channel::Receiver<T>);

/// Relies on crossbeam_channel's `Receiver::try_recv`: a nonblocking
/// receive that yields a queued message, or reports the channel empty or
/// disconnected. Which outcome comes back depends on the producer thread,
/// so nothing more is promised of it.
#[verifier::external_body]
fn poll_platform_events(rx: &crossbeam_channel::Receiver<PlatformEvent>) -> (r: RecvPoll) {
    match rx.try_recv() {
        Ok(event) => RecvPoll::Event(event),
        Err(crossbeam_channel::TryRecvError::Empty) => RecvPoll::Empty,
        Err(crossbeam_channel::TryRecvError::Disconnected) => RecvPoll::Disconnected,
    }
}

/// Collects platform events into per-tick batches, with bounded polling
/// and shutdown detection.
pub struct EventCollector {
    receiver: crossbeam_channel::Receiver<PlatformEvent>,
    input_batches: Vec<Vec<InputEvent>>,
    had_event: bool,
}

impl EventCollector {
    /// The batches collected for the current tick.
    pub closed spec fn batches_spec(self) -> Seq<Vec<InputEvent>> {
        self.input_batches@
    }

    /// Whether any platform message arrived during the current tick's
    /// collection, even one carrying no events.
    pub closed spec fn had_events_spec(self) -> bool {
        self.had_event
    }

    /// Creates a collector reading from the given channel.
    pub fn new(receiver: crossbeam_channel::Receiver<PlatformEvent>) -> (c: Self)
        ensures
            c.batches_spec().len() == 0,
            !c.had_events_spec(),
    {
        EventCollector { receiver, input_batches: Vec::new(), had_event: false }
    }

    /// Drains pending platform events into this tick's batches, bounded
    /// by [`MAX_EVENTS_PER_TICK`]; any remainder is deferred to the next
    /// tick. Returns [`TickControl::Exit`] on a shutdown signal or a
    /// disconnect, else [`TickControl::Continue`].
    ///
    /// Every collected batch is nonempty, and a tick collects at most two
    /// batches (discrete and continuous) per drained event.
    pub fn collect_frame(&mut self) -> (r: TickControl)
        ensures
            forall|i: int|
                0 <= i < final(self).batches_spec().len()
                    ==> (#[trigger] final(self).batches_spec()[i])@.len() > 0,
            final(self).batches_spec().len() <= 2 * MAX_EVENTS_PER_TICK,
            !final(self).had_events_spec() ==> final(self).batches_spec().len() == 0,
    {
        self.input_batches.clear();
        self.had_event = false;
        let mut drained: u64 = 0;
        while drained < MAX_EVENTS_PER_TICK
            invariant
                drained <= MAX_EVENTS_PER_TICK,
                self.input_batches@.len() <= 2 * drained,
                !self.had_events_spec() ==> self.input_batches@.len() == 0,
                forall|i: int|
                    0 <= i < self.input_batches@.len() ==> #[trigger] self.input_batches@[i]@.len()
                        > 0,
            decreases MAX_EVENTS_PER_TICK - drained,
        {
            match poll_platform_events(&self.receiver) {
                RecvPoll::Event(event) => {
                    self.had_event = true;
                    if self.handle_event(event) == TickControl::Exit {
                        return TickControl::Exit;
                    }
                    drained += 1;
                },
                RecvPoll::Empty => {
                    return TickControl::Continue;
                },
                RecvPoll::Disconnected => {
                    return TickControl::Exit;
                },
            }
        }
        TickControl::Continue
    }

    /// Returns the batches collected this tick.
    pub fn batches(&self) -> (r: &Vec<Vec<InputEvent>>)
        ensures
            r@ == self.batches_spec(),
    {
        &self.input_batches
    }

    /// Takes ownership of the collected batches, leaving none behind;
    /// ownership transfers once per tick without copying.
    pub fn take_batches(&mut self) -> (r: Vec<Vec<InputEvent>>)
        ensures
            r@ == old(self).batches_spec(),
            final(self).batches_spec().len() == 0,
            final(self).had_events_spec() == old(self).had_events_spec(),
    {
        let mut out: Vec<Vec<InputEvent>> = Vec::new();
        core::mem::swap(&mut out, &mut self.input_batches);
        out
    }

    /// Returns true if any platform message arrived during this tick's
    /// collection; when none did, the caller may idle briefly.
    pub fn had_events(&self) -> (r: bool)
        ensures
            r == self.had_events_spec(),
    {
        self.had_event
    }

    /// Files one platform event: the nonempty halves of an input message
    /// are appended as batches, and a shutdown message ends the loop.
    fn handle_event(&mut self, event: PlatformEvent) -> (r: TickControl)
        ensures
            final(self).had_events_spec() == old(self).had_events_spec(),
            match event {
                PlatformEvent::WindowClosed => r == TickControl::Exit
                    && final(self).batches_spec() == old(self).batches_spec(),
                PlatformEvent::Inputs { discrete, continuous } => {
                    &&& r == TickControl::Continue
                    &&& final(self).batches_spec() == (if discrete@.len() > 0 {
                        if continuous@.len() > 0 {
                            old(self).batches_spec().push(discrete).push(continuous)
                        } else {
                            old(self).batches_spec().push(discrete)
                        }
                    } else {
                        if continuous@.len() > 0 {
                            old(self).batches_spec().push(continuous)
                        } else {
                            old(self).batches_spec()
                        }
                    })
                },
            },
    {
        match event {
            PlatformEvent::Inputs { discrete, continuous } => {
                if discrete.len() > 0 {
                    self.input_batches.push(discrete);
                }
                if continuous.len() > 0 {
                    self.input_batches.push(continuous);
                }
                TickControl::Continue
            },
            PlatformEvent::WindowClosed => TickControl::Exit,
        }
    }
}

} // verus!
