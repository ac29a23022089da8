//! The frame/event scheduler: the decision core of the loop that
//! produces canvas frames into a single-slot output channel while
//! forwarding input events from a small bounded channel into the
//! rendering state.
//!
//! The channels, the awaiting and the rendering live in the host; this
//! type decides, step by step, what the host may do next, and its
//! contracts pin the discipline that makes the loop deadlock-free:
//!
//! * each cycle first earmarks the next output slot (the reservation),
//!   then drains events in batches of at most [`EVENT_BATCH`] before
//!   every check of the reservation, so an event flood cannot stop
//!   frame progress and a full frame channel cannot stop event
//!   progress — no circular wait;
//! * an event that arrives while the scheduler waits for the slot is
//!   stashed and must be applied first in the following batch
//!   ([`FrameEventScheduler::on_poll`] refuses to run while a stash is
//!   pending), so no event waits more than one cycle plus one batch;
//! * a ready slot always moves the machine to `Secured` — the race is
//!   biased towards frame readiness;
//! * no event handed to the machine is ever dropped or skipped: a
//!   polled event is returned for immediate application, a raced
//!   event is stashed, and every cycle begins with a drain phase, so
//!   with the host awaiting the channels every event is eventually
//!   applied — the global liveness of the loop rests on the host's
//!   channels and is exercised by a bounded-step simulation;
//! * either channel closing halts the machine cleanly: closure is
//!   shutdown, not an error.

use vstd::prelude::*;

verus! {

/// Most events one drain batch may apply beyond the stashed one.
pub const EVENT_BATCH: u8 = 6;

/// Where the machine stands inside one production cycle.
#[derive(Debug, Clone, Copy, PartialEq, Eq, Structural)]
pub enum SchedulerPhase {
    /// Draining events before the next reservation check.
    Draining,
    /// Racing the reservation against event arrival.
    Waiting,
    /// Holding the secured slot: render one frame, then fulfil it.
    Secured,
    /// A channel closed: clean shutdown.
    Stopped,
}

/// What the host reports after one non-blocking event poll.
#[derive(Debug)]
pub enum PollOutcome<E> {
    /// An event was pending.
    Event(E),
    /// No event is pending right now.
    Empty,
    /// The event channel is closed.
    Closed,
}

/// What the host reports after awaiting the race of step three:
/// reservation readiness checked first, then event arrival.
#[derive(Debug)]
pub enum RaceOutcome<E> {
    /// The output slot reservation became ready.
    SlotReady,
    /// An event arrived while waiting.
    Event(E),
    /// Either channel closed.
    Closed,
}

/// What the host must do next.
#[derive(Debug, Clone, Copy, PartialEq, Eq, Structural)]
pub enum SchedulerAction {
    /// Take the stashed event and apply it.
    ApplyStashed,
    /// Poll the event channel once, without blocking.
    PollEvent,
    /// Await the biased race of reservation against event arrival.
    AwaitSlot,
    /// Render one frame and fulfil the secured slot; the send cannot
    /// block, capacity was reserved when the cycle began.
    RenderFrame,
    /// Shut down cleanly.
    Halt,
}

/// The scheduler's decision state.
pub struct FrameEventScheduler<E> {
    phase: SchedulerPhase,
    stash: Option<E>,
    polls_left: u8,
    applied_in_batch: u8,
}

impl<E> FrameEventScheduler<E> {
    /// The current phase.
    pub closed spec fn phase(self) -> SchedulerPhase {
        self.phase
    }

    /// The event stashed during the race, if any.
    pub closed spec fn stashed(self) -> Option<E> {
        self.stash
    }

    /// Event polls still allowed in the current batch.
    pub closed spec fn polls_left(self) -> u8 {
        self.polls_left
    }

    /// Events applied so far in the current batch.
    pub closed spec fn applied_in_batch(self) -> u8 {
        self.applied_in_batch
    }

    /// The machine's invariant.  Its heart is the batch bound: what
    /// was already applied, what may still be polled and the pending
    /// stash together never exceed `EVENT_BATCH + 1`, so every check
    /// of the reservation comes after boundedly many event steps.
    pub open spec fn inv(self) -> bool {
        &&& self.applied_in_batch() as int + self.polls_left() as int + (if self.stashed()
            is Some {
            1int
        } else {
            0int
        }) <= EVENT_BATCH as int + 1
        &&& (self.phase() != SchedulerPhase::Draining ==> self.stashed() is None)
        &&& (self.phase() == SchedulerPhase::Draining ==> self.polls_left() >= 1)
        &&& (self.stashed() is Some ==> self.polls_left() == EVENT_BATCH)
    }

    /// A fresh scheduler, at the start of its first cycle.
    pub fn new() -> (r: FrameEventScheduler<E>)
        ensures
            r.inv(),
            r.phase() == SchedulerPhase::Draining,
            r.stashed() is None,
            r.polls_left() == EVENT_BATCH,
            r.applied_in_batch() == 0,
    {
        FrameEventScheduler {
            phase: SchedulerPhase::Draining,
            stash: None,
            polls_left: EVENT_BATCH,
            applied_in_batch: 0,
        }
    }

    /// What the host must do next; total for every phase, so the
    /// machine is never without an enabled step.
    pub fn next_action(&self) -> (a: SchedulerAction)
        requires
            self.inv(),
        ensures
            a == (match self.phase() {
                SchedulerPhase::Draining => if self.stashed() is Some {
                    SchedulerAction::ApplyStashed
                } else {
                    SchedulerAction::PollEvent
                },
                SchedulerPhase::Waiting => SchedulerAction::AwaitSlot,
                SchedulerPhase::Secured => SchedulerAction::RenderFrame,
                SchedulerPhase::Stopped => SchedulerAction::Halt,
            }),
    {
        match self.phase {
            SchedulerPhase::Draining => {
                if self.stash.is_some() {
                    SchedulerAction::ApplyStashed
                } else {
                    SchedulerAction::PollEvent
                }
            },
            SchedulerPhase::Waiting => SchedulerAction::AwaitSlot,
            SchedulerPhase::Secured => SchedulerAction::RenderFrame,
            SchedulerPhase::Stopped => SchedulerAction::Halt,
        }
    }

    /// Hand out the stashed event: it is applied before anything else
    /// in its batch, which gives the one-cycle latency bound for
    /// events that arrived during the race.
    pub fn take_stashed(&mut self) -> (r: E)
        requires
            old(self).inv(),
            old(self).phase() == SchedulerPhase::Draining,
            old(self).stashed() is Some,
        ensures
            final(self).inv(),
            r == old(self).stashed()->Some_0,
            final(self).phase() == SchedulerPhase::Draining,
            final(self).stashed() is None,
            final(self).polls_left() == old(self).polls_left(),
            final(self).applied_in_batch() == old(self).applied_in_batch() + 1,
    {
        let e = self.stash.take();
        self.applied_in_batch = self.applied_in_batch + 1;
        match e {
            Some(ev) => ev,
            None => vstd::pervasive::unreached(),
        }
    }

    /// Account one non-blocking poll of the event channel.  An event
    /// is handed back to be applied at once; an empty channel moves
    /// the machine to the race, and so does exhausting the batch; a
    /// closed channel halts it.
    pub fn on_poll(&mut self, outcome: PollOutcome<E>) -> (r: Option<E>)
        requires
            old(self).inv(),
            old(self).phase() == SchedulerPhase::Draining,
            old(self).stashed() is None,
        ensures
            final(self).inv(),
            final(self).stashed() is None,
            match outcome {
                PollOutcome::Event(e) => {
                    &&& r == Some(e)
                    &&& final(self).applied_in_batch() == old(self).applied_in_batch() + 1
                    &&& final(self).polls_left() == old(self).polls_left() - 1
                    &&& final(self).phase() == (if old(self).polls_left() == 1 {
                        SchedulerPhase::Waiting
                    } else {
                        SchedulerPhase::Draining
                    })
                },
                PollOutcome::Empty => {
                    &&& r is None
                    &&& final(self).phase() == SchedulerPhase::Waiting
                    &&& final(self).applied_in_batch() == old(self).applied_in_batch()
                },
                PollOutcome::Closed => {
                    &&& r is None
                    &&& final(self).phase() == SchedulerPhase::Stopped
                },
            },
    {
        match outcome {
            PollOutcome::Event(e) => {
                self.applied_in_batch = self.applied_in_batch + 1;
                self.polls_left = self.polls_left - 1;
                if self.polls_left == 0 {
                    self.phase = SchedulerPhase::Waiting;
                }
                Some(e)
            },
            PollOutcome::Empty => {
                self.phase = SchedulerPhase::Waiting;
                None
            },
            PollOutcome::Closed => {
                self.phase = SchedulerPhase::Stopped;
                None
            },
        }
    }

    /// Account the race of step three.  A ready slot always secures
    /// the cycle — frame readiness is checked first, so a saturating
    /// event producer cannot starve frame production.  An event is
    /// stashed and opens a fresh batch; a closed channel halts.
    pub fn on_race(&mut self, outcome: RaceOutcome<E>)
        requires
            old(self).inv(),
            old(self).phase() == SchedulerPhase::Waiting,
        ensures
            final(self).inv(),
            match outcome {
                RaceOutcome::SlotReady => {
                    &&& final(self).phase() == SchedulerPhase::Secured
                    &&& final(self).stashed() is None
                },
                RaceOutcome::Event(e) => {
                    &&& final(self).phase() == SchedulerPhase::Draining
                    &&& final(self).stashed() == Some(e)
                    &&& final(self).polls_left() == EVENT_BATCH
                    &&& final(self).applied_in_batch() == 0
                },
                RaceOutcome::Closed => final(self).phase() == SchedulerPhase::Stopped,
            },
    {
        match outcome {
            RaceOutcome::SlotReady => {
                self.phase = SchedulerPhase::Secured;
            },
            RaceOutcome::Event(e) => {
                self.phase = SchedulerPhase::Draining;
                self.stash = Some(e);
                self.polls_left = EVENT_BATCH;
                self.applied_in_batch = 0;
            },
            RaceOutcome::Closed => {
                self.phase = SchedulerPhase::Stopped;
            },
        }
    }

    /// Account the fulfilment of the secured slot: the frame was
    /// rendered from the state all previously applied events reached,
    /// and sent without blocking.  The next cycle begins with a fresh
    /// batch.
    pub fn on_frame_sent(&mut self)
        requires
            old(self).inv(),
            old(self).phase() == SchedulerPhase::Secured,
        ensures
            final(self).inv(),
            final(self).phase() == SchedulerPhase::Draining,
            final(self).stashed() is None,
            final(self).polls_left() == EVENT_BATCH,
            final(self).applied_in_batch() == 0,
    {
        self.phase = SchedulerPhase::Draining;
        self.polls_left = EVENT_BATCH;
        self.applied_in_batch = 0;
    }
}

/// The per-batch work bound: between two consecutive checks of the
/// frame reservation the scheduler applies at most `EVENT_BATCH + 1`
/// events (the stash of the race and one batch of polls), so frame
/// throughput cannot be driven to zero by an event flood, while the
/// event channel is still read in every single cycle.
pub proof fn lemma_batch_bounded<E>(s: FrameEventScheduler<E>)
    requires
        s.inv(),
    ensures
        s.applied_in_batch() as int <= EVENT_BATCH as int + 1,
{
}

} // verus!
