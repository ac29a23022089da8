use std::collections::VecDeque;

use swall_core::scheduler::{
    FrameEventScheduler, PollOutcome, RaceOutcome, SchedulerAction, SchedulerPhase, EVENT_BATCH,
};

/// A bounded-step simulation of the production loop: a single-slot
/// frame channel, a small bounded event channel, a producer and a
/// consumer driven by a deterministic pseudo-random stream.
struct Sim {
    sched: FrameEventScheduler<u64>,
    events: VecDeque<u64>,
    event_cap: usize,
    /// One-slot output channel: `true` while the previous frame has
    /// not been consumed yet.
    slot_full: bool,
    frames: u64,
    applied: Vec<u64>,
    next_event: u64,
    /// Frame count at the moment each event was enqueued.
    enqueued_at_frame: VecDeque<u64>,
    applied_latency: Vec<u64>,
    applied_this_batch: u32,
    max_batch: u32,
    rng: u64,
}

impl Sim {
    fn new(seed: u64) -> Sim {
        Sim {
            sched: FrameEventScheduler::new(),
            events: VecDeque::new(),
            event_cap: 4,
            slot_full: false,
            frames: 0,
            applied: Vec::new(),
            next_event: 0,
            enqueued_at_frame: VecDeque::new(),
            applied_latency: Vec::new(),
            applied_this_batch: 0,
            max_batch: 0,
            rng: seed,
        }
    }

    fn rand(&mut self) -> u64 {
        self.rng = self.rng.wrapping_mul(6364136223846793005).wrapping_add(1442695040888963407);
        self.rng >> 33
    }

    fn produce(&mut self) {
        if self.events.len() < self.event_cap {
            self.events.push_back(self.next_event);
            self.enqueued_at_frame.push_back(self.frames);
            self.next_event += 1;
        }
    }

    fn record_applied(&mut self, e: u64) {
        let at = self.enqueued_at_frame.pop_front().unwrap();
        self.applied.push(e);
        self.applied_latency.push(self.frames - at);
        self.applied_this_batch += 1;
        self.max_batch = self.max_batch.max(self.applied_this_batch);
    }

    /// One host step; `saturate` keeps the event channel full.
    fn step(&mut self, saturate: bool, consume_rate: u64, tick: u64) {
        if saturate {
            while self.events.len() < self.event_cap {
                self.produce();
            }
        } else if self.rand() % 2 == 0 {
            self.produce();
        }
        // the consumer drains the frame slot at a fixed rate
        if self.slot_full && tick % consume_rate == 0 {
            self.slot_full = false;
        }
        match self.sched.next_action() {
            SchedulerAction::ApplyStashed => {
                let e = self.sched.take_stashed();
                self.record_applied(e);
            },
            SchedulerAction::PollEvent => {
                let outcome = match self.events.pop_front() {
                    Some(e) => PollOutcome::Event(e),
                    None => PollOutcome::Empty,
                };
                if let Some(e) = self.sched.on_poll(outcome) {
                    self.record_applied(e);
                } else {
                    self.applied_this_batch = 0;
                }
            },
            SchedulerAction::AwaitSlot => {
                self.applied_this_batch = 0;
                // reservation readiness is checked first (biased)
                if !self.slot_full {
                    self.sched.on_race(RaceOutcome::SlotReady);
                } else if let Some(e) = self.events.pop_front() {
                    self.sched.on_race(RaceOutcome::Event(e));
                }
                // with both channels full the step blocks until the
                // consumer frees the slot on a later tick
            },
            SchedulerAction::RenderFrame => {
                assert!(!self.slot_full, "fulfil must never block: capacity was reserved");
                self.slot_full = true;
                self.frames += 1;
                self.sched.on_frame_sent();
            },
            SchedulerAction::Halt => panic!("no channel was closed"),
        }
    }
}

#[test]
fn test_saturating_producer_bounded_latency() {
    // a producer that keeps the event channel full, a consumer
    // draining frames at a fixed rate: every event is applied within
    // one generation cycle plus the batch cap
    let mut sim = Sim::new(7);
    for tick in 0..20_000u64 {
        sim.step(true, 3, tick);
    }
    assert!(sim.frames > 100, "frame production starved: {}", sim.frames);
    assert!(sim.applied.len() > 1000, "event forwarding starved: {}", sim.applied.len());
    // events are applied in arrival order
    for (i, e) in sim.applied.iter().enumerate() {
        assert_eq!(*e, i as u64);
    }
    // bounded one-cycle latency: applied before the second following frame
    for lat in &sim.applied_latency {
        assert!(*lat <= 2, "event waited {} cycles", lat);
    }
    // per-batch work is capped, so frames cannot be starved
    assert!(sim.max_batch as u64 <= EVENT_BATCH as u64 + 1);
}

#[test]
fn test_randomized_interleavings_never_stall() {
    // randomized production with both channels repeatedly full: the
    // scheduler keeps making progress in every window of steps
    for seed in 1..6u64 {
        let mut sim = Sim::new(seed);
        let mut last_frames = 0u64;
        for window in 0..50u64 {
            for tick in 0..400u64 {
                sim.step(tick % 5 != 0, 7, window * 400 + tick);
            }
            assert!(
                sim.frames > last_frames,
                "no frame progress in window {} (seed {})",
                window,
                seed
            );
            last_frames = sim.frames;
        }
    }
}

#[test]
fn test_channel_close_is_clean_shutdown() {
    let mut sched: FrameEventScheduler<u64> = FrameEventScheduler::new();
    assert_eq!(sched.next_action(), SchedulerAction::PollEvent);
    // the event channel closes: the scheduler halts, no error
    assert_eq!(sched.on_poll(PollOutcome::Closed), None);
    assert_eq!(sched.next_action(), SchedulerAction::Halt);

    let mut sched: FrameEventScheduler<u64> = FrameEventScheduler::new();
    sched.on_poll(PollOutcome::Empty);
    assert_eq!(sched.next_action(), SchedulerAction::AwaitSlot);
    sched.on_race(RaceOutcome::Closed);
    assert_eq!(sched.next_action(), SchedulerAction::Halt);
}

#[test]
fn test_stashed_event_applies_first_next_batch() {
    let mut sched: FrameEventScheduler<u64> = FrameEventScheduler::new();
    // drain finds nothing, the race yields an event
    assert_eq!(sched.on_poll(PollOutcome::Empty), None);
    sched.on_race(RaceOutcome::Event(42));
    // the stashed event opens the next batch
    assert_eq!(sched.next_action(), SchedulerAction::ApplyStashed);
    assert_eq!(sched.take_stashed(), 42);
    assert_eq!(sched.next_action(), SchedulerAction::PollEvent);
}

#[test]
fn test_batch_cap_forces_slot_check() {
    let mut sched: FrameEventScheduler<u64> = FrameEventScheduler::new();
    // a full batch of events without the channel ever emptying
    for i in 0..EVENT_BATCH as u64 {
        assert_eq!(sched.next_action(), SchedulerAction::PollEvent);
        assert_eq!(sched.on_poll(PollOutcome::Event(i)), Some(i));
    }
    // the cap is reached: the reservation must be checked now
    assert_eq!(sched.next_action(), SchedulerAction::AwaitSlot);
    // a ready slot always secures the cycle
    sched.on_race(RaceOutcome::SlotReady);
    assert_eq!(sched.next_action(), SchedulerAction::RenderFrame);
    sched.on_frame_sent();
    assert_eq!(sched.next_action(), SchedulerAction::PollEvent);
}

#[test]
fn test_phase_values() {
    // the phases drive the host loop; their equality is plain
    assert_eq!(SchedulerPhase::Draining, SchedulerPhase::Draining);
    assert_ne!(SchedulerPhase::Waiting, SchedulerPhase::Stopped);
}
