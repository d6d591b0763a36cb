//! The course of a publisher: once at the start, then once per interval, until it is stopped.

use vstd::prelude::*;

verus! {

/// What a publisher does next.
#[derive(Debug, Clone, Copy, PartialEq, Eq, Structural)]
pub enum PublishAction {
    /// Publish everything.
    Publish,
    /// Wait for a tick and pass over it.
    SkipTick,
    /// Wait for a tick or for the end, whichever comes first.
    AwaitEvent,
    /// Nothing more.
    Stop,
}

/// Where a publisher stands.
#[derive(Debug, Clone, Copy, PartialEq, Eq, Structural)]
pub enum PublishPhase {
    /// Publishing for the first time.
    Initial,
    /// Before the first tick, which comes at once and is passed over, since everything was just
    /// published.
    FirstTick,
    /// Waiting for events.
    Waiting,
    /// Publishing again.
    Due,
    /// At the end.
    Stopped,
}

impl PublishPhase {
    /// What is done in the phase.
    pub open spec fn does(self) -> PublishAction {
        match self {
            PublishPhase::Initial => PublishAction::Publish,
            PublishPhase::FirstTick => PublishAction::SkipTick,
            PublishPhase::Waiting => PublishAction::AwaitEvent,
            PublishPhase::Due => PublishAction::Publish,
            PublishPhase::Stopped => PublishAction::Stop,
        }
    }

    /// The phase after everything was published.
    pub open spec fn after_published(self) -> PublishPhase {
        match self {
            PublishPhase::Initial => PublishPhase::FirstTick,
            PublishPhase::Due => PublishPhase::Waiting,
            other => other,
        }
    }

    /// The phase after a tick.
    pub open spec fn after_tick(self) -> PublishPhase {
        match self {
            PublishPhase::FirstTick => PublishPhase::Waiting,
            PublishPhase::Waiting => PublishPhase::Due,
            other => other,
        }
    }
}

/// The course of a publisher.
pub struct PublishSchedule {
    phase: PublishPhase,
}

impl PublishSchedule {
    /// Where the publisher stands.
    pub closed spec fn stands(self) -> PublishPhase {
        self.phase
    }

    /// Before anything was published.
    pub fn new() -> (r: PublishSchedule)
        ensures
            r.stands() is Initial,
    {
        PublishSchedule { phase: PublishPhase::Initial }
    }

    /// What is done next.
    pub fn action(&self) -> (r: PublishAction)
        ensures
            r == self.stands().does(),
    {
        match self.phase {
            PublishPhase::Initial => PublishAction::Publish,
            PublishPhase::FirstTick => PublishAction::SkipTick,
            PublishPhase::Waiting => PublishAction::AwaitEvent,
            PublishPhase::Due => PublishAction::Publish,
            PublishPhase::Stopped => PublishAction::Stop,
        }
    }

    /// Everything was published.
    pub fn on_published(&mut self)
        ensures
            final(self).stands() == old(self).stands().after_published(),
    {
        self.phase = match self.phase {
            PublishPhase::Initial => PublishPhase::FirstTick,
            PublishPhase::Due => PublishPhase::Waiting,
            other => other,
        };
    }

    /// A tick came.
    pub fn on_tick(&mut self)
        ensures
            final(self).stands() == old(self).stands().after_tick(),
    {
        self.phase = match self.phase {
            PublishPhase::FirstTick => PublishPhase::Waiting,
            PublishPhase::Waiting => PublishPhase::Due,
            other => other,
        };
    }

    /// The publisher is told to stop.
    pub fn on_shutdown(&mut self)
        ensures
            final(self).stands() is Stopped,
    {
        self.phase = PublishPhase::Stopped;
    }
}

/// Where a publisher stands after its first publication and that many ticks, with everything
/// published whenever it was due, and how often everything was published by then.
pub open spec fn course_after(start: PublishPhase, ticks: nat) -> (PublishPhase, nat)
    decreases ticks,
{
    if ticks == 0 {
        (start.after_published(), 1)
    } else {
        let (phase, rounds) = course_after(start, (ticks - 1) as nat);
        let next = phase.after_tick();
        if next.does() == PublishAction::Publish {
            (next.after_published(), rounds + 1)
        } else {
            (next, rounds)
        }
    }
}

/// A publisher publishes once at the start and from then on once per interval: the first tick comes
/// at once, so that one more tick than intervals has come, and it publishes nothing.
pub proof fn published_once_per_interval(start: PublishPhase, intervals: nat)
    requires
        start is Initial,
    ensures
        start.does() == PublishAction::Publish,
        course_after(start, intervals + 1) == (PublishPhase::Waiting, 1 + intervals),
    decreases intervals,
{
    if intervals == 0 {
        assert(course_after(start, 0) == (PublishPhase::FirstTick, 1nat));
    } else {
        published_once_per_interval(start, (intervals - 1) as nat);
    }
}

} // verus!
