//! Productive time: time that passes while the user's session, the system and a display
//! are all awake, observed often enough to be trusted.
use vstd::prelude::*;

verus! {

/// The longest gap between two observations that still counts as productive, in
/// nanoseconds (five seconds).
pub const MAX_UNOBSERVED_GAP_NANOS: u64 = 5_000_000_000;

/// What the platform last reported about the user's presence.
#[derive(Clone, Copy, Debug, PartialEq, Eq, Default)]
pub struct ActivityGate {
    pub session_active: bool,
    pub system_awake: bool,
    pub screens_awake: bool,
    pub any_display_awake: bool,
}

impl ActivityGate {
    pub open spec fn is_productive(self) -> bool {
        self.session_active && self.system_awake && self.screens_awake && self.any_display_awake
    }

    /// Time counts only while every flag is set.
    pub fn productive(self) -> (r: bool)
        ensures
            r == self.is_productive(),
    {
        self.session_active && self.system_awake && self.screens_awake && self.any_display_awake
    }

    /// All flags cleared: nothing is productive until the platform reports otherwise.
    pub fn closed() -> (r: Self)
        ensures
            !r.is_productive(),
            !r.session_active && !r.system_awake && !r.screens_awake && !r.any_display_awake,
    {
        ActivityGate {
            session_active: false,
            system_awake: false,
            screens_awake: false,
            any_display_awake: false,
        }
    }
}

/// Productive time accumulated between observations; times are monotonic nanoseconds.
pub struct Timeline {
    gate: ActivityGate,
    anchor: u64,
    pending_productive: u64,
}

pub struct TimelineView {
    pub gate: ActivityGate,
    pub anchor: nat,
    pub pending: nat,
}

impl View for Timeline {
    type V = TimelineView;

    closed spec fn view(&self) -> TimelineView {
        TimelineView {
            gate: self.gate,
            anchor: self.anchor as nat,
            pending: self.pending_productive as nat,
        }
    }
}

/// `a + b`, capped at `u64::MAX`.
pub open spec fn capped_add(a: nat, b: nat) -> nat {
    if a + b > u64::MAX {
        u64::MAX as nat
    } else {
        a + b
    }
}

/// The time from `anchor` to `now`, or zero if `now` is not later.
pub open spec fn elapsed(anchor: nat, now: nat) -> nat {
    if now > anchor {
        (now - anchor) as nat
    } else {
        0
    }
}

/// The timeline after observing time `now`: the time since the last observation is
/// productive only if every presence flag was set and the gap was short enough.
pub open spec fn settled(t: TimelineView, now: nat) -> TimelineView {
    let gap = elapsed(t.anchor, now);
    TimelineView {
        gate: t.gate,
        anchor: now,
        pending: if t.gate.is_productive() && gap <= MAX_UNOBSERVED_GAP_NANOS {
            capped_add(t.pending, gap)
        } else {
            t.pending
        },
    }
}

impl Timeline {
    /// A timeline observed first at `now`, with a closed gate and nothing pending.
    pub fn new(now: u64) -> (r: Self)
        ensures
            r@ == (TimelineView { gate: ActivityGate::closed_spec(), anchor: now as nat, pending: 0 }),
    {
        Timeline { gate: ActivityGate::closed(), anchor: now, pending_productive: 0 }
    }

    pub fn gate(&self) -> (r: ActivityGate)
        ensures
            r == self@.gate,
    {
        self.gate
    }

    /// Productive time observed but not yet sampled.
    pub fn pending_productive(&self) -> (r: u64)
        ensures
            r == self@.pending,
    {
        self.pending_productive
    }

    /// Counts the time since the last observation and moves the anchor to `now`.
    pub fn settle_to(&mut self, now: u64)
        ensures
            final(self)@ == settled(old(self)@, now as nat),
    {
        let gap = if now > self.anchor {
            now - self.anchor
        } else {
            0
        };
        if self.gate.productive() && gap <= MAX_UNOBSERVED_GAP_NANOS {
            self.pending_productive = self.pending_productive.saturating_add(gap);
        }
        self.anchor = now;
    }

    /// Settles up to `now`, then takes the new gate: a change counts only from now on.
    pub fn update(&mut self, now: u64, gate: ActivityGate)
        ensures
            final(self)@ == (TimelineView { gate, ..settled(old(self)@, now as nat) }),
    {
        self.settle_to(now);
        self.gate = gate;
    }

    /// Settles up to `now` and hands out the productive time gathered, starting afresh.
    pub fn take_sample(&mut self, now: u64) -> (r: u64)
        ensures
            r == settled(old(self)@, now as nat).pending,
            final(self)@ == (TimelineView { pending: 0, ..settled(old(self)@, now as nat) }),
    {
        self.settle_to(now);
        let r = self.pending_productive;
        self.pending_productive = 0;
        r
    }

    /// The probe's start: the session is live and the system awake; screens count as
    /// awake only if a display is.
    pub fn start_session(&mut self, now: u64, display_awake: bool)
        ensures
            final(self)@ == (TimelineView {
                gate: ActivityGate {
                    session_active: true,
                    system_awake: true,
                    screens_awake: display_awake,
                    any_display_awake: display_awake,
                },
                ..settled(old(self)@, now as nat)
            }),
    {
        self.update(
            now,
            ActivityGate {
                session_active: true,
                system_awake: true,
                screens_awake: display_awake,
                any_display_awake: display_awake,
            },
        );
    }

    /// A periodic sample: records whether any display is awake, then takes the sample.
    pub fn sample(&mut self, now: u64, display_awake: bool) -> (r: u64)
        ensures
            r == settled(old(self)@, now as nat).pending,
            final(self)@ == (TimelineView {
                gate: ActivityGate { any_display_awake: display_awake, ..old(self)@.gate },
                pending: 0,
                ..settled(old(self)@, now as nat)
            }),
    {
        let mut gate = self.gate;
        gate.any_display_awake = display_awake;
        self.update(now, gate);
        self.take_sample(now)
    }

    pub fn set_session_active(&mut self, now: u64, active: bool)
        ensures
            final(self)@ == (TimelineView {
                gate: ActivityGate { session_active: active, ..old(self)@.gate },
                ..settled(old(self)@, now as nat)
            }),
    {
        let mut gate = self.gate;
        gate.session_active = active;
        self.update(now, gate);
    }

    pub fn set_system_awake(&mut self, now: u64, awake: bool)
        ensures
            final(self)@ == (TimelineView {
                gate: ActivityGate { system_awake: awake, ..old(self)@.gate },
                ..settled(old(self)@, now as nat)
            }),
    {
        let mut gate = self.gate;
        gate.system_awake = awake;
        self.update(now, gate);
    }

    pub fn set_screens_awake(&mut self, now: u64, awake: bool)
        ensures
            final(self)@ == (TimelineView {
                gate: ActivityGate { screens_awake: awake, ..old(self)@.gate },
                ..settled(old(self)@, now as nat)
            }),
    {
        let mut gate = self.gate;
        gate.screens_awake = awake;
        self.update(now, gate);
    }
}

impl ActivityGate {
    pub open spec fn closed_spec() -> ActivityGate {
        ActivityGate {
            session_active: false,
            system_awake: false,
            screens_awake: false,
            any_display_awake: false,
        }
    }
}

/// Time that passes while some presence flag is clear never becomes productive: a wake
/// that follows does not backfill the time asleep.
pub proof fn law_inactive_time_is_never_productive(t: TimelineView, now: nat)
    requires
        !t.gate.is_productive(),
    ensures
        settled(t, now).pending == t.pending,
{
}

/// A gap longer than the observation limit is dropped entirely, whatever the flags say.
pub proof fn law_long_gap_is_fail_closed(t: TimelineView, now: nat)
    requires
        elapsed(t.anchor, now) > MAX_UNOBSERVED_GAP_NANOS,
    ensures
        settled(t, now).pending == t.pending,
{
}

/// Productive time never runs ahead of the clock: an observation adds at most the time
/// that passed since the previous one.
pub proof fn law_productive_time_bounded_by_elapsed(t: TimelineView, now: nat)
    requires
        t.pending <= u64::MAX,
    ensures
        t.pending <= settled(t, now).pending <= t.pending + elapsed(t.anchor, now),
{
}

} // verus!
