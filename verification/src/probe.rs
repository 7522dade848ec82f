//! Input observation: which raw events count as effective inputs, counted once each,
//! and the probe's reported state. No key identity leaves this module.
use vstd::prelude::*;

verus! {

/// Whether the platform lets the game observe input.
#[derive(Clone, Copy, Debug, PartialEq, Eq, Structural)]
pub enum PermissionState {
    Unknown,
    Allowed,
    Denied,
    Unavailable,
}

/// The health of the input pipeline.
#[derive(Clone, Copy, Debug, PartialEq, Eq, Structural)]
pub enum InputHealth {
    Starting,
    Healthy,
    Degraded,
    Stopped,
}

impl PermissionState {
    /// The stable encoding: 0 unknown, 1 allowed, 2 denied, 3 unavailable.
    pub open spec fn code(self) -> u8 {
        match self {
            PermissionState::Unknown => 0,
            PermissionState::Allowed => 1,
            PermissionState::Denied => 2,
            PermissionState::Unavailable => 3,
        }
    }

    pub fn to_raw(self) -> (r: u8)
        ensures
            r == self.code(),
    {
        match self {
            PermissionState::Unknown => 0,
            PermissionState::Allowed => 1,
            PermissionState::Denied => 2,
            PermissionState::Unavailable => 3,
        }
    }

    /// Decodes the stable encoding; anything else reads as unknown.
    pub fn from_raw(raw: u8) -> (r: Self)
        ensures
            raw <= 3 ==> r.code() == raw,
            raw > 3 ==> r == PermissionState::Unknown,
    {
        match raw {
            1 => PermissionState::Allowed,
            2 => PermissionState::Denied,
            3 => PermissionState::Unavailable,
            _ => PermissionState::Unknown,
        }
    }
}

impl InputHealth {
    /// The stable encoding: 0 starting, 1 healthy, 2 degraded, 3 stopped.
    pub open spec fn code(self) -> u8 {
        match self {
            InputHealth::Starting => 0,
            InputHealth::Healthy => 1,
            InputHealth::Degraded => 2,
            InputHealth::Stopped => 3,
        }
    }

    pub fn to_raw(self) -> (r: u8)
        ensures
            r == self.code(),
    {
        match self {
            InputHealth::Starting => 0,
            InputHealth::Healthy => 1,
            InputHealth::Degraded => 2,
            InputHealth::Stopped => 3,
        }
    }

    /// Decodes the stable encoding; anything else reads as starting.
    pub fn from_raw(raw: u8) -> (r: Self)
        ensures
            raw <= 3 ==> r.code() == raw,
            raw > 3 ==> r == InputHealth::Starting,
    {
        match raw {
            1 => InputHealth::Healthy,
            2 => InputHealth::Degraded,
            3 => InputHealth::Stopped,
            _ => InputHealth::Starting,
        }
    }
}

/// Decoding a value that was encoded gives it back.
pub proof fn law_state_encodings_round_trip(p: PermissionState, h: InputHealth)
    ensures
        p.code() <= 3,
        h.code() <= 3,
        forall|q: PermissionState| q.code() == p.code() ==> q == p,
        forall|g: InputHealth| g.code() == h.code() ==> g == h,
{
}

/// `a + b`, capped at `u64::MAX`.
pub open spec fn sat_sum(a: u64, b: u64) -> u64 {
    if a + b > u64::MAX {
        u64::MAX
    } else {
        (a + b) as u64
    }
}

/// Adds to a counter, stopping at `u64::MAX` instead of wrapping.
pub fn saturating_add(target: &mut u64, amount: u64)
    ensures
        *final(target) == sat_sum(*old(target), amount),
{
    *target = target.saturating_add(amount);
}

/// Counters of the Windows input path.
#[derive(Clone, Copy, Debug, PartialEq, Eq, Default)]
pub struct WindowsInputCounters {
    pub key_down: u64,
    pub key_up: u64,
    pub keyboard_accepted: u64,
    pub mouse_accepted: u64,
    pub read_errors: u64,
}

/// What the input probe reports: permission, health and counters.
#[derive(Clone, Copy, Debug, PartialEq, Eq)]
pub struct RuntimeProbe {
    permission: u8,
    health: u8,
    total_effective_inputs: u64,
    dropped_observations: u64,
    windows: WindowsInputCounters,
}

impl RuntimeProbe {
    pub closed spec fn permission_code(&self) -> u8 {
        self.permission
    }

    pub closed spec fn health_code(&self) -> u8 {
        self.health
    }

    pub closed spec fn total_spec(&self) -> u64 {
        self.total_effective_inputs
    }

    pub closed spec fn dropped_spec(&self) -> u64 {
        self.dropped_observations
    }

    pub closed spec fn counters(&self) -> WindowsInputCounters {
        self.windows
    }

    /// The counters of the Windows input path.
    pub fn windows(&self) -> (r: WindowsInputCounters)
        ensures
            r == self.counters(),
    {
        self.windows
    }

    /// Permission unknown, health starting, nothing counted.
    pub fn new() -> (r: Self)
        ensures
            r.permission_code() == PermissionState::Unknown.code(),
            r.health_code() == InputHealth::Starting.code(),
            r.total_spec() == 0,
            r.dropped_spec() == 0,
            r.counters() == (WindowsInputCounters {
                key_down: 0,
                key_up: 0,
                keyboard_accepted: 0,
                mouse_accepted: 0,
                read_errors: 0,
            }),
    {
        RuntimeProbe {
            permission: PermissionState::Unknown.to_raw(),
            health: InputHealth::Starting.to_raw(),
            total_effective_inputs: 0,
            dropped_observations: 0,
            windows: WindowsInputCounters {
                key_down: 0,
                key_up: 0,
                keyboard_accepted: 0,
                mouse_accepted: 0,
                read_errors: 0,
            },
        }
    }

    pub fn permission(&self) -> (r: PermissionState)
        ensures
            self.permission_code() <= 3 ==> r.code() == self.permission_code(),
            self.permission_code() > 3 ==> r == PermissionState::Unknown,
    {
        PermissionState::from_raw(self.permission)
    }

    pub fn set_permission(&mut self, value: PermissionState)
        ensures
            final(self).permission_code() == value.code(),
            final(self).health_code() == old(self).health_code(),
            final(self).total_spec() == old(self).total_spec(),
            final(self).dropped_spec() == old(self).dropped_spec(),
            final(self).counters() == old(self).counters(),
    {
        self.permission = value.to_raw();
    }

    pub fn health(&self) -> (r: InputHealth)
        ensures
            self.health_code() <= 3 ==> r.code() == self.health_code(),
            self.health_code() > 3 ==> r == InputHealth::Starting,
    {
        InputHealth::from_raw(self.health)
    }

    pub fn set_health(&mut self, value: InputHealth)
        ensures
            final(self).health_code() == value.code(),
            final(self).permission_code() == old(self).permission_code(),
            final(self).total_spec() == old(self).total_spec(),
            final(self).dropped_spec() == old(self).dropped_spec(),
            final(self).counters() == old(self).counters(),
    {
        self.health = value.to_raw();
    }

    pub fn total_effective_inputs(&self) -> (r: u64)
        ensures
            r == self.total_spec(),
    {
        self.total_effective_inputs
    }

    pub fn dropped_observations(&self) -> (r: u64)
        ensures
            r == self.dropped_spec(),
    {
        self.dropped_observations
    }

    pub fn add_effective_inputs(&mut self, count: u64)
        ensures
            final(self).total_spec() == sat_sum(old(self).total_spec(), count),
            final(self).permission_code() == old(self).permission_code(),
            final(self).health_code() == old(self).health_code(),
            final(self).dropped_spec() == old(self).dropped_spec(),
            final(self).counters() == old(self).counters(),
    {
        saturating_add(&mut self.total_effective_inputs, count);
    }

    /// An observation the queue had no room for: counted as dropped; the probe is degraded.
    pub fn record_queue_drop(&mut self)
        ensures
            final(self).dropped_spec() == sat_sum(old(self).dropped_spec(), 1),
            final(self).health_code() == InputHealth::Degraded.code(),
            final(self).permission_code() == old(self).permission_code(),
            final(self).total_spec() == old(self).total_spec(),
            final(self).counters() == old(self).counters(),
    {
        saturating_add(&mut self.dropped_observations, 1);
        self.set_health(InputHealth::Degraded);
    }

    /// Input observation was refused: permission denied, the probe stopped.
    pub fn deny(&mut self)
        ensures
            final(self).permission_code() == PermissionState::Denied.code(),
            final(self).health_code() == InputHealth::Stopped.code(),
            final(self).total_spec() == old(self).total_spec(),
            final(self).dropped_spec() == old(self).dropped_spec(),
            final(self).counters() == old(self).counters(),
    {
        self.set_permission(PermissionState::Denied);
        self.set_health(InputHealth::Stopped);
    }

    /// A raw keyboard report that could not be read: counted; the probe is degraded.
    pub fn record_read_error(&mut self)
        ensures
            final(self).counters() == (WindowsInputCounters {
                read_errors: sat_sum(old(self).counters().read_errors, 1),
                ..old(self).counters()
            }),
            final(self).health_code() == InputHealth::Degraded.code(),
            final(self).permission_code() == old(self).permission_code(),
            final(self).total_spec() == old(self).total_spec(),
            final(self).dropped_spec() == old(self).dropped_spec(),
    {
        saturating_add(&mut self.windows.read_errors, 1);
        self.set_health(InputHealth::Degraded);
    }
}

impl Default for RuntimeProbe {
    fn default() -> (r: Self)
        ensures
            r.permission_code() == PermissionState::Unknown.code(),
            r.health_code() == InputHealth::Starting.code(),
            r.total_spec() == 0,
            r.dropped_spec() == 0,
    {
        RuntimeProbe::new()
    }
}

/// A raw event on macOS, reduced to what decides whether it counts.
#[derive(Clone, Copy, Debug, PartialEq, Eq)]
pub enum CandidateEvent {
    KeyDown { autorepeat: bool },
    LeftMouseDown,
    RightMouseDown,
    OtherMouseDown { transient_button_number: i64 },
    Ignored,
}

/// A key press counts unless it is an automatic repeat; left, right and middle (button 2)
/// clicks count; other buttons and other events do not.
pub fn is_effective_candidate(candidate: CandidateEvent) -> (r: bool)
    ensures
        r == match candidate {
            CandidateEvent::KeyDown { autorepeat } => !autorepeat,
            CandidateEvent::LeftMouseDown | CandidateEvent::RightMouseDown => true,
            CandidateEvent::OtherMouseDown { transient_button_number } => transient_button_number == 2,
            CandidateEvent::Ignored => false,
        },
{
    match candidate {
        CandidateEvent::KeyDown { autorepeat } => !autorepeat,
        CandidateEvent::LeftMouseDown | CandidateEvent::RightMouseDown => true,
        CandidateEvent::OtherMouseDown { transient_button_number } => transient_button_number == 2,
        CandidateEvent::Ignored => false,
    }
}

/// A raw event on Windows, reduced to a transient key state.
#[derive(Clone, Copy, Debug, PartialEq, Eq, Structural)]
pub enum WindowsCandidateEvent {
    KeyDown { virtual_key: u8 },
    KeyUp { virtual_key: u8 },
    LeftMouseDown,
    RightMouseDown,
    MiddleMouseDown,
    Ignored,
}

pub const WINDOWS_WM_KEYDOWN: u32 = 0x0100;
pub const WINDOWS_WM_KEYUP: u32 = 0x0101;
pub const WINDOWS_WM_SYSKEYDOWN: u32 = 0x0104;
pub const WINDOWS_WM_SYSKEYUP: u32 = 0x0105;

/// The key state a keyboard message reports; virtual keys beyond a byte are ignored.
pub open spec fn keyboard_candidate_spec(message: u32, virtual_key: u32) -> WindowsCandidateEvent {
    if virtual_key > 255 {
        WindowsCandidateEvent::Ignored
    } else if message == WINDOWS_WM_KEYDOWN || message == WINDOWS_WM_SYSKEYDOWN {
        WindowsCandidateEvent::KeyDown { virtual_key: virtual_key as u8 }
    } else if message == WINDOWS_WM_KEYUP || message == WINDOWS_WM_SYSKEYUP {
        WindowsCandidateEvent::KeyUp { virtual_key: virtual_key as u8 }
    } else {
        WindowsCandidateEvent::Ignored
    }
}

/// Maps a keyboard message and virtual key to a key-down, a key-up, or nothing.
pub fn windows_keyboard_candidate(message: u32, virtual_key: u32) -> (r: WindowsCandidateEvent)
    ensures
        r == keyboard_candidate_spec(message, virtual_key),
{
    if virtual_key > 255 {
        return WindowsCandidateEvent::Ignored;
    }
    let key = virtual_key as u8;
    if message == WINDOWS_WM_KEYDOWN || message == WINDOWS_WM_SYSKEYDOWN {
        WindowsCandidateEvent::KeyDown { virtual_key: key }
    } else if message == WINDOWS_WM_KEYUP || message == WINDOWS_WM_SYSKEYUP {
        WindowsCandidateEvent::KeyUp { virtual_key: key }
    } else {
        WindowsCandidateEvent::Ignored
    }
}

/// The virtual key a raw keyboard report stands for: the generic shift, control and alt
/// keys become their left or right variant (right shift by its scan code, right control
/// and alt by the extended flag, bit 1).
pub open spec fn raw_key_spec(virtual_key: u16, scan: u16, flags: u16) -> u32 {
    if virtual_key == 0x10 {
        if scan == 0x36 {
            0xa1
        } else {
            0xa0
        }
    } else if virtual_key == 0x11 {
        if flags & 2 != 0 {
            0xa3
        } else {
            0xa2
        }
    } else if virtual_key == 0x12 {
        if flags & 2 != 0 {
            0xa5
        } else {
            0xa4
        }
    } else {
        virtual_key as u32
    }
}

/// Maps a raw keyboard report to a key state; no key (0), the reserved key 255 and above,
/// and the overrun scan code 255 are ignored.
pub fn raw_keyboard_candidate(message: u32, virtual_key: u16, scan: u16, flags: u16) -> (r:
    WindowsCandidateEvent)
    ensures
        r == if virtual_key == 0 || virtual_key >= 255 || scan == 255 {
            WindowsCandidateEvent::Ignored
        } else {
            keyboard_candidate_spec(message, raw_key_spec(virtual_key, scan, flags))
        },
{
    if virtual_key == 0 || virtual_key >= 255 || scan == 255 {
        return WindowsCandidateEvent::Ignored;
    }
    let key: u32 = if virtual_key == 0x10 {
        if scan == 0x36 {
            0xa1
        } else {
            0xa0
        }
    } else if virtual_key == 0x11 {
        if flags & 2 != 0 {
            0xa3
        } else {
            0xa2
        }
    } else if virtual_key == 0x12 {
        if flags & 2 != 0 {
            0xa5
        } else {
            0xa4
        }
    } else {
        virtual_key as u32
    };
    windows_keyboard_candidate(message, key)
}

/// Which keys are held, so that a held key counts once until it is released.
pub struct WindowsRepeatFilter {
    pressed: Vec<bool>,
}

impl View for WindowsRepeatFilter {
    type V = Seq<bool>;

    closed spec fn view(&self) -> Seq<bool> {
        self.pressed@
    }
}

/// Whether `candidate` counts, given the held keys, and the held keys after it.
pub open spec fn filter_step(pressed: Seq<bool>, candidate: WindowsCandidateEvent) -> (bool, Seq<bool>) {
    match candidate {
        WindowsCandidateEvent::KeyDown { virtual_key } => if pressed[virtual_key as int] {
            (false, pressed)
        } else {
            (true, pressed.update(virtual_key as int, true))
        },
        WindowsCandidateEvent::KeyUp { virtual_key } => (false, pressed.update(virtual_key as int, false)),
        WindowsCandidateEvent::LeftMouseDown
        | WindowsCandidateEvent::RightMouseDown
        | WindowsCandidateEvent::MiddleMouseDown => (true, pressed),
        WindowsCandidateEvent::Ignored => (false, pressed),
    }
}

impl WindowsRepeatFilter {
    #[verifier::type_invariant]
    spec fn wf(&self) -> bool {
        self.pressed@.len() == 256
    }

    /// No key held.
    pub fn new() -> (r: Self)
        ensures
            r@ == Seq::new(256, |i: int| false),
    {
        let mut pressed: Vec<bool> = Vec::new();
        let mut i: usize = 0;
        while i < 256
            invariant
                i <= 256,
                pressed@ == Seq::new(i as nat, |j: int| false),
            decreases 256 - i,
        {
            pressed.push(false);
            i = i + 1;
            assert(pressed@ =~= Seq::new(i as nat, |j: int| false));
        }
        WindowsRepeatFilter { pressed }
    }

    /// Whether `key` is held.
    pub fn is_pressed(&self, key: u8) -> (r: bool)
        ensures
            r == self@[key as int],
    {
        proof {
            use_type_invariant(self);
        }
        self.pressed[key as usize]
    }

    /// A key-down counts only if the key was not held; a key-up releases it and does not
    /// count; clicks count; anything else does not.
    pub fn observe(&mut self, candidate: WindowsCandidateEvent) -> (r: bool)
        ensures
            (r, final(self)@) == filter_step(old(self)@, candidate),
            final(self)@.len() == 256,
    {
        proof {
            use_type_invariant(&*self);
        }
        match candidate {
            WindowsCandidateEvent::KeyDown { virtual_key } => {
                let k = virtual_key as usize;
                if self.pressed[k] {
                    false
                } else {
                    let mut pressed = self.pressed.clone();
                    pressed.set(k, true);
                    self.pressed = pressed;
                    true
                }
            },
            WindowsCandidateEvent::KeyUp { virtual_key } => {
                let k = virtual_key as usize;
                let mut pressed = self.pressed.clone();
                pressed.set(k, false);
                self.pressed = pressed;
                false
            },
            WindowsCandidateEvent::LeftMouseDown
            | WindowsCandidateEvent::RightMouseDown
            | WindowsCandidateEvent::MiddleMouseDown => true,
            WindowsCandidateEvent::Ignored => false,
        }
    }
}

/// Holding a key counts once: a second key-down without a key-up between never counts.
pub proof fn law_held_key_counts_once(pressed: Seq<bool>, key: u8)
    requires
        pressed.len() == 256,
    ensures
        !filter_step(
            filter_step(pressed, WindowsCandidateEvent::KeyDown { virtual_key: key }).1,
            WindowsCandidateEvent::KeyDown { virtual_key: key },
        ).0,
        filter_step(
            filter_step(pressed, WindowsCandidateEvent::KeyUp { virtual_key: key }).1,
            WindowsCandidateEvent::KeyDown { virtual_key: key },
        ).0,
{
}

/// What became of an observation handed to the aggregation queue.
#[derive(Clone, Copy, Debug, PartialEq, Eq, Structural)]
pub enum SendOutcome {
    Sent,
    Full,
    Disconnected,
}

/// The Windows input path up to the queue: counts key transitions, filters repeats, and
/// numbers each effective input.
pub struct WindowsInputPipeline {
    next_sequence: u64,
    repeat_filter: WindowsRepeatFilter,
}

impl WindowsInputPipeline {
    pub closed spec fn sequence(&self) -> u64 {
        self.next_sequence
    }

    pub closed spec fn pressed(&self) -> Seq<bool> {
        self.repeat_filter@
    }

    pub fn new() -> (r: Self)
        ensures
            r.sequence() == 0,
            r.pressed() == Seq::new(256, |i: int| false),
    {
        WindowsInputPipeline { next_sequence: 0, repeat_filter: WindowsRepeatFilter::new() }
    }

    /// Counts the key transition, and returns the sequence number to send when the
    /// candidate is an effective input.
    pub fn observe(&mut self, runtime: &mut RuntimeProbe, candidate: WindowsCandidateEvent) -> (r: Option<
        u64,
    >)
        ensures
            final(self).pressed() == filter_step(old(self).pressed(), candidate).1,
            filter_step(old(self).pressed(), candidate).0 ==> final(self).sequence() == sat_sum(
                old(self).sequence(),
                1,
            ) && r == Some(final(self).sequence()),
            !filter_step(old(self).pressed(), candidate).0 ==> final(self).sequence() == old(self).sequence()
                && r is None,
            final(runtime).counters() == (match candidate {
                WindowsCandidateEvent::KeyDown { .. } => WindowsInputCounters {
                    key_down: sat_sum(old(runtime).counters().key_down, 1),
                    ..old(runtime).counters()
                },
                WindowsCandidateEvent::KeyUp { .. } => WindowsInputCounters {
                    key_up: sat_sum(old(runtime).counters().key_up, 1),
                    ..old(runtime).counters()
                },
                _ => old(runtime).counters(),
            }),
            final(runtime).permission_code() == old(runtime).permission_code(),
            final(runtime).health_code() == old(runtime).health_code(),
            final(runtime).total_spec() == old(runtime).total_spec(),
            final(runtime).dropped_spec() == old(runtime).dropped_spec(),
    {
        match candidate {
            WindowsCandidateEvent::KeyDown { .. } => saturating_add(&mut runtime.windows.key_down, 1),
            WindowsCandidateEvent::KeyUp { .. } => saturating_add(&mut runtime.windows.key_up, 1),
            _ => {},
        }
        if !self.repeat_filter.observe(candidate) {
            return None;
        }
        self.next_sequence = self.next_sequence.saturating_add(1);
        Some(self.next_sequence)
    }

    /// A keyboard was added or removed and may never report its key-ups: every key
    /// counts as released.
    pub fn release_all_keys(&mut self)
        ensures
            final(self).pressed() == Seq::new(256, |i: int| false),
            final(self).sequence() == old(self).sequence(),
    {
        self.repeat_filter = WindowsRepeatFilter::new();
    }

    /// Records what became of a sent observation: accepted keyboard or mouse input, a
    /// dropped observation (the probe degrades), or a stopped probe.
    pub fn delivered(runtime: &mut RuntimeProbe, candidate: WindowsCandidateEvent, outcome: SendOutcome)
        ensures
            outcome == SendOutcome::Sent ==> final(runtime).counters() == (if candidate is KeyDown {
                WindowsInputCounters {
                    keyboard_accepted: sat_sum(old(runtime).counters().keyboard_accepted, 1),
                    ..old(runtime).counters()
                }
            } else {
                WindowsInputCounters {
                    mouse_accepted: sat_sum(old(runtime).counters().mouse_accepted, 1),
                    ..old(runtime).counters()
                }
            }) && final(runtime).health_code() == old(runtime).health_code()
                && final(runtime).dropped_spec() == old(runtime).dropped_spec(),
            outcome == SendOutcome::Full ==> final(runtime).counters() == old(runtime).counters()
                && final(runtime).dropped_spec() == sat_sum(old(runtime).dropped_spec(), 1)
                && final(runtime).health_code() == InputHealth::Degraded.code(),
            outcome == SendOutcome::Disconnected ==> final(runtime).counters() == old(runtime).counters()
                && final(runtime).dropped_spec() == old(runtime).dropped_spec()
                && final(runtime).health_code() == InputHealth::Stopped.code(),
            final(runtime).permission_code() == old(runtime).permission_code(),
            final(runtime).total_spec() == old(runtime).total_spec(),
    {
        match outcome {
            SendOutcome::Sent => {
                if let WindowsCandidateEvent::KeyDown { .. } = candidate {
                    saturating_add(&mut runtime.windows.keyboard_accepted, 1);
                } else {
                    saturating_add(&mut runtime.windows.mouse_accepted, 1);
                }
            },
            SendOutcome::Full => runtime.record_queue_drop(),
            SendOutcome::Disconnected => runtime.set_health(InputHealth::Stopped),
        }
    }
}

/// The receiving end of the queue: counts each sequence number once, in order.
pub struct InputAggregator {
    last_sequence: u64,
}

impl InputAggregator {
    pub closed spec fn last(&self) -> u64 {
        self.last_sequence
    }

    pub fn new() -> (r: Self)
        ensures
            r.last() == 0,
    {
        InputAggregator { last_sequence: 0 }
    }

    /// Counts an observation only if its sequence number is newer than every one before.
    pub fn accept(&mut self, runtime: &mut RuntimeProbe, sequence: u64) -> (r: bool)
        ensures
            r == (sequence > old(self).last()),
            final(self).last() == if r {
                sequence
            } else {
                old(self).last()
            },
            final(runtime).total_spec() == if r {
                sat_sum(old(runtime).total_spec(), 1)
            } else {
                old(runtime).total_spec()
            },
            final(runtime).permission_code() == old(runtime).permission_code(),
            final(runtime).health_code() == old(runtime).health_code(),
            final(runtime).dropped_spec() == old(runtime).dropped_spec(),
            final(runtime).counters() == old(runtime).counters(),
    {
        if sequence > self.last_sequence {
            self.last_sequence = sequence;
            runtime.add_effective_inputs(1);
            true
        } else {
            false
        }
    }
}

/// How many times a disabled macOS event tap is re-enabled before the probe gives up.
pub const MAX_REENABLE_ATTEMPTS: u8 = 3;

/// After the tap was disabled with `attempts` re-enables already made: the next attempt
/// number and the delay before it in milliseconds, or `None` when the probe must stop.
pub fn next_reenable(attempts: u8) -> (r: Option<(u8, u64)>)
    ensures
        attempts < MAX_REENABLE_ATTEMPTS ==> r == Some(((attempts + 1) as u8, (100 * (attempts + 1)) as u64)),
        attempts >= MAX_REENABLE_ATTEMPTS ==> r is None,
{
    if attempts < MAX_REENABLE_ATTEMPTS {
        let next = attempts + 1;
        Some((next, 100 * next as u64))
    } else {
        None
    }
}

/// Input observation must be (re)started when permission was not yet granted or the
/// probe has stopped; a running, permitted probe is left alone.
pub fn input_needs_restart(permission: PermissionState, health: InputHealth) -> (r: bool)
    ensures
        r == (permission != PermissionState::Allowed || health == InputHealth::Stopped),
{
    !(permission == PermissionState::Allowed) || health == InputHealth::Stopped
}

} // verus!
