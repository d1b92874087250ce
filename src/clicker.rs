use vstd::prelude::*;

use crate::messenger::Message;

verus! {

/// What the scheduler's loop holds, as plain values.
pub struct SchedulerState {
    pub running: bool,
    pub clicking: bool,
    /// Whether an interval has been taken in yet; until then nothing fires.
    pub configured: bool,
    pub changed: bool,
    pub count: u64,
    pub millis: u64,
    pub phase: u64,
}

/// Whether the scheduler acts on `m` at all.
pub open spec fn handles(m: Message) -> bool {
    !(m is ToggleKeybind)
}

/// The phase set by a toggle, turning on or off: one, unconditionally. The
/// tick that starts right after turning on therefore does not fire; the
/// first action comes when the phase wraps to zero, `count - 1` ticks after
/// the toggle, then once per cycle. With 250 ms ticks and a count of 12 that
/// puts the first action at 2750 ms, not at the 250 ms that a one-tick delay
/// would give: whether phase one is a deliberate debounce or an oversight is
/// an open question, and the phase is kept as it is.
pub open spec fn toggle_phase(count: u64) -> u64 {
    1
}

/// The scheduler's state after it took in `m`.
pub open spec fn on_message(s: SchedulerState, m: Message) -> SchedulerState {
    match m {
        Message::SetInterval { subinterval_millis, subinterval_count } => SchedulerState {
            count: subinterval_count,
            millis: subinterval_millis,
            configured: true,
            changed: s.changed || s.count != subinterval_count || s.millis != subinterval_millis,
            ..s
        },
        Message::ToggleClicker => SchedulerState {
            phase: toggle_phase(s.count),
            clicking: !s.clicking,
            ..s
        },
        Message::Shutdown => SchedulerState { running: false, ..s },
        Message::ToggleKeybind(_) => s,
    }
}

/// The state at the start of a tick: a changed configuration restarts the
/// cycle from the firing position.
pub open spec fn settled(s: SchedulerState) -> SchedulerState {
    if s.changed && s.configured {
        SchedulerState { changed: false, phase: 0, ..s }
    } else {
        s
    }
}

/// Whether the action is performed on the tick that starts in state `s`:
/// never after a shutdown, and never before an interval was taken in.
pub open spec fn fires(s: SchedulerState) -> bool {
    s.running && s.clicking && s.configured && settled(s).phase == 0
}

/// The state after one tick; after a shutdown there is no tick at all.
pub open spec fn after_tick(s: SchedulerState) -> SchedulerState {
    if !s.running {
        s
    } else {
        let t = settled(s);
        if t.clicking && t.configured {
            SchedulerState { phase: ((t.phase + 1) % (t.count as int)) as u64, ..t }
        } else {
            t
        }
    }
}

/// A configuration that a message may carry: a cycle has at least one tick.
pub open spec fn valid_message(m: Message) -> bool {
    match m {
        Message::SetInterval { subinterval_count, .. } => subinterval_count >= 1,
        _ => true,
    }
}

pub open spec fn valid_state(s: SchedulerState) -> bool {
    s.count >= 1 && (s.changed || s.phase < s.count || s.phase == 1)
}

/// What the loop does on one tick while active: perform the action or not,
/// then sleep.
#[derive(Clone, Copy, Debug, PartialEq, Eq, Structural)]
pub struct TickAction {
    pub click: bool,
    pub sleep_millis: u64,
}

/// The periodic scheduler: one cycle is `subinterval_count` ticks of
/// `subinterval_millis` each, and the action is performed once per cycle.
pub struct Clicker {
    running: bool,
    clicking: bool,
    interval_received: bool,
    subinterval_data_changed: bool,
    subinterval_count: u64,
    subinterval_millis: u64,
    current_subinterval: u64,
}

impl View for Clicker {
    type V = SchedulerState;

    closed spec fn view(&self) -> SchedulerState {
        SchedulerState {
            running: self.running,
            clicking: self.clicking,
            configured: self.interval_received,
            changed: self.subinterval_data_changed,
            count: self.subinterval_count,
            millis: self.subinterval_millis,
            phase: self.current_subinterval,
        }
    }
}

impl Clicker {
    pub open spec fn wf(&self) -> bool {
        valid_state(self@)
    }

    /// A scheduler that never fires before it is given a real interval.
    pub fn new() -> (c: Clicker)
        ensures
            c.wf(),
            c@ == (SchedulerState {
                running: true,
                clicking: false,
                configured: false,
                changed: true,
                count: u64::MAX,
                millis: u64::MAX,
                phase: 0,
            }),
    {
        Clicker {
            running: true,
            clicking: false,
            interval_received: false,
            subinterval_data_changed: true,
            subinterval_count: u64::MAX,
            subinterval_millis: u64::MAX,
            current_subinterval: 0,
        }
    }

    pub fn is_running(&self) -> (r: bool)
        ensures
            r == self@.running,
    {
        self.running
    }

    pub fn is_clicking(&self) -> (r: bool)
        ensures
            r == self@.clicking,
    {
        self.clicking
    }

    /// Takes in one message; returns whether it was one that the scheduler
    /// acts on.
    pub fn handle_message(&mut self, message: Message) -> (handled: bool)
        requires
            old(self).wf(),
            valid_message(message),
        ensures
            final(self).wf(),
            final(self)@ == on_message(old(self)@, message),
            handled == handles(message),
    {
        match message {
            Message::SetInterval { subinterval_millis, subinterval_count } => {
                if self.subinterval_count != subinterval_count {
                    self.subinterval_count = subinterval_count;
                    self.subinterval_data_changed = true;
                }
                if self.subinterval_millis != subinterval_millis {
                    self.subinterval_millis = subinterval_millis;
                    self.subinterval_data_changed = true;
                }
                self.interval_received = true;
                true
            },
            Message::ToggleClicker => {
                self.current_subinterval = 1;
                self.clicking = !self.clicking;
                true
            },
            Message::Shutdown => {
                self.running = false;
                true
            },
            Message::ToggleKeybind(_) => false,
        }
    }

    /// Takes in a message as it comes off the bus: an interval of zero ticks
    /// is no interval at all and is ignored like a message that the
    /// scheduler does not act on.
    pub fn accept_message(&mut self, message: Message) -> (handled: bool)
        requires
            old(self).wf(),
        ensures
            final(self).wf(),
            final(self)@ == (if valid_message(message) {
                on_message(old(self)@, message)
            } else {
                old(self)@
            }),
            handled == (valid_message(message) && handles(message)),
    {
        if let Message::SetInterval { subinterval_count: 0, .. } = message {
            return false;
        }
        self.handle_message(message)
    }

    /// One pass of the loop after the messages were taken in: `None` while
    /// idle or after a shutdown, else whether to perform the action and how
    /// long to sleep.
    pub fn tick(&mut self) -> (action: Option<TickAction>)
        requires
            old(self).wf(),
        ensures
            final(self).wf(),
            final(self)@ == after_tick(old(self)@),
            action == (if old(self)@.running && old(self)@.clicking {
                Some(TickAction { click: fires(old(self)@), sleep_millis: old(self)@.millis })
            } else {
                None::<TickAction>
            }),
    {
        if !self.running {
            return None;
        }
        if self.subinterval_data_changed && self.interval_received {
            self.subinterval_data_changed = false;
            self.current_subinterval = 0;
        }
        if self.clicking {
            let click = self.interval_received && self.current_subinterval == 0;
            if self.interval_received {
                self.current_subinterval = (self.current_subinterval + 1) % self.subinterval_count;
            }
            Some(TickAction { click, sleep_millis: self.subinterval_millis })
        } else {
            None
        }
    }
}

/// The state after `n` ticks with no message in between.
pub open spec fn run_ticks(s: SchedulerState, n: nat) -> SchedulerState
    decreases n,
{
    if n == 0 {
        s
    } else {
        run_ticks(after_tick(s), (n - 1) as nat)
    }
}

/// While running and active with a settled configuration, the phase advances
/// by one per tick around the cycle, and nothing else changes.
pub proof fn lemma_ticks_advance_phase(s: SchedulerState, n: nat)
    requires
        valid_state(s),
        s.running,
        s.clicking,
        s.configured,
        !s.changed,
        s.phase < s.count,
    ensures
        run_ticks(s, n).phase as int == (s.phase + n) % (s.count as int),
        run_ticks(s, n) == (SchedulerState { phase: run_ticks(s, n).phase, ..s }),
        fires(run_ticks(s, n)) == ((s.phase + n) % (s.count as int) == 0),
    decreases n,
{
    let m = s.count as int;
    if n == 0 {
        vstd::arithmetic::div_mod::lemma_small_mod(s.phase as nat, m as nat);
    } else {
        let a = after_tick(s);
        vstd::arithmetic::div_mod::lemma_mod_bound(s.phase + 1, m);
        lemma_ticks_advance_phase(a, (n - 1) as nat);
        vstd::arithmetic::div_mod::lemma_add_mod_noop(s.phase + 1, n - 1, m);
        vstd::arithmetic::div_mod::lemma_add_mod_noop((s.phase + 1) % m, n - 1, m);
        vstd::arithmetic::div_mod::lemma_mod_twice(s.phase + 1, m);
        vstd::arithmetic::div_mod::lemma_mod_twice(n - 1, m);
    }
}

/// Timing after turning on: from idle with a settled configuration, tick
/// `n` (counting from zero, the tick that starts right after the toggle)
/// performs the action exactly when `(n + 1) % count == 0`; with a one-tick
/// cycle, on every tick but the first. Each tick sleeps for the configured
/// tick duration.
pub proof fn lemma_toggle_on_timing(s: SchedulerState, n: nat)
    requires
        valid_state(s),
        s.running,
        !s.clicking,
        s.configured,
        !s.changed,
    ensures
        ({
            let t = on_message(s, Message::ToggleClicker);
            &&& fires(run_ticks(t, n)) == (if s.count == 1 {
                n >= 1
            } else {
                (n + 1) as int % (s.count as int) == 0
            })
            &&& run_ticks(t, n).millis == s.millis
        }),
{
    let t = on_message(s, Message::ToggleClicker);
    if s.count >= 2 {
        lemma_ticks_advance_phase(t, n);
    } else if n >= 1 {
        let a = after_tick(t);
        assert(a.phase == 0);
        lemma_ticks_advance_phase(a, (n - 1) as nat);
        assert(run_ticks(t, n) == run_ticks(a, (n - 1) as nat));
    }
}

/// Shutdown ends all work: from then on no tick performs the action or
/// changes the state.
pub proof fn lemma_shutdown_stops(s: SchedulerState, n: nat)
    ensures
        ({
            let t = on_message(s, Message::Shutdown);
            &&& !fires(run_ticks(t, n))
            &&& run_ticks(t, n) == t
        }),
    decreases n,
{
    if n > 0 {
        lemma_shutdown_stops(s, (n - 1) as nat);
        let t = on_message(s, Message::Shutdown);
        assert(after_tick(t) == t);
    }
}

/// Nothing fires before an interval was taken in, whatever toggles came.
pub proof fn lemma_sentinel_never_fires(s: SchedulerState, n: nat)
    requires
        !s.configured,
    ensures
        !fires(run_ticks(s, n)),
        !run_ticks(s, n).configured,
    decreases n,
{
    if n > 0 {
        lemma_sentinel_never_fires(after_tick(s), (n - 1) as nat);
    }
}

/// A change of interval while active restarts the cycle: the very next tick
/// performs the action and sleeps for the new tick duration, and the phase
/// then stands one tick into the new cycle.
pub proof fn lemma_reconfiguration_resets_phase(s: SchedulerState, millis: u64, count: u64)
    requires
        valid_state(s),
        s.running,
        s.clicking,
        count >= 1,
        count != s.count || millis != s.millis,
    ensures
        ({
            let t = on_message(s, Message::SetInterval { subinterval_millis: millis, subinterval_count: count });
            &&& fires(t)
            &&& t.millis == millis
            &&& after_tick(t).phase as int == 1int % (count as int)
        }),
{
}

/// Taking in the same interval twice in a row is the same as taking it in
/// once: the second time does not mark the configuration as changed.
pub proof fn lemma_idempotent_reconfiguration(s: SchedulerState, millis: u64, count: u64)
    ensures
        ({
            let m = Message::SetInterval { subinterval_millis: millis, subinterval_count: count };
            on_message(on_message(s, m), m) == on_message(s, m)
        }),
{
}

} // verus!
