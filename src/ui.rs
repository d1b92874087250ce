use vstd::prelude::*;

use crate::messenger::Message;

verus! {

/// The tick duration that the control surface asks for, in milliseconds.
pub const DEFAULT_SUBINTERVAL_MILLIS: u64 = 250;

/// The number of ticks in the default interval: one action every three
/// seconds.
pub const DEFAULT_SUBINTERVAL_COUNT: u64 = 12;

/// The interval that `requested` milliseconds are taken as: rounded down to
/// whole ticks of `sub` milliseconds, and at least one tick.
pub open spec fn normalized(requested: u64, sub: u64) -> int
    recommends
        sub >= 1,
{
    let whole = (requested / sub) * sub;
    if whole < sub {
        sub as int
    } else {
        whole as int
    }
}

/// The state of the control surface: what it shows and what it last asked
/// the scheduler for.
pub struct LeftClickBotApp {
    interval_millis: u64,
    subinterval_millis: u64,
    is_clicking: bool,
    use_global_trigger: bool,
}

impl LeftClickBotApp {
    pub closed spec fn interval(&self) -> u64 {
        self.interval_millis
    }

    pub closed spec fn tick(&self) -> u64 {
        self.subinterval_millis
    }

    pub closed spec fn clicking(&self) -> bool {
        self.is_clicking
    }

    pub closed spec fn global_trigger(&self) -> bool {
        self.use_global_trigger
    }

    /// The interval is a whole, positive number of ticks.
    pub open spec fn wf(&self) -> bool {
        &&& self.tick() >= 1
        &&& self.interval() >= self.tick()
        &&& self.interval() % self.tick() == 0
    }

    pub fn new() -> (app: LeftClickBotApp)
        ensures
            app.wf(),
            app.interval() == DEFAULT_SUBINTERVAL_MILLIS * DEFAULT_SUBINTERVAL_COUNT,
            app.tick() == DEFAULT_SUBINTERVAL_MILLIS,
            !app.clicking(),
            !app.global_trigger(),
    {
        LeftClickBotApp {
            interval_millis: DEFAULT_SUBINTERVAL_MILLIS * DEFAULT_SUBINTERVAL_COUNT,
            subinterval_millis: DEFAULT_SUBINTERVAL_MILLIS,
            is_clicking: false,
            use_global_trigger: false,
        }
    }

    pub fn interval_millis(&self) -> (r: u64)
        ensures
            r == self.interval(),
    {
        self.interval_millis
    }

    pub fn is_clicking(&self) -> (r: bool)
        ensures
            r == self.clicking(),
    {
        self.is_clicking
    }

    pub fn use_global_trigger(&self) -> (r: bool)
        ensures
            r == self.global_trigger(),
    {
        self.use_global_trigger
    }

    /// The message that asks the scheduler for the current interval: ticks
    /// of the fixed tick duration, as many as make up the interval.
    pub fn interval_message(&self) -> (m: Message)
        requires
            self.wf(),
        ensures
            m == (Message::SetInterval {
                subinterval_millis: self.tick(),
                subinterval_count: (self.interval() / self.tick()) as u64,
            }),
            self.tick() * (self.interval() / self.tick()) == self.interval(),
            self.interval() / self.tick() >= 1,
    {
        proof {
            vstd::arithmetic::div_mod::lemma_fundamental_div_mod(
                self.interval() as int,
                self.tick() as int,
            );
            vstd::arithmetic::div_mod::lemma_div_is_ordered(
                self.tick() as int,
                self.interval() as int,
                self.tick() as int,
            );
            vstd::arithmetic::div_mod::lemma_div_by_self(self.tick() as int);
        }
        Message::SetInterval {
            subinterval_millis: self.subinterval_millis,
            subinterval_count: self.interval_millis / self.subinterval_millis,
        }
    }

    /// Takes in one message: a toggle from elsewhere flips what the surface
    /// shows.
    pub fn handle_message(&mut self, message: Message)
        ensures
            final(self).interval() == old(self).interval(),
            final(self).tick() == old(self).tick(),
            final(self).global_trigger() == old(self).global_trigger(),
            final(self).clicking() == (if message is ToggleClicker {
                !old(self).clicking()
            } else {
                old(self).clicking()
            }),
    {
        if let Message::ToggleClicker = message {
            self.is_clicking = !self.is_clicking;
        }
    }

    /// Takes a requested interval: rounds it to whole ticks, at least one,
    /// and returns the message to broadcast when that changes the interval.
    pub fn submit_interval(&mut self, requested: u64) -> (m: Option<Message>)
        requires
            old(self).wf(),
        ensures
            final(self).wf(),
            final(self).interval() == normalized(requested, old(self).tick()),
            final(self).tick() == old(self).tick(),
            final(self).clicking() == old(self).clicking(),
            final(self).global_trigger() == old(self).global_trigger(),
            m == (if final(self).interval() != old(self).interval() {
                Some(
                    Message::SetInterval {
                        subinterval_millis: final(self).tick(),
                        subinterval_count: (final(self).interval() / final(self).tick()) as u64,
                    },
                )
            } else {
                None::<Message>
            }),
    {
        let sub = self.subinterval_millis;
        let q = requested / sub;
        proof {
            vstd::arithmetic::div_mod::lemma_fundamental_div_mod(requested as int, sub as int);
            vstd::arithmetic::mul::lemma_mul_is_commutative(q as int, sub as int);
            vstd::arithmetic::div_mod::lemma_mod_multiples_basic(q as int, sub as int);
            vstd::arithmetic::div_mod::lemma_mod_self_0(sub as int);
        }
        let mut new_value = q * sub;
        if new_value < sub {
            new_value = sub;
        }
        if new_value != self.interval_millis {
            self.interval_millis = new_value;
            Some(self.interval_message())
        } else {
            None
        }
    }

    /// The start or stop button: flips what the surface shows and returns the
    /// toggle to broadcast.
    pub fn toggle_clicking(&mut self) -> (m: Message)
        ensures
            final(self).clicking() == !old(self).clicking(),
            final(self).interval() == old(self).interval(),
            final(self).tick() == old(self).tick(),
            final(self).global_trigger() == old(self).global_trigger(),
            m == Message::ToggleClicker,
    {
        self.is_clicking = !self.is_clicking;
        Message::ToggleClicker
    }

    /// The global-trigger checkbox: records the choice and returns the
    /// message that passes it on.
    pub fn set_global_trigger(&mut self, enabled: bool) -> (m: Message)
        ensures
            final(self).global_trigger() == enabled,
            final(self).clicking() == old(self).clicking(),
            final(self).interval() == old(self).interval(),
            final(self).tick() == old(self).tick(),
            m == Message::ToggleKeybind(enabled),
    {
        self.use_global_trigger = enabled;
        Message::ToggleKeybind(enabled)
    }
}

} // verus!
