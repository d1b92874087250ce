use vstd::prelude::*;

use crate::messenger::Message;

verus! {

/// The flag that the hotkey callback and the message handler share: whether
/// the global key toggles the scheduler. Callers keep it behind a lock, and
/// broadcast what `on_hotkey` returns only after they released the lock.
pub struct KeybindManager {
    use_binding: bool,
}

impl KeybindManager {
    pub closed spec fn enabled(&self) -> bool {
        self.use_binding
    }

    pub fn new() -> (k: KeybindManager)
        ensures
            !k.enabled(),
    {
        KeybindManager { use_binding: false }
    }

    pub fn use_binding(&self) -> (r: bool)
        ensures
            r == self.enabled(),
    {
        self.use_binding
    }

    /// Takes in one message: only `ToggleKeybind` concerns the flag.
    pub fn handle_message(&mut self, message: Message)
        ensures
            final(self).enabled() == (match message {
                Message::ToggleKeybind(on) => on,
                _ => old(self).enabled(),
            }),
    {
        if let Message::ToggleKeybind(on) = message {
            self.use_binding = on;
        }
    }

    /// What to broadcast when the global key is pressed.
    pub fn on_hotkey(&self) -> (r: Option<Message>)
        ensures
            r == (if self.enabled() {
                Some(Message::ToggleClicker)
            } else {
                None::<Message>
            }),
    {
        if self.use_binding {
            Some(Message::ToggleClicker)
        } else {
            None
        }
    }
}

} // verus!
