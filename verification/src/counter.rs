use vstd::prelude::*;

verus! {

/// State of the counter widget shown by the desktop front end. Only the
/// state transition is part of the verified core; drawing the widgets and
/// driving the event loop stay with the front end.
pub struct Counter {
    pub value: i64,
}

/// An event the counter reacts to.
#[derive(Debug, Clone, Copy)]
pub enum Message {
    Increment,
    Decrement,
}

impl Counter {
    /// Start-up hook for the front end. The interface loop it would hand
    /// control to performs I/O and lives outside the verified core, so
    /// there is nothing to do here.
    pub fn run() {
    }

    /// Applies one event to the state: increments or decrements the value
    /// by exactly one.
    pub fn update(&mut self, message: Message)
        requires
            message is Increment ==> old(self).value < i64::MAX,
            message is Decrement ==> old(self).value > i64::MIN,
        ensures
            message is Increment ==> final(self).value == old(self).value + 1,
            message is Decrement ==> final(self).value == old(self).value - 1,
    {
        match message {
            Message::Increment => {
                self.value = self.value + 1;
            },
            Message::Decrement => {
                self.value = self.value - 1;
            },
        }
    }
}

} // verus!
