//! Messages that the status line shows for a while.

use vstd::prelude::*;

verus! {

/// The time that a message is shown where none is given, in milliseconds.
pub const DEFAULT_DURATION: u64 = 5000;

/// A text, how long it is to be shown, and since when it is shown. Times are
/// milliseconds on a clock that the caller reads.
#[derive(Debug, Clone)]
pub struct Message {
    pub text: String,
    pub duration: u64,
    pub start_time: Option<u64>,
}

impl Message {
    /// Whether the message, shown since `start_time`, has been shown for
    /// longer than `duration` at the time `now`.
    pub open spec fn expired_at(start_time: Option<u64>, duration: u64, now: u64) -> bool {
        match start_time {
            Some(start) => now - start > duration,
            None => false,
        }
    }

    /// Create a new message with a default duration of 5 seconds.
    pub fn new(text: String) -> (m: Message)
        ensures
            m.text == text,
            m.duration == DEFAULT_DURATION,
            m.start_time == None::<u64>,
    {
        Message::with_duration(text, DEFAULT_DURATION)
    }

    /// Create a new message with a custom duration.
    pub fn with_duration(text: String, duration: u64) -> (m: Message)
        ensures
            m.text == text,
            m.duration == duration,
            m.start_time == None::<u64>,
    {
        Message { text, duration, start_time: None }
    }

    /// Starts to show the message, at the time `now`.
    pub fn start(&mut self, now: u64)
        ensures
            final(self).start_time == Some(now),
            final(self).text == old(self).text,
            final(self).duration == old(self).duration,
    {
        self.start_time = Some(now);
    }

    /// Whether the message has been shown for longer than its duration. A
    /// message that was never started has not expired.
    pub fn has_expired(&self, now: u64) -> (expired: bool)
        ensures
            expired == Self::expired_at(self.start_time, self.duration, now),
    {
        if let Some(start_time) = self.start_time {
            now > start_time && now - start_time > self.duration
        } else {
            false
        }
    }
}

} // verus!
